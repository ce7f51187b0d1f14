//! The rules of the wireless setting forms: which input is refused, and how
//! the outcome of changing the interface, the credentials and connecting is
//! answered.

use vstd::prelude::*;

verus! {

/// The steps of changing the wireless setting, in the order they are taken.
#[derive(Debug, PartialEq, Eq, Structural, Clone, Copy)]
pub enum WifiStep {
    /// Select the wireless interface.
    Interface,
    /// Store the network name and key.
    Credentials,
    /// Connect to the network.
    Connect,
}

/// The reason why a form with network name `ssid` and key `key` is refused:
/// an empty name first, then an empty key.
pub open spec fn form_refusal(ssid: Seq<char>, key: Seq<char>) -> Option<Seq<char>> {
    if ssid.len() == 0 {
        Some("uuid cannot be empty."@)
    } else if key.len() == 0 {
        Some("password cannot be empty."@)
    } else {
        None
    }
}

/// Why the form with network name `ssid` and key `key` is refused, where it
/// is.
pub fn check_form(ssid: &str, key: &str) -> (r: Option<String>)
    ensures
        match r {
            Some(m) => form_refusal(ssid@, key@) == Some(m@),
            None => form_refusal(ssid@, key@) is None,
        },
{
    if ssid.unicode_len() == 0 {
        Some(String::from_str("uuid cannot be empty."))
    } else if key.unicode_len() == 0 {
        Some(String::from_str("password cannot be empty."))
    } else {
        None
    }
}

/// The answer of the setting page to a change whose step `failed` failed
/// with the error text, or that succeeded: whether it succeeded, and the
/// message shown.
pub open spec fn change_answer(failed: Option<(WifiStep, Seq<char>)>) -> (bool, Seq<char>) {
    match failed {
        None => (true, "WPA credential successfully changed."@),
        Some((WifiStep::Interface, e)) => (false, "change interface error "@ + e),
        Some((WifiStep::Credentials, e)) => (false, "update credentials error "@ + e),
        Some((WifiStep::Connect, e)) => (false, "wifi connect error "@ + e),
    }
}

/// The answer of the setting page to a change: whether it succeeded, and the
/// message shown.
pub fn change_outcome(failed: Option<(WifiStep, String)>) -> (r: (bool, String))
    ensures
        (r.0, r.1@) == change_answer(
            match failed {
                Some((s, e)) => Some((s, e@)),
                None => None,
            },
        ),
{
    match failed {
        None => (true, String::from_str("WPA credential successfully changed.")),
        Some((WifiStep::Interface, e)) => (
            false,
            String::from_str("change interface error ").concat(e.as_str()),
        ),
        Some((WifiStep::Credentials, e)) => (
            false,
            String::from_str("update credentials error ").concat(e.as_str()),
        ),
        Some((WifiStep::Connect, e)) => (
            false,
            String::from_str("wifi connect error ").concat(e.as_str()),
        ),
    }
}

/// The step after `s`, where there is one.
pub open spec fn next_step(s: WifiStep) -> Option<WifiStep> {
    match s {
        WifiStep::Interface => Some(WifiStep::Credentials),
        WifiStep::Credentials => Some(WifiStep::Connect),
        WifiStep::Connect => None,
    }
}

/// What the setting page does next.
#[derive(Debug)]
pub enum WifiAction {
    /// Take this step.
    Call(WifiStep),
    /// Answer: whether the change succeeded, and the message shown.
    Answer(bool, String),
}

/// The view of what the setting page does next.
pub enum WifiActionView {
    Call(WifiStep),
    Answer(bool, Seq<char>),
}

impl View for WifiAction {
    type V = WifiActionView;

    open spec fn view(&self) -> WifiActionView {
        match self {
            WifiAction::Call(s) => WifiActionView::Call(*s),
            WifiAction::Answer(ok, m) => WifiActionView::Answer(*ok, m@),
        }
    }
}

/// The view of the outcome of the last step taken: the step, and the error
/// text where it failed.
pub open spec fn last_view(last: Option<(WifiStep, Option<String>)>) -> Option<(WifiStep, Option<Seq<char>>)> {
    match last {
        Some((s, Some(e))) => Some((s, Some(e@))),
        Some((s, None)) => Some((s, None)),
        None => None,
    }
}

/// What the setting page does for the form with network name `ssid` and key
/// `key`, after the step `last` (none yet where it is `None`): a refused form
/// is answered before any step; otherwise the interface is selected, the
/// credentials are stored and the network is connected, in this order; the
/// first failure is answered, and no step follows it.
pub open spec fn wifi_next(
    ssid: Seq<char>,
    key: Seq<char>,
    last: Option<(WifiStep, Option<Seq<char>>)>,
) -> WifiActionView {
    match form_refusal(ssid, key) {
        Some(m) => WifiActionView::Answer(false, m),
        None => match last {
            None => WifiActionView::Call(WifiStep::Interface),
            Some((s, Some(e))) => WifiActionView::Answer(
                change_answer(Some((s, e))).0,
                change_answer(Some((s, e))).1,
            ),
            Some((s, None)) => match next_step(s) {
                Some(n) => WifiActionView::Call(n),
                None => WifiActionView::Answer(true, change_answer(None).1),
            },
        },
    }
}

/// What the setting page does next for the form with network name `ssid` and
/// key `key`, after the step `last` and its error text where it failed.
pub fn wifi_step(ssid: &str, key: &str, last: Option<(WifiStep, Option<String>)>) -> (a:
    WifiAction)
    ensures
        a@ == wifi_next(ssid@, key@, last_view(last)),
{
    if let Some(m) = check_form(ssid, key) {
        return WifiAction::Answer(false, m);
    }
    match last {
        None => WifiAction::Call(WifiStep::Interface),
        Some((s, Some(e))) => {
            let (ok, m) = change_outcome(Some((s, e)));
            WifiAction::Answer(ok, m)
        },
        Some((WifiStep::Interface, None)) => WifiAction::Call(WifiStep::Credentials),
        Some((WifiStep::Credentials, None)) => WifiAction::Call(WifiStep::Connect),
        Some((WifiStep::Connect, None)) => {
            let (ok, m) = change_outcome(None);
            WifiAction::Answer(ok, m)
        },
    }
}

/// A filled in form is answered only after all three steps succeeded, in
/// the order interface, credentials, connection.
pub proof fn lemma_wifi_order(ssid: Seq<char>, key: Seq<char>)
    requires
        form_refusal(ssid, key) is None,
    ensures
        wifi_next(ssid, key, None) == WifiActionView::Call(WifiStep::Interface),
        wifi_next(ssid, key, Some((WifiStep::Interface, None))) == WifiActionView::Call(
            WifiStep::Credentials,
        ),
        wifi_next(ssid, key, Some((WifiStep::Credentials, None))) == WifiActionView::Call(
            WifiStep::Connect,
        ),
        wifi_next(ssid, key, Some((WifiStep::Connect, None))) == WifiActionView::Answer(
            true,
            "WPA credential successfully changed."@,
        ),
{
}

/// After a failed step, or for a refused form, the setting page answers
/// and takes no further step.
pub proof fn lemma_wifi_stops(
    ssid: Seq<char>,
    key: Seq<char>,
    last: Option<(WifiStep, Option<Seq<char>>)>,
)
    requires
        form_refusal(ssid, key) is Some || (last matches Some((_, Some(_)))),
    ensures
        wifi_next(ssid, key, last) is Answer,
        !(wifi_next(ssid, key, last) matches WifiActionView::Answer(true, _)),
{
}

/// A form is refused exactly where its network name or its key is empty.
/// An answer of the setting page tells success exactly where no step failed;
/// a failed step's message ends with its error text. The page answers
/// success only after the connection, the last step, succeeded for a form
/// that is not refused.
pub proof fn lemma_wifi_answers(
    ssid: Seq<char>,
    key: Seq<char>,
    last: Option<(WifiStep, Option<Seq<char>>)>,
    failed: Option<(WifiStep, Seq<char>)>,
)
    ensures
        (form_refusal(ssid, key) is Some) <==> (ssid.len() == 0 || key.len() == 0),
        change_answer(failed).0 <==> (failed is None),
        failed matches Some((s, e)) ==> change_answer(failed).1.len() >= e.len()
            && change_answer(failed).1.subrange(
            change_answer(failed).1.len() - e.len(),
            change_answer(failed).1.len() as int,
        ) == e,
        wifi_next(ssid, key, last) matches WifiActionView::Answer(true, _) ==> ssid.len() > 0
            && key.len() > 0 && last == Some((WifiStep::Connect, None::<Seq<char>>)),
{
    if let Some((s, e)) = failed {
        let m = change_answer(failed).1;
        assert(m.subrange(m.len() - e.len(), m.len() as int) =~= e);
    }
}

/// The setting page calls a step only for a form that is not refused, and
/// only in order: the interface first, then the credentials after the
/// interface was selected, then the connection after the credentials were
/// stored.
pub proof fn lemma_wifi_calls_in_order(
    ssid: Seq<char>,
    key: Seq<char>,
    last: Option<(WifiStep, Option<Seq<char>>)>,
)
    ensures
        (wifi_next(ssid, key, last) is Call) ==> ssid.len() > 0 && key.len() > 0,
        wifi_next(ssid, key, last) == WifiActionView::Call(WifiStep::Interface) <==> (ssid.len()
            > 0 && key.len() > 0 && last is None),
        wifi_next(ssid, key, last) == WifiActionView::Call(WifiStep::Credentials) <==> (ssid.len()
            > 0 && key.len() > 0 && last == Some((WifiStep::Interface, None::<Seq<char>>))),
        wifi_next(ssid, key, last) == WifiActionView::Call(WifiStep::Connect) <==> (ssid.len() > 0
            && key.len() > 0 && last == Some((WifiStep::Credentials, None::<Seq<char>>))),
{
}

/// What the wireless interface of the API does next.
#[derive(Debug, PartialEq, Eq, Structural, Clone, Copy)]
pub enum ApiAction {
    /// Take this step.
    Call(WifiStep),
    /// Respond with this HTTP status.
    Respond(u16),
}

/// What the wireless interface of the API does after the step `last`, and
/// whether it succeeded (none yet where it is `None`): select the interface,
/// store the credentials and connect, in this order; respond 404 where the
/// interface could not be selected, 400 where the credentials could not be
/// stored or the connection failed, and take no step after a failure;
/// respond 200 after all three.
pub open spec fn api_next(last: Option<(WifiStep, bool)>) -> ApiAction {
    match last {
        None => ApiAction::Call(WifiStep::Interface),
        Some((WifiStep::Interface, false)) => ApiAction::Respond(404),
        Some((_, false)) => ApiAction::Respond(400),
        Some((s, true)) => match next_step(s) {
            Some(n) => ApiAction::Call(n),
            None => ApiAction::Respond(200),
        },
    }
}

/// What the wireless interface of the API does after the step `last`.
pub fn api_step(last: Option<(WifiStep, bool)>) -> (a: ApiAction)
    ensures
        a == api_next(last),
{
    match last {
        None => ApiAction::Call(WifiStep::Interface),
        Some((WifiStep::Interface, false)) => ApiAction::Respond(404),
        Some((_, false)) => ApiAction::Respond(400),
        Some((WifiStep::Interface, true)) => ApiAction::Call(WifiStep::Credentials),
        Some((WifiStep::Credentials, true)) => ApiAction::Call(WifiStep::Connect),
        Some((WifiStep::Connect, true)) => ApiAction::Respond(200),
    }
}

/// The API takes the steps in the order interface, credentials,
/// connection, and responds 200 after all three; after a failed step it
/// responds and takes no further step: 404 where the interface could not be
/// selected, 400 where the credentials could not be stored (it does not
/// connect then) or the connection failed.
pub proof fn lemma_api_order()
    ensures
        api_next(None) == ApiAction::Call(WifiStep::Interface),
        api_next(Some((WifiStep::Interface, true))) == ApiAction::Call(WifiStep::Credentials),
        api_next(Some((WifiStep::Credentials, true))) == ApiAction::Call(WifiStep::Connect),
        api_next(Some((WifiStep::Connect, true))) == ApiAction::Respond(200),
        api_next(Some((WifiStep::Interface, false))) == ApiAction::Respond(404),
        api_next(Some((WifiStep::Credentials, false))) == ApiAction::Respond(400),
        api_next(Some((WifiStep::Connect, false))) == ApiAction::Respond(400),
{
}

/// What a new WPA setting does next.
#[derive(Debug)]
pub enum WpaAction {
    /// Store the credentials.
    Store,
    /// Answer: whether it succeeded, and the message shown.
    Answer(bool, String),
}

/// The view of what a new WPA setting does next.
pub enum WpaActionView {
    Store,
    Answer(bool, Seq<char>),
}

impl View for WpaAction {
    type V = WpaActionView;

    open spec fn view(&self) -> WpaActionView {
        match self {
            WpaAction::Store => WpaActionView::Store,
            WpaAction::Answer(ok, m) => WpaActionView::Answer(*ok, m@),
        }
    }
}

/// What a new WPA setting (network name `uuid`, password `pass`) does, where
/// `stored` tells whether storing the credentials worked (`None` before they
/// were stored): a form with an empty name or password is answered and
/// nothing is stored; otherwise the credentials are stored, and the answer
/// tells whether that worked.
pub open spec fn wpa_next(uuid: Seq<char>, pass: Seq<char>, stored: Option<bool>) -> WpaActionView {
    match form_refusal(uuid, pass) {
        Some(m) => WpaActionView::Answer(false, m),
        None => match stored {
            None => WpaActionView::Store,
            Some(false) => WpaActionView::Answer(
                false,
                "Todo could not be inserted due an internal error."@,
            ),
            Some(true) => WpaActionView::Answer(true, "Todo successfully added."@),
        },
    }
}

/// A new WPA setting is stored exactly when its name and password are both
/// given and it was not stored yet; it is answered as a success exactly when
/// it was given in full and storing worked.
pub proof fn lemma_wpa_stores_exactly_full_forms(uuid: Seq<char>, pass: Seq<char>, stored: Option<bool>)
    ensures
        (wpa_next(uuid, pass, stored) is Store) <==> (uuid.len() > 0 && pass.len() > 0 && stored is None),
        (wpa_next(uuid, pass, stored) matches WpaActionView::Answer(true, _)) <==> (uuid.len() > 0
            && pass.len() > 0 && stored == Some(true)),
{
}

/// The API responds 200 exactly after the connection, the last step,
/// succeeded; it calls a step only after the one before it succeeded.
pub proof fn lemma_api_success_only_at_the_end(last: Option<(WifiStep, bool)>)
    ensures
        (api_next(last) == ApiAction::Respond(200)) <==> last == Some((WifiStep::Connect, true)),
        api_next(last) == ApiAction::Call(WifiStep::Credentials) <==> last == Some(
            (WifiStep::Interface, true),
        ),
        api_next(last) == ApiAction::Call(WifiStep::Connect) <==> last == Some(
            (WifiStep::Credentials, true),
        ),
        api_next(last) == ApiAction::Call(WifiStep::Interface) <==> last is None,
{
}

/// What a new WPA setting does next.
pub fn wpa_step(uuid: &str, pass: &str, stored: Option<bool>) -> (a: WpaAction)
    ensures
        a@ == wpa_next(uuid@, pass@, stored),
{
    if let Some(m) = check_form(uuid, pass) {
        return WpaAction::Answer(false, m);
    }
    match stored {
        None => WpaAction::Store,
        Some(false) => WpaAction::Answer(
            false,
            String::from_str("Todo could not be inserted due an internal error."),
        ),
        Some(true) => WpaAction::Answer(true, String::from_str("Todo successfully added.")),
    }
}

/// A WPA setting with an empty name or password is never stored.
pub proof fn lemma_wpa_refused_never_stores(uuid: Seq<char>, pass: Seq<char>, stored: Option<bool>)
    requires
        uuid.len() == 0 || pass.len() == 0,
    ensures
        wpa_next(uuid, pass, stored) is Answer,
{
}

} // verus!
