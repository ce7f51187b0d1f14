//! What the station's e-paper display shows, and when it has to be redrawn.
//! The display shows the channels, the network status, the host address and
//! the status of the channel registry; it is redrawn when one of them changed,
//! and at the latest every ten minutes.

use vstd::prelude::*;
use crate::channel::{ChanInfo, InfoView, info_views};

verus! {

/// The state of the display.
pub struct DisplayState {
    /// The channels shown.
    pub chan: Vec<ChanInfo>,
    /// The network status shown.
    pub online: String,
    /// The status of the channel registry shown.
    pub status: String,
    /// The host address shown.
    pub host: String,
    /// The error shown, empty where there is none.
    pub error: String,
    /// Whether the display has to be redrawn.
    pub changed: bool,
    /// When the display was last marked for redrawing, in seconds of a
    /// monotonic clock.
    pub last: u64,
}

/// The view of the display state.
pub struct DisplayView {
    pub chan: Seq<InfoView>,
    pub online: Seq<char>,
    pub status: Seq<char>,
    pub host: Seq<char>,
    pub error: Seq<char>,
    pub changed: bool,
    pub last: u64,
}

impl View for DisplayState {
    type V = DisplayView;

    open spec fn view(&self) -> DisplayView {
        DisplayView {
            chan: info_views(self.chan@),
            online: self.online@,
            status: self.status@,
            host: self.host@,
            error: self.error@,
            changed: self.changed,
            last: self.last,
        }
    }
}

/// The seconds from `last` to `now`, none where `now` is earlier.
pub open spec fn elapsed(last: u64, now: u64) -> int {
    if now >= last {
        now - last
    } else {
        0
    }
}

/// Longest time the display goes without being redrawn, in seconds.
pub open spec fn refresh_secs() -> int {
    600
}

/// Whether some channel of `fresh` differs from the one shown at the same
/// place both in label and in value.
pub open spec fn channels_differ(fresh: Seq<InfoView>, shown: Seq<InfoView>) -> bool {
    exists|i: int|
        0 <= i < fresh.len() && i < shown.len() && #[trigger] fresh[i].3 != shown[i].3 && fresh[i].1
            != shown[i].1
}

/// The display after it was marked for redrawing at `now`.
pub open spec fn marked(v: DisplayView, now: u64) -> DisplayView {
    DisplayView { changed: true, last: now, ..v }
}

/// The display state after an update at `now` with the network status
/// `online`, the host address `host`, the registry status `status` and the
/// channels `infos`; `None` stands for a registry that could not be read,
/// and the channels are only looked at where the status could be read.
///
/// The error is cleared; the network status and the host are shown as
/// given; the registry status is shown where it was read; the channels are
/// replaced where they were read and one of them differs from the one shown
/// at its place both in label and in value. The display asks for redrawing,
/// marked at `now`, where one of these changed what is shown, or where the
/// whole registry was read and more than ten minutes passed since it was
/// last marked; otherwise it asks for none and keeps that time.
pub open spec fn updated(
    v: DisplayView,
    online: Seq<char>,
    host: Seq<char>,
    status: Option<Seq<char>>,
    infos: Option<Seq<InfoView>>,
    now: u64,
) -> DisplayView {
    let read = status is Some && infos is Some;
    let new_chan = read && channels_differ(infos->0, v.chan);
    let shown_changed = v.online != online || v.host != host || (status is Some && v.status
        != status->0) || new_chan;
    let changed = shown_changed || (read && elapsed(v.last, now) > refresh_secs());
    DisplayView {
        chan: if new_chan {
            infos->0
        } else {
            v.chan
        },
        online: online,
        status: match status {
            Some(s) => s,
            None => v.status,
        },
        host: host,
        error: Seq::empty(),
        changed: changed,
        last: if changed {
            now
        } else {
            v.last
        },
    }
}

/// The state of a display that shows nothing yet, at `now`: the channels
/// TOX, DOS, ph, ec, orp, temp and tur with value NIL, offline, status
/// `-------`, host `none`, no error, nothing to redraw.
pub fn new_state(now: u64) -> (s: DisplayState)
    ensures
        s.chan@.len() == 7,
        s@.chan[0].1 == "TOX"@ && s@.chan[1].1 == "DOS"@ && s@.chan[2].1 == "ph"@ && s@.chan[3].1
            == "ec"@ && s@.chan[4].1 == "orp"@ && s@.chan[5].1 == "temp"@ && s@.chan[6].1
            == "tur"@,
        forall|i: int| 0 <= i < 7 ==> #[trigger] s@.chan[i].3 == "NIL"@,
        s.online@ == "offline"@,
        s.status@ == "-------"@,
        s.host@ == "none"@,
        s.error@ == Seq::<char>::empty(),
        !s.changed,
        s.last == now,
{
    let mut chan: Vec<ChanInfo> = Vec::new();
    chan.push(ChanInfo::new("TOX", "NIL"));
    chan.push(ChanInfo::new("DOS", "NIL"));
    chan.push(ChanInfo::new("ph", "NIL"));
    chan.push(ChanInfo::new("ec", "NIL"));
    chan.push(ChanInfo::new("orp", "NIL"));
    chan.push(ChanInfo::new("temp", "NIL"));
    chan.push(ChanInfo::new("tur", "NIL"));
    DisplayState {
        chan,
        online: String::from_str("offline"),
        status: String::from_str("-------"),
        host: String::from_str("none"),
        error: String::new(),
        changed: false,
        last: now,
    }
}

fn differ(fresh: &Vec<ChanInfo>, shown: &Vec<ChanInfo>) -> (b: bool)
    ensures
        b == channels_differ(info_views(fresh@), info_views(shown@)),
{
    let ghost fv = info_views(fresh@);
    let ghost sv = info_views(shown@);
    let mut i: usize = 0;
    while i < fresh.len() && i < shown.len()
        invariant
            i <= fresh@.len(),
            fv == info_views(fresh@),
            sv == info_views(shown@),
            forall|k: int|
                0 <= k < i && k < shown@.len() ==> !(#[trigger] fv[k].3 != sv[k].3 && fv[k].1
                    != sv[k].1),
        decreases fresh@.len() - i,
    {
        assert(fv[i as int] == fresh@[i as int]@);
        assert(sv[i as int] == shown@[i as int]@);
        if fresh[i].value != shown[i].value && fresh[i].label != shown[i].label {
            assert(fv[i as int].3 != sv[i as int].3 && fv[i as int].1 != sv[i as int].1);
            return true;
        }
        i = i + 1;
    }
    false
}

impl DisplayState {
    /// Marks the display for redrawing at `now`.
    pub fn changed(&mut self, now: u64)
        ensures
            final(self)@ == marked(old(self)@, now),
    {
        self.changed = true;
        self.last = now;
    }

    /// Whether the display has to be redrawn.
    pub fn is_changed(&self) -> (b: bool)
        ensures
            b == self.changed,
    {
        self.changed
    }

    /// Updates the display at `now` with the network status `online`, the
    /// host address `host`, the registry status `status` and the channels
    /// `infos`, where `None` stands for a registry that could not be read.
    /// It clears the error and marks the display for redrawing where
    /// something shown changed, or where nothing changed for more than ten
    /// minutes. Returns whether the registry could be read.
    pub fn update(
        &mut self,
        online: String,
        host: String,
        status: Option<String>,
        infos: Option<Vec<ChanInfo>>,
        now: u64,
    ) -> (ok: bool)
        ensures
            ok == (status is Some && infos is Some),
            final(self)@ == updated(
                old(self)@,
                online@,
                host@,
                match status {
                    Some(s) => Some(s@),
                    None => None,
                },
                match infos {
                    Some(l) => Some(info_views(l@)),
                    None => None,
                },
                now,
            ),
    {
        self.error = String::new();
        self.changed = false;
        if self.online != online {
            self.online = online;
            self.changed(now);
        }
        if self.host != host {
            self.host = host;
            self.changed(now);
        }
        let status = match status {
            Some(s) => s,
            None => return false,
        };
        if self.status != status {
            self.status = status;
            self.changed(now);
        }
        let list = match infos {
            Some(l) => l,
            None => return false,
        };
        if differ(&list, &self.chan) {
            self.chan = list;
            self.changed(now);
        }
        if !self.is_changed() {
            if now >= self.last && now - self.last > 600 {
                self.changed(now);
            }
        }
        true
    }
}

/// Once the display shows what an update brought, the same update again,
/// within ten minutes, asks for no redrawing.
pub proof fn lemma_update_settles(
    v: DisplayView,
    online: Seq<char>,
    host: Seq<char>,
    status: Seq<char>,
    infos: Seq<InfoView>,
    now: u64,
    later: u64,
)
    requires
        elapsed(updated(v, online, host, Some(status), Some(infos), now).last, later)
            <= refresh_secs(),
    ensures
        !updated(
            updated(v, online, host, Some(status), Some(infos), now),
            online,
            host,
            Some(status),
            Some(infos),
            later,
        ).changed,
{
    let w = updated(v, online, host, Some(status), Some(infos), now);
    assert(w.online == online);
    assert(w.host == host);
    assert(w.status == status);
    if channels_differ(infos, w.chan) {
        let i = choose|i: int|
            0 <= i < infos.len() && i < w.chan.len() && #[trigger] infos[i].3 != w.chan[i].3
                && infos[i].1 != w.chan[i].1;
        assert(w.chan != infos);
    }
}

/// An update that brings a network status, a host address or a registry
/// status other than the one shown, or channels of which one differs from the
/// one shown at its place in label and value, shows what it brought and asks
/// for a redraw marked at `now`; the error is cleared.
pub proof fn lemma_update_redraws_changes(
    v: DisplayView,
    online: Seq<char>,
    host: Seq<char>,
    status: Option<Seq<char>>,
    infos: Option<Seq<InfoView>>,
    now: u64,
)
    ensures
        updated(v, online, host, status, infos, now).online == online,
        updated(v, online, host, status, infos, now).host == host,
        updated(v, online, host, status, infos, now).error.len() == 0,
        status matches Some(s) ==> updated(v, online, host, status, infos, now).status == s,
        status is None ==> updated(v, online, host, status, infos, now).status == v.status,
        (v.online != online || v.host != host || (status is Some && v.status != status->0) || (
        status is Some && infos is Some && channels_differ(infos->0, v.chan))) ==> updated(
            v,
            online,
            host,
            status,
            infos,
            now,
        ).changed && updated(v, online, host, status, infos, now).last == now,
        (status is Some && infos is Some && channels_differ(infos->0, v.chan)) ==> updated(
            v,
            online,
            host,
            status,
            infos,
            now,
        ).chan == infos->0,
{
}

/// An update that brings nothing new keeps the channels shown and asks for a
/// redraw only where the whole registry was read and more than ten minutes
/// passed since the last one; then it is marked at `now`, otherwise the time
/// of the last redraw stays.
pub proof fn lemma_update_unchanged(
    v: DisplayView,
    status: Seq<char>,
    infos: Seq<InfoView>,
    now: u64,
)
    requires
        !channels_differ(infos, v.chan),
    ensures
        updated(v, v.online, v.host, Some(status), Some(infos), now).chan == v.chan,
        status == v.status ==> (updated(v, v.online, v.host, Some(status), Some(infos), now).changed
            <==> (now >= v.last && now - v.last > 600)),
        status == v.status && !(now >= v.last && now - v.last > 600) ==> updated(
            v,
            v.online,
            v.host,
            Some(status),
            Some(infos),
            now,
        ).last == v.last,
        status == v.status && now >= v.last && now - v.last > 600 ==> updated(
            v,
            v.online,
            v.host,
            Some(status),
            Some(infos),
            now,
        ).last == now,
        !updated(v, v.online, v.host, None, None, now).changed,
        updated(v, v.online, v.host, None, None, now).last == v.last,
{
}

/// Channels differ from the ones shown only where one of them differs in
/// both label and value from the one at its place: the channels shown never
/// differ from themselves, nor from channels with the same labels.
pub proof fn lemma_channels_differ_needs_label_and_value(fresh: Seq<InfoView>, shown: Seq<InfoView>)
    ensures
        !channels_differ(shown, shown),
        (forall|i: int| 0 <= i < fresh.len() && i < shown.len() ==> #[trigger] fresh[i].1
            == shown[i].1) ==> !channels_differ(fresh, shown),
        (forall|i: int| 0 <= i < fresh.len() && i < shown.len() ==> #[trigger] fresh[i].3
            == shown[i].3) ==> !channels_differ(fresh, shown),
{
}

/// Marking the display for redrawing makes it ask for redrawing.
pub proof fn lemma_marked_is_changed(v: DisplayView, now: u64)
    ensures
        marked(v, now).changed,
        marked(v, now).last == now,
{
}

} // verus!
