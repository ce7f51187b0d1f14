//! The NITRITOX analyser's answers on its serial line. An answer holds the
//! date, the time, the toxicity and the dosing, separated by semicolons.

use vstd::prelude::*;

verus! {

/// The texts of the groups `first` and `second` of the first match of the
/// regular expression `pattern` in `text`, where `pattern` is one, matches,
/// and both groups take part in the match.
pub uninterp spec fn regex_pair(
    pattern: Seq<char>,
    text: Seq<char>,
    first: Seq<char>,
    second: Seq<char>,
) -> Option<(Seq<char>, Seq<char>)>;

/// The view of an optional pair of texts.
pub open spec fn pair_view(o: Option<(String, String)>) -> Option<(Seq<char>, Seq<char>)> {
    match o {
        Some(p) => Some((p.0@, p.1@)),
        None => None,
    }
}

/// The groups `first` and `second` of the first match of `pattern` in
/// `text`.
///
/// Trusted: `regex::Regex::new(pattern)`, `Regex::captures(text)` and
/// `Captures::name` for both groups. The contract claims only that the
/// result is the one named by `regex_pair`, a function of the four texts;
/// what the regular expression matches is left unsaid.
#[verifier::external_body]
fn captures_pair(pattern: &str, text: &str, first: &str, second: &str) -> (r: Option<
    (String, String),
>)
    ensures
        pair_view(r) == regex_pair(pattern@, text@, first@, second@),
{
    let re = match regex::Regex::new(pattern) {
        Ok(re) => re,
        Err(_) => return None,
    };
    let caps = match re.captures(text) {
        Some(c) => c,
        None => return None,
    };
    match (caps.name(first), caps.name(second)) {
        (Some(a), Some(b)) => Some((a.as_str().to_string(), b.as_str().to_string())),
        _ => None,
    }
}

/// The pattern of an answer of the analyser, with the groups `tox` and
/// `dos`.
pub open spec fn answer_pattern() -> Seq<char> {
    r"d{2}.d{2}.d{4};d{2}.d{2}.d{2};(?P<tox>\d{6}.\d{2});(?P<dos>\d{6}.\d{2});\s"@
}

/// The toxicity and dosing fields of an answer of the analyser, as text,
/// where the answer has its form.
pub fn nitritox_fields(answer: &str) -> (r: Option<(String, String)>)
    ensures
        pair_view(r) == regex_pair(answer_pattern(), answer@, "tox"@, "dos"@),
{
    captures_pair(
        r"d{2}.d{2}.d{4};d{2}.d{2}.d{2};(?P<tox>\d{6}.\d{2});(?P<dos>\d{6}.\d{2});\s",
        answer,
        "tox",
        "dos",
    )
}

} // verus!
