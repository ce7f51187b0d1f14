//! The channels of the station. Each channel is a directory of small text
//! files (its value, unit, status, scale and range) and a signal file in
//! which every measurement is a line `milliseconds,value`. The channel
//! registry numbers its channels and keeps the measuring intervals and a
//! daily history table.
//!
//! Here stand the rules of those files: what is written, and what a read of
//! them means, including where a file is missing or holds something else.

use vstd::prelude::*;
use crate::clock::{stamp, utc_text};
use crate::text::{
    decimal_digits, format_u64, is_digit, lemma_decimal_digits_are_digits, lemma_parse_format_u16,
    lemma_parse_format_u64, lemma_split_append, lemma_split_no_separator, lemma_split_nonempty,
    lemma_split_terminated, opt_view, or_fallback, parse_u64, parsed_u64, push_char, read_u16_or,
    read_u64_or, split_any, split_on, stored_or, stored_u16_or, stored_u64_or, trim, trimmed, views,
};

verus! {

// ---------------------------------------------------------------------------
// Channel information
// ---------------------------------------------------------------------------

/// Short information on a channel.
#[derive(Debug, Clone)]
pub struct ChanInfo {
    pub id: String,
    pub label: String,
    pub unit: String,
    pub value: String,
}

/// The view of a channel's information: id, label, unit and value.
pub type InfoView = (Seq<char>, Seq<char>, Seq<char>, Seq<char>);

impl View for ChanInfo {
    type V = InfoView;

    open spec fn view(&self) -> InfoView {
        (self.id@, self.label@, self.unit@, self.value@)
    }
}

/// The views of a sequence of channel information.
pub open spec fn info_views(v: Seq<ChanInfo>) -> Seq<InfoView> {
    v.map_values(|c: ChanInfo| c@)
}

impl ChanInfo {
    /// Information on a channel known by label and value only: its id is
    /// `none` and its unit `--`.
    pub fn new(label: &str, value: &str) -> (r: ChanInfo)
        ensures
            r.id@ == "none"@,
            r.label@ == label@,
            r.unit@ == "--"@,
            r.value@ == value@,
    {
        ChanInfo {
            id: String::from_str("none"),
            label: String::from_str(label),
            unit: String::from_str("--"),
            value: String::from_str(value),
        }
    }
}

/// The status of a channel: what its file `status` holds, `E` where it
/// cannot be read.
pub fn status(stored: Option<String>) -> (r: String)
    ensures
        r@ == stored_or(stored, "E"@),
{
    or_fallback(stored, "E")
}

/// The unit of a channel: what its file `unit` holds, `--` where it cannot be
/// read.
pub fn unit(stored: Option<String>) -> (r: String)
    ensures
        r@ == stored_or(stored, "--"@),
{
    or_fallback(stored, "--")
}

/// The value of a channel: what its file `value` holds, `none` where it
/// cannot be read.
pub fn value(stored: Option<String>) -> (r: String)
    ensures
        r@ == stored_or(stored, "none"@),
{
    or_fallback(stored, "none")
}

/// What the station writes as a status (or unit, or label) is the trimmed
/// text; reading it back gives that text, and writing what was read again
/// stores the same.
pub proof fn lemma_status_read_back(s: Seq<char>, stored: String)
    requires
        stored@ == trimmed(s),
    ensures
        stored_or(Some(stored), "E"@) == trimmed(s),
        trimmed(stored_or(Some(stored), "E"@)) == trimmed(s),
{
    crate::text::lemma_trim_idempotent(s);
}

/// The markdown line of a channel.
pub open spec fn markdown_line(
    label: Seq<char>,
    value: Seq<char>,
    unit: Seq<char>,
    status: Seq<char>,
) -> Seq<char> {
    "*"@ + label + ":* `"@ + value + "` ["@ + unit + "]   *"@ + status + "*\n"@
}

/// The markdown line of a channel: `*label:* `value` [unit]   *status*`.
pub fn markdown(label: &str, value: &str, unit: &str, status: &str) -> (r: String)
    ensures
        r@ == markdown_line(label@, value@, unit@, status@),
{
    String::from_str("*").concat(label).concat(":* `").concat(value).concat("` [").concat(
        unit,
    ).concat("]   *").concat(status).concat("*\n")
}

/// The files a new channel directory starts with, in the order they are
/// written: no value, unit `--`, slope 1.0, intercept 0.0, the upper end of
/// the range first 0.0 and then 500.0, and status `I`.
pub open spec fn initial_files() -> Seq<(Seq<char>, Seq<char>)> {
    seq![
        ("value"@, "none"@),
        ("unit"@, "--"@),
        ("slope"@, "1.0"@),
        ("intercept"@, "0.0"@),
        ("max"@, "0.0"@),
        ("max"@, "500.0"@),
        ("status"@, "I"@),
    ]
}

/// The files a new channel directory starts with: their names and contents,
/// in the order they are written.
pub fn initial_channel_files() -> (r: Vec<(String, String)>)
    ensures
        r@.map_values(|f: (String, String)| (f.0@, f.1@)) == initial_files(),
{
    let mut r: Vec<(String, String)> = Vec::new();
    r.push((String::from_str("value"), String::from_str("none")));
    r.push((String::from_str("unit"), String::from_str("--")));
    r.push((String::from_str("slope"), String::from_str("1.0")));
    r.push((String::from_str("intercept"), String::from_str("0.0")));
    r.push((String::from_str("max"), String::from_str("0.0")));
    r.push((String::from_str("max"), String::from_str("500.0")));
    r.push((String::from_str("status"), String::from_str("I")));
    assert(r@.map_values(|f: (String, String)| (f.0@, f.1@)) =~= initial_files());
    r
}

/// What averaging `samples` measurements stores in a channel: its status,
/// and, where there were no measurements, its value. With no measurements the
/// status is `E` and the value `none`; otherwise the status is `M` and the
/// value is the mean of the measurements, which the caller computes and
/// stores (`None` here).
pub fn calculation_outcome(samples: usize) -> (r: (String, Option<String>))
    ensures
        samples == 0 ==> r.0@ == "E"@ && (r.1 matches Some(v) && v@ == "none"@),
        samples > 0 ==> r.0@ == "M"@ && r.1 is None,
{
    if samples == 0 {
        (String::from_str("E"), Some(String::from_str("none")))
    } else {
        (String::from_str("M"), None)
    }
}

// ---------------------------------------------------------------------------
// The signal file
// ---------------------------------------------------------------------------

/// One line of a signal file: the time of the measurement, in milliseconds
/// since the file was started, and the value as written.
#[derive(Debug)]
pub struct SignalRecord {
    pub time: u64,
    pub value: String,
}

/// The views of signal records.
pub open spec fn record_views(v: Seq<SignalRecord>) -> Seq<(u64, Seq<char>)> {
    v.map_values(|r: SignalRecord| (r.time, r.value@))
}

/// The time field of a signal line: its number, or 0 where it is none.
pub open spec fn field_time(f: Seq<char>) -> u64 {
    match parsed_u64(f) {
        Some(t) => t,
        None => 0,
    }
}

/// What a line of a signal file holds: a record where it has at least two
/// comma separated fields, nothing otherwise.
pub open spec fn line_record(line: Seq<char>) -> Option<(u64, Seq<char>)> {
    let f = split_on(line, seq![',']);
    if f.len() > 1 {
        Some((field_time(f[0]), f[1]))
    } else {
        None
    }
}

/// The records of a sequence of lines.
pub open spec fn records_of(lines: Seq<Seq<char>>) -> Seq<(u64, Seq<char>)>
    decreases lines.len(),
{
    if lines.len() == 0 {
        Seq::empty()
    } else {
        let r = records_of(lines.drop_last());
        match line_record(lines.last()) {
            Some(x) => r.push(x),
            None => r,
        }
    }
}

/// The records of a signal file.
pub open spec fn signal_of(text: Seq<char>) -> Seq<(u64, Seq<char>)> {
    records_of(split_on(text, seq!['\n']))
}

/// The records of a signal file `text`: for each line with at least two
/// comma separated fields, the first as time (0 where it is not a number) and
/// the second as value text.
pub fn signal_records(text: &str) -> (r: Vec<SignalRecord>)
    ensures
        record_views(r@) == signal_of(text@),
{
    let nl: [char; 1] = ['\n'];
    let comma: [char; 1] = [','];
    assert(nl@ =~= seq!['\n']);
    assert(comma@ =~= seq![',']);
    let lines = split_any(text, &nl);
    let ghost lv = views(lines@);
    let mut out: Vec<SignalRecord> = Vec::new();
    let mut i: usize = 0;
    assert(lv.take(0) =~= Seq::<Seq<char>>::empty());
    while i < lines.len()
        invariant
            i <= lines@.len(),
            lv == views(lines@),
            comma@ == seq![','],
            record_views(out@) == records_of(lv.take(i as int)),
        decreases lines@.len() - i,
    {
        let fields = split_any(lines[i].as_str(), &comma);
        let ghost line = lv[i as int];
        assert(lines@[i as int]@ == line);
        assert(lv.take(i + 1).drop_last() =~= lv.take(i as int));
        assert(lv.take(i + 1).last() == line);
        let ghost fv = views(fields@);
        if fields.len() > 1 {
            let time = match parse_u64(fields[0].as_str()) {
                Some(t) => t,
                None => 0,
            };
            assert(fields@[0]@ == fv[0]);
            assert(fields@[1]@ == fv[1]);
            let rec = SignalRecord { time, value: fields[1].clone() };
            let ghost before = out@;
            out.push(rec);
            assert(record_views(out@) =~= record_views(before).push((rec.time, rec.value@)));
        }
        i = i + 1;
    }
    assert(lv.take(lines@.len() as int) =~= lv);
    out
}

/// The line that a measurement adds to a signal file.
pub open spec fn signal_line(time: u64, value: Seq<char>) -> Seq<char> {
    decimal_digits(time as nat) + seq![','] + value + seq!['\n']
}

/// The line that a measurement taken `time` milliseconds after the start of
/// the signal file adds to it: `time,value` and a line break.
pub fn signal_line_text(time: u64, value: &str) -> (r: String)
    ensures
        r@ == signal_line(time, value@),
{
    let mut r = format_u64(time);
    push_char(&mut r, ',');
    r.append(value);
    push_char(&mut r, '\n');
    r
}

proof fn lemma_records_push(lines: Seq<Seq<char>>, line: Seq<char>)
    ensures
        records_of(lines.push(line)) == match line_record(line) {
            Some(x) => records_of(lines).push(x),
            None => records_of(lines),
        },
{
    assert(lines.push(line).drop_last() =~= lines);
}

proof fn lemma_empty_line_no_record()
    ensures
        line_record(Seq::<char>::empty()) is None,
{
}

proof fn lemma_signal_line_record(time: u64, value: Seq<char>)
    requires
        !value.contains(','),
    ensures
        line_record(decimal_digits(time as nat) + seq![','] + value) == Some((time, value)),
{
    let d = decimal_digits(time as nat);
    let seps = seq![','];
    lemma_parse_format_u64(time);
    lemma_decimal_digits_are_digits(time as nat);
    assert forall|i: int| 0 <= i < d.len() implies !seps.contains(#[trigger] d[i]) by {
        assert(is_digit(d[i]));
        if seps.contains(d[i]) {
            assert(seps[0] == ',');
        }
    }
    assert(seps[0] == ',');
    lemma_split_terminated(d, ',', seps);
    assert forall|i: int| 0 <= i < value.len() implies !seps.contains(#[trigger] value[i]) by {
        if seps.contains(value[i]) {
            assert(value.contains(','));
        }
    }
    lemma_split_no_separator(value, seps);
    let a = d.push(',');
    assert(a =~= d + seq![',']);
    assert(a.last() == ',');
    lemma_split_append(a, value, seps);
    assert(split_on(a, seps).drop_last() =~= seq![d]);
    assert(split_on(a + value, seps) =~= seq![d, value]);
}

/// What a measurement appends to a signal file is read back as its last
/// record: the records of the file are those it had, and then the new one.
/// (The signal file is empty or ends with a line break, as every line that
/// the station appends does; the value text holds no comma and no line
/// break.)
pub proof fn lemma_signal_append(text: Seq<char>, time: u64, value: Seq<char>)
    requires
        text.len() == 0 || text.last() == '\n',
        !value.contains(','),
        !value.contains('\n'),
    ensures
        signal_of(text + signal_line(time, value)) == signal_of(text).push((time, value)),
{
    let nl = seq!['\n'];
    let d = decimal_digits(time as nat);
    let body = d + seq![','] + value;
    lemma_decimal_digits_are_digits(time as nat);
    assert forall|i: int| 0 <= i < body.len() implies !nl.contains(#[trigger] body[i]) by {
        if nl.contains(body[i]) {
            assert(nl[0] == '\n');
            if i < d.len() {
                assert(body[i] == d[i]);
                assert(is_digit(d[i]));
            } else if i == d.len() {
                assert(body[i] == ',');
            } else {
                assert(body[i] == value[i - d.len() - 1]);
                assert(value.contains('\n'));
            }
        }
    }
    assert(nl[0] == '\n');
    lemma_split_terminated(body, '\n', nl);
    assert(signal_line(time, value) =~= body.push('\n'));
    lemma_signal_line_record(time, value);
    lemma_empty_line_no_record();
    let tail = seq![body, Seq::<char>::empty()];
    assert(tail =~= seq![body].push(Seq::<char>::empty()));
    if text.len() == 0 {
        assert(text + signal_line(time, value) =~= body.push('\n'));
        assert(split_on(text, nl) =~= seq![Seq::<char>::empty()]);
        assert(seq![Seq::<char>::empty()] =~= Seq::<Seq<char>>::empty().push(Seq::<char>::empty()));
        lemma_records_push(Seq::<Seq<char>>::empty(), Seq::<char>::empty());
        assert(seq![body] =~= Seq::<Seq<char>>::empty().push(body));
        lemma_records_push(Seq::<Seq<char>>::empty(), body);
        lemma_records_push(seq![body], Seq::<char>::empty());
    } else {
        lemma_split_append(text, body.push('\n'), nl);
        let p = split_on(text, nl).drop_last();
        lemma_split_nonempty(text.drop_last(), nl);
        assert(split_on(text, nl) == split_on(text.drop_last(), nl).push(Seq::<char>::empty()));
        assert(split_on(text, nl) =~= p.push(Seq::<char>::empty()));
        lemma_records_push(p, Seq::<char>::empty());
        assert(p + tail =~= p.push(body).push(Seq::<char>::empty()));
        lemma_records_push(p.push(body), Seq::<char>::empty());
        lemma_records_push(p, body);
    }
}

// ---------------------------------------------------------------------------
// The registry
// ---------------------------------------------------------------------------

/// The measurement interval of the registry, in milliseconds: what its file
/// `measurement_interval` writes, 1000 where it cannot be read or is no
/// number.
pub fn measurement_interval_millis(stored: &Option<String>) -> (r: u64)
    ensures
        r == read_u64_or(opt_view(*stored), 1000),
{
    stored_u64_or(stored, 1000)
}

/// The averaging interval of the registry, in seconds: what its file
/// `average_interval` writes; by default 60 seconds, where it cannot be read
/// or is no number.
pub fn average_interval_secs(stored: &Option<String>) -> (r: u64)
    ensures
        r == read_u64_or(opt_view(*stored), 60),
{
    stored_u64_or(stored, 60)
}

/// The count of outliers of the registry: what its file `outliers` writes,
/// 0 where it cannot be read or is no number.
pub fn outliers(stored: &Option<String>) -> (r: u16)
    ensures
        r == read_u16_or(opt_view(*stored), 0),
{
    stored_u16_or(stored, 0)
}

/// The number of the last channel added: what the file `last` writes, 0
/// where it cannot be read or is no number.
pub fn lastid(stored: &Option<String>) -> (r: u64)
    ensures
        r == read_u64_or(opt_view(*stored), 0),
{
    stored_u64_or(stored, 0)
}

/// The number of the next channel, the one after `last`.
pub fn nextid(last: u64) -> (r: u64)
    requires
        last < u64::MAX,
    ensures
        r == last + 1,
{
    last + 1
}

/// The settings a new registry starts with, as stored: a measurement
/// interval of 1000 milliseconds and an averaging interval of 600 seconds.
pub fn initial_settings() -> (r: (String, String))
    ensures
        r.0@ == decimal_digits(1000),
        r.1@ == decimal_digits(600),
{
    (format_u64(1000), format_u64(600))
}

/// A number as the registry stores it in its files.
pub fn number_text(n: u64) -> (r: String)
    ensures
        r@ == decimal_digits(n as nat),
{
    format_u64(n)
}

/// A setting that the registry stores is read back unchanged: the
/// measurement interval, the averaging interval and the number of the last
/// channel, whatever their defaults.
pub proof fn lemma_setting_roundtrip(n: u64, fallback: u64)
    ensures
        read_u64_or(Some(decimal_digits(n as nat)), fallback) == n,
{
    lemma_parse_format_u64(n);
}

/// The count of outliers that the registry stores is read back unchanged.
pub proof fn lemma_outliers_roundtrip(n: u16)
    ensures
        read_u16_or(Some(decimal_digits(n as nat)), 0) == n,
{
    lemma_parse_format_u16(n);
}

/// Taking the next number and storing it makes it the last one: the numbers
/// that the registry hands out count up by one.
pub proof fn lemma_nextid_then_lastid(stored: Option<Seq<char>>)
    requires
        read_u64_or(stored, 0) < u64::MAX,
    ensures
        read_u64_or(Some(decimal_digits((read_u64_or(stored, 0) + 1) as nat)), 0) == read_u64_or(
            stored,
            0,
        ) + 1,
{
    lemma_parse_format_u64((read_u64_or(stored, 0) + 1) as u64);
}

/// The statuses of the channels, each trimmed, one after the other.
pub open spec fn status_line(statuses: Seq<Seq<char>>) -> Seq<char>
    decreases statuses.len(),
{
    if statuses.len() == 0 {
        Seq::empty()
    } else {
        status_line(statuses.drop_last()) + trimmed(statuses.last())
    }
}

/// The registry status has one entry per channel: adding a channel adds its
/// trimmed status at the end, whatever the statuses before it are.
pub proof fn lemma_status_line_push(statuses: Seq<Seq<char>>, s: Seq<char>)
    ensures
        status_line(statuses.push(s)) == status_line(statuses) + trimmed(s),
{
    assert(statuses.push(s).drop_last() =~= statuses);
}

/// The registry status of two groups of channels is the status of the first
/// group followed by that of the second; each status counts, so one-letter
/// statuses give one letter per channel.
pub proof fn lemma_status_line_concat(a: Seq<Seq<char>>, b: Seq<Seq<char>>)
    ensures
        status_line(a + b) == status_line(a) + status_line(b),
    decreases b.len(),
{
    if b.len() == 0 {
        assert(a + b =~= a);
        assert(status_line(a) + status_line(b) =~= status_line(a));
    } else {
        lemma_status_line_concat(a, b.drop_last());
        assert((a + b).drop_last() =~= a + b.drop_last());
        assert((a + b).last() == b.last());
        assert(status_line(a) + status_line(b) =~= status_line(a) + status_line(b.drop_last())
            + trimmed(b.last()));
    }
}

/// Statuses that are single letters give a summary with one letter per
/// channel, the status of channel `i` at place `i`.
pub proof fn lemma_status_line_letters(statuses: Seq<Seq<char>>)
    requires
        forall|i: int| 0 <= i < statuses.len() ==> #[trigger] trimmed(statuses[i]).len() == 1,
    ensures
        status_line(statuses).len() == statuses.len(),
        forall|i: int| 0 <= i < statuses.len() ==> #[trigger] status_line(statuses)[i] == trimmed(statuses[i])[0],
    decreases statuses.len(),
{
    if statuses.len() > 0 {
        let f = statuses.drop_last();
        assert forall|i: int| 0 <= i < f.len() implies #[trigger] trimmed(f[i]).len() == 1 by {
            assert(f[i] == statuses[i]);
        }
        lemma_status_line_letters(f);
        assert(trimmed(statuses[statuses.len() - 1]).len() == 1);
        assert forall|i: int| 0 <= i < statuses.len() implies #[trigger] status_line(statuses)[i]
            == trimmed(statuses[i])[0] by {
            if i < f.len() {
                assert(f[i] == statuses[i]);
                assert(status_line(f)[i] == trimmed(f[i])[0]);
            }
        }
    }
}

/// The status of the registry after a calculation: the statuses of its
/// channels, each trimmed, one after the other.
pub fn status_summary(statuses: &Vec<String>) -> (r: String)
    ensures
        r@ == status_line(views(statuses@)),
{
    let ghost sv = views(statuses@);
    let mut r = String::new();
    let mut i: usize = 0;
    assert(sv.take(0) =~= Seq::<Seq<char>>::empty());
    while i < statuses.len()
        invariant
            i <= statuses@.len(),
            sv == views(statuses@),
            r@ == status_line(sv.take(i as int)),
        decreases statuses@.len() - i,
    {
        let t = trim(statuses[i].as_str());
        assert(sv.take(i + 1).drop_last() =~= sv.take(i as int));
        assert(sv.take(i + 1).last() == statuses@[i as int]@);
        r.append(t.as_str());
        i = i + 1;
    }
    assert(sv.take(statuses@.len() as int) =~= sv);
    r
}

/// The items of a table row, each after a comma.
pub open spec fn csv_tail(items: Seq<Seq<char>>) -> Seq<char>
    decreases items.len(),
{
    if items.len() == 0 {
        Seq::empty()
    } else {
        csv_tail(items.drop_last()) + seq![','] + items.last()
    }
}

fn append_csv_tail(r: &mut String, items: &Vec<String>)
    ensures
        final(r)@ == old(r)@ + csv_tail(views(items@)),
{
    let ghost iv = views(items@);
    let ghost start = r@;
    let mut i: usize = 0;
    assert(iv.take(0) =~= Seq::<Seq<char>>::empty());
    assert(start + csv_tail(iv.take(0)) =~= start);
    while i < items.len()
        invariant
            i <= items@.len(),
            iv == views(items@),
            r@ == start + csv_tail(iv.take(i as int)),
        decreases items@.len() - i,
    {
        assert(iv.take(i + 1).drop_last() =~= iv.take(i as int));
        assert(iv.take(i + 1).last() == items@[i as int]@);
        push_char(r, ',');
        r.append(items[i].as_str());
        assert(r@ =~= start + csv_tail(iv.take(i + 1)));
        i = i + 1;
    }
    assert(iv.take(items@.len() as int) =~= iv);
}

/// A text without commas followed by the items of a row, each after a
/// comma, is read back as that text and then the items, where no item holds
/// a comma.
pub proof fn lemma_csv_tail_read_back(first: Seq<char>, items: Seq<Seq<char>>)
    requires
        !first.contains(','),
        forall|i: int| 0 <= i < items.len() ==> !(#[trigger] items[i]).contains(','),
    ensures
        split_on(first + csv_tail(items), seq![',']) == seq![first] + items,
    decreases items.len(),
{
    let seps = seq![','];
    assert(seps[0] == ',');
    if items.len() == 0 {
        assert(first + csv_tail(items) =~= first);
        assert forall|i: int| 0 <= i < first.len() implies !seps.contains(#[trigger] first[i]) by {
            if seps.contains(first[i]) {
                assert(first.contains(','));
            }
        }
        lemma_split_no_separator(first, seps);
        assert(seq![first] + items =~= seq![first]);
    } else {
        let init = items.drop_last();
        let last = items.last();
        assert forall|i: int| 0 <= i < init.len() implies !(#[trigger] init[i]).contains(',') by {
            assert(init[i] == items[i]);
        }
        lemma_csv_tail_read_back(first, init);
        let b = first + csv_tail(init);
        let a = b.push(',');
        assert(a.drop_last() =~= b);
        assert(split_on(a, seps) == split_on(b, seps).push(Seq::<char>::empty()));
        assert(split_on(a, seps).drop_last() =~= split_on(b, seps));
        assert(!items[items.len() - 1].contains(','));
        assert forall|i: int| 0 <= i < last.len() implies !seps.contains(#[trigger] last[i]) by {
            if seps.contains(last[i]) {
                assert(last.contains(','));
            }
        }
        lemma_split_no_separator(last, seps);
        lemma_split_append(a, last, seps);
        assert(first + csv_tail(items) =~= a + last);
        assert(seq![first] + items =~= (seq![first] + init) + seq![last]);
    }
}

/// The head line of the history table.
pub open spec fn history_head(labels: Seq<Seq<char>>) -> Seq<char> {
    "timestap"@ + csv_tail(labels) + seq!['\n']
}

/// A row of the history table.
pub open spec fn history_row(stamp: Seq<char>, values: Seq<Seq<char>>) -> Seq<char> {
    stamp + csv_tail(values) + seq!['\n']
}

/// The history table has one column per channel after the time stamp: a
/// row ends with a line break, and the rest of it, read as comma separated
/// fields, is the time stamp and then the values of the channels in order;
/// the head line is `timestap` and then the labels. (Neither stamp, labels
/// nor values hold a comma.)
pub proof fn lemma_history_columns(stamp: Seq<char>, labels: Seq<Seq<char>>, values: Seq<Seq<char>>)
    requires
        !stamp.contains(','),
        forall|i: int| 0 <= i < labels.len() ==> !(#[trigger] labels[i]).contains(','),
        forall|i: int| 0 <= i < values.len() ==> !(#[trigger] values[i]).contains(','),
    ensures
        history_row(stamp, values).last() == '\n',
        split_on(history_row(stamp, values).drop_last(), seq![',']) == seq![stamp] + values,
        history_head(labels).last() == '\n',
        split_on(history_head(labels).drop_last(), seq![',']) == seq!["timestap"@] + labels,
{
    reveal_strlit("timestap");
    lemma_csv_tail_read_back(stamp, values);
    assert(history_row(stamp, values).drop_last() =~= stamp + csv_tail(values));
    assert(!"timestap"@.contains(',')) by {
        if "timestap"@.contains(',') {
            let k = choose|k: int| 0 <= k < "timestap"@.len() && "timestap"@[k] == ',';
        }
    }
    lemma_csv_tail_read_back("timestap"@, labels);
    assert(history_head(labels).drop_last() =~= "timestap"@ + csv_tail(labels));
}

/// The head line of the history table: `timestap`, then the labels of the
/// channels.
pub fn history_header(labels: &Vec<String>) -> (r: String)
    ensures
        r@ == history_head(views(labels@)),
{
    let mut r = String::from_str("timestap");
    append_csv_tail(&mut r, labels);
    push_char(&mut r, '\n');
    r
}

/// A row of the history table: the time stamp, then the values of the
/// channels.
pub fn history_line(stamp: &str, values: &Vec<String>) -> (r: String)
    ensures
        r@ == history_row(stamp@, views(values@)),
{
    let mut r = String::from_str(stamp);
    append_csv_tail(&mut r, values);
    push_char(&mut r, '\n');
    r
}

/// The history table after a new row, taken at the UTC time `secs` seconds
/// and `nanos` nanoseconds after the epoch: where there was no table yet, it
/// starts with the head line; then comes the row, the time's text and the
/// values. `None` where the calendar does not reach that time.
pub fn history_content(
    existing: Option<String>,
    labels: &Vec<String>,
    secs: i64,
    nanos: u32,
    values: &Vec<String>,
) -> (r: Option<String>)
    ensures
        match utc_text(secs, nanos) {
            Some(stamp) => r matches Some(t) && t@ == (match existing {
                Some(t) => t@,
                None => history_head(views(labels@)),
            }) + history_row(stamp, views(values@)),
            None => r is None,
        },
{
    let stamp = match stamp(secs, nanos) {
        Some(s) => s,
        None => return None,
    };
    let mut r = match existing {
        Some(t) => t,
        None => history_header(labels),
    };
    let row = history_line(stamp.as_str(), values);
    r.append(row.as_str());
    Some(r)
}

/// The history of one channel after a new entry, taken at the UTC time
/// `secs` seconds and `nanos` nanoseconds after the epoch: what could be read
/// of it, then the time's text, a comma and the value. `None` where the
/// calendar does not reach that time.
pub fn channel_history_content(existing: Option<String>, secs: i64, nanos: u32, value: &str) -> (r:
    Option<String>)
    ensures
        match utc_text(secs, nanos) {
            Some(stamp) => r matches Some(t) && t@ == stored_or(existing, Seq::empty()) + stamp
                + seq![','] + value@ + seq!['\n'],
            None => r is None,
        },
{
    let stamp = match stamp(secs, nanos) {
        Some(s) => s,
        None => return None,
    };
    proof {
        reveal_strlit("");
    }
    let mut r = or_fallback(existing, "");
    r.append(stamp.as_str());
    push_char(&mut r, ',');
    r.append(value);
    push_char(&mut r, '\n');
    Some(r)
}

} // verus!
