//! Text primitives shared by the station's file formats: whitespace trimming,
//! decimal numbers, and splitting at separator characters.

use vstd::prelude::*;

verus! {

// ---------------------------------------------------------------------------
// Characters
// ---------------------------------------------------------------------------

/// Appends one character to a string.
///
/// Trusted: `String::push`, which the standard library documents as appending
/// the given `char` to the end of the string.
#[verifier::external_body]
pub(crate) fn push_char(s: &mut String, c: char)
    ensures
        final(s)@ == old(s)@.push(c),
{
    s.push(c);
}

/// The characters of a string slice, in order.
pub fn chars_of(s: &str) -> (v: Vec<char>)
    ensures
        v@ == s@,
{
    let mut v: Vec<char> = Vec::new();
    for c in it: s.chars()
        invariant
            v@ == it.seq().take(it.index() as int),
    {
        v.push(c);
    }
    v
}

/// Unicode `White_Space`, the set that `char::is_whitespace` tests.
pub open spec fn is_ws(c: char) -> bool {
    let u = c as u32;
    ||| u == 0x20
    ||| (0x09 <= u && u <= 0x0d)
    ||| u == 0x85
    ||| u == 0xa0
    ||| u == 0x1680
    ||| (0x2000 <= u && u <= 0x200a)
    ||| u == 0x2028
    ||| u == 0x2029
    ||| u == 0x202f
    ||| u == 0x205f
    ||| u == 0x3000
}

/// Whether `c` is white space in the sense of `char::is_whitespace`.
pub fn is_whitespace(c: char) -> (b: bool)
    ensures
        b == is_ws(c),
{
    let u = c as u32;
    u == 0x20 || (0x09 <= u && u <= 0x0d) || u == 0x85 || u == 0xa0 || u == 0x1680 || (0x2000
        <= u && u <= 0x200a) || u == 0x2028 || u == 0x2029 || u == 0x202f || u == 0x205f || u
        == 0x3000
}

// ---------------------------------------------------------------------------
// Trimming
// ---------------------------------------------------------------------------

/// `s` without its leading white space.
pub open spec fn trim_start(s: Seq<char>) -> Seq<char>
    decreases s.len(),
{
    if s.len() > 0 && is_ws(s[0]) {
        trim_start(s.drop_first())
    } else {
        s
    }
}

/// `s` without its trailing white space.
pub open spec fn trim_end(s: Seq<char>) -> Seq<char>
    decreases s.len(),
{
    if s.len() > 0 && is_ws(s.last()) {
        trim_end(s.drop_last())
    } else {
        s
    }
}

/// `s` without leading and trailing white space, as `str::trim` gives it.
pub open spec fn trimmed(s: Seq<char>) -> Seq<char> {
    trim_end(trim_start(s))
}

proof fn lemma_trim_start_skip(s: Seq<char>, i: int)
    requires
        0 <= i <= s.len(),
        forall|k: int| 0 <= k < i ==> is_ws(#[trigger] s[k]),
    ensures
        trim_start(s) == trim_start(s.subrange(i, s.len() as int)),
    decreases i,
{
    if i == 0 {
        assert(s.subrange(0, s.len() as int) =~= s);
    } else {
        lemma_trim_start_skip(s, i - 1);
        let t = s.subrange(i - 1, s.len() as int);
        assert(t[0] == s[i - 1]);
        assert(t.drop_first() =~= s.subrange(i, s.len() as int));
    }
}

proof fn lemma_trim_end_skip(s: Seq<char>, j: int)
    requires
        0 <= j <= s.len(),
        forall|k: int| j <= k < s.len() ==> is_ws(#[trigger] s[k]),
    ensures
        trim_end(s) == trim_end(s.subrange(0, j)),
    decreases s.len() - j,
{
    if j == s.len() {
        assert(s.subrange(0, j) =~= s);
    } else {
        lemma_trim_end_skip(s, j + 1);
        let t = s.subrange(0, j + 1);
        assert(t.last() == s[j]);
        assert(t.drop_last() =~= s.subrange(0, j));
    }
}

/// `s` with leading and trailing white space removed, as `str::trim` does it.
pub fn trim(s: &str) -> (r: String)
    ensures
        r@ == trimmed(s@),
{
    let v = chars_of(s);
    let n = v.len();
    let mut a: usize = 0;
    while a < n && is_whitespace(v[a])
        invariant
            a <= n,
            n == v@.len(),
            forall|k: int| 0 <= k < a ==> is_ws(#[trigger] v@[k]),
        decreases n - a,
    {
        a = a + 1;
    }
    let mut b: usize = n;
    while b > a && is_whitespace(v[b - 1])
        invariant
            a <= b <= n,
            n == v@.len(),
            forall|k: int| b <= k < n ==> is_ws(#[trigger] v@[k]),
        decreases b - a,
    {
        b = b - 1;
    }
    proof {
        let sv = s@;
        lemma_trim_start_skip(sv, a as int);
        let u = sv.subrange(a as int, n as int);
        assert(trim_start(u) == u);
        assert forall|k: int| (b - a) <= k < u.len() implies is_ws(#[trigger] u[k]) by {
            assert(u[k] == v@[k + a]);
        }
        lemma_trim_end_skip(u, (b - a) as int);
        let w = u.subrange(0, (b - a) as int);
        assert(w =~= sv.subrange(a as int, b as int));
        if w.len() > 0 {
            assert(w.last() == v@[b - 1]);
        }
        assert(trim_end(w) == w);
    }
    let r = s.substring_char(a, b);
    String::from_str(r)
}


proof fn lemma_trim_start_shape(s: Seq<char>)
    ensures
        trim_start(s).len() == 0 || !is_ws(trim_start(s)[0]),
        exists|i: int| 0 <= i <= s.len() && #[trigger] trim_start(s) == s.subrange(i, s.len() as int),
    decreases s.len(),
{
    if s.len() > 0 && is_ws(s[0]) {
        lemma_trim_start_shape(s.drop_first());
        let i = choose|i: int| 0 <= i <= s.drop_first().len() && #[trigger] trim_start(s.drop_first()) == s.drop_first().subrange(i, s.drop_first().len() as int);
        assert(s.drop_first().subrange(i, s.drop_first().len() as int) =~= s.subrange(i + 1, s.len() as int));
    } else {
        assert(s.subrange(0, s.len() as int) =~= s);
    }
}

proof fn lemma_trim_end_shape(s: Seq<char>)
    ensures
        trim_end(s).len() == 0 || !is_ws(trim_end(s).last()),
        exists|j: int| 0 <= j <= s.len() && #[trigger] trim_end(s) == s.subrange(0, j),
    decreases s.len(),
{
    if s.len() > 0 && is_ws(s.last()) {
        lemma_trim_end_shape(s.drop_last());
        let j = choose|j: int| 0 <= j <= s.drop_last().len() && #[trigger] trim_end(s.drop_last()) == s.drop_last().subrange(0, j);
        assert(s.drop_last().subrange(0, j) =~= s.subrange(0, j));
    } else {
        assert(s.subrange(0, s.len() as int) =~= s);
    }
}

proof fn lemma_trim_start_index(s: Seq<char>) -> (i: int)
    ensures
        0 <= i <= s.len(),
        trim_start(s) == s.subrange(i, s.len() as int),
        forall|k: int| 0 <= k < i ==> is_ws(#[trigger] s[k]),
        i < s.len() ==> !is_ws(s[i]),
    decreases s.len(),
{
    if s.len() > 0 && is_ws(s[0]) {
        let t = s.drop_first();
        let j = lemma_trim_start_index(t);
        assert(t.subrange(j, t.len() as int) =~= s.subrange(j + 1, s.len() as int));
        assert forall|k: int| 0 <= k < j + 1 implies is_ws(#[trigger] s[k]) by {
            if k > 0 {
                assert(s[k] == t[k - 1]);
            }
        }
        if j < t.len() {
            assert(s[j + 1] == t[j]);
        }
        j + 1
    } else {
        assert(s.subrange(0, s.len() as int) =~= s);
        0
    }
}

proof fn lemma_trim_end_index(s: Seq<char>) -> (j: int)
    ensures
        0 <= j <= s.len(),
        trim_end(s) == s.subrange(0, j),
        forall|k: int| j <= k < s.len() ==> is_ws(#[trigger] s[k]),
        j > 0 ==> !is_ws(s[j - 1]),
    decreases s.len(),
{
    if s.len() > 0 && is_ws(s.last()) {
        let t = s.drop_last();
        let j = lemma_trim_end_index(t);
        assert(t.subrange(0, j) =~= s.subrange(0, j));
        assert forall|k: int| j <= k < s.len() implies is_ws(#[trigger] s[k]) by {
            if k < t.len() {
                assert(s[k] == t[k]);
            }
        }
        if j > 0 {
            assert(s[j - 1] == t[j - 1]);
        }
        j
    } else {
        assert(s.subrange(0, s.len() as int) =~= s);
        s.len() as int
    }
}

/// Trimming removes white space only, and all of it at both ends: the
/// trimmed text is the part of `s` from `r.0` to `r.1`, everything before and
/// after that part is white space, and the part neither starts nor ends with
/// white space.
pub proof fn lemma_trimmed_removes_only_white_space(s: Seq<char>) -> (r: (int, int))
    ensures
        0 <= r.0 <= r.1 <= s.len(),
        trimmed(s) == s.subrange(r.0, r.1),
        forall|k: int| 0 <= k < r.0 ==> is_ws(#[trigger] s[k]),
        forall|k: int| r.1 <= k < s.len() ==> is_ws(#[trigger] s[k]),
        r.0 < r.1 ==> !is_ws(s[r.0]) && !is_ws(s[r.1 - 1]),
{
    let i = lemma_trim_start_index(s);
    let u = s.subrange(i, s.len() as int);
    let j = lemma_trim_end_index(u);
    assert(u.subrange(0, j) =~= s.subrange(i, i + j));
    assert forall|k: int| i + j <= k < s.len() implies is_ws(#[trigger] s[k]) by {
        assert(s[k] == u[k - i]);
    }
    if j > 0 {
        assert(s[i] == u[0]);
        assert(s[i + j - 1] == u[j - 1]);
        assert(!is_ws(u[j - 1]));
        if i < s.len() {
            assert(!is_ws(s[i]));
        }
    }
    (i, i + j)
}

/// Trimming is idempotent: trimming an already trimmed text changes nothing.
/// A value the station stores trimmed is read back unchanged and, written
/// again, stays the same.
pub proof fn lemma_trim_idempotent(s: Seq<char>)
    ensures
        trimmed(trimmed(s)) == trimmed(s),
{
    let u = trim_start(s);
    lemma_trim_start_shape(s);
    lemma_trim_end_shape(u);
    let t = trim_end(u);
    let j = choose|j: int| 0 <= j <= u.len() && #[trigger] trim_end(u) == u.subrange(0, j);
    if t.len() > 0 {
        assert(t[0] == u[0]);
        assert(!is_ws(t[0]));
    }
    assert(trim_start(t) == t);
    assert(trim_end(t) == t);
}

// ---------------------------------------------------------------------------
// Decimal numbers
// ---------------------------------------------------------------------------

/// An ASCII decimal digit.
pub open spec fn is_digit(c: char) -> bool {
    48 <= (c as u32) && (c as u32) <= 57
}

/// The value of an ASCII decimal digit.
pub open spec fn digit_value(c: char) -> nat {
    ((c as u32) - 48) as nat
}

/// The digit character of `d`, for `d < 10`.
pub open spec fn digit_char(d: nat) -> char {
    if d == 0 { '0' }
    else if d == 1 { '1' }
    else if d == 2 { '2' }
    else if d == 3 { '3' }
    else if d == 4 { '4' }
    else if d == 5 { '5' }
    else if d == 6 { '6' }
    else if d == 7 { '7' }
    else if d == 8 { '8' }
    else { '9' }
}

/// Every character of `s` is a decimal digit.
pub open spec fn all_digits(s: Seq<char>) -> bool {
    forall|i: int| 0 <= i < s.len() ==> is_digit(#[trigger] s[i])
}

/// The number that the digits `s` write in base ten.
pub open spec fn decimal_value(s: Seq<char>) -> nat
    decreases s.len(),
{
    if s.len() == 0 {
        0
    } else {
        decimal_value(s.drop_last()) * 10 + digit_value(s.last())
    }
}

/// The digits of an unsigned number: one leading `+` is allowed.
pub open spec fn unsigned_digits(s: Seq<char>) -> Seq<char> {
    if s.len() > 0 && s[0] == '+' {
        s.drop_first()
    } else {
        s
    }
}

/// The number that `s` writes, as `str::parse` reads an unsigned integer:
/// an optional `+`, then one or more decimal digits and nothing else.
pub open spec fn parse_decimal(s: Seq<char>) -> Option<nat> {
    let d = unsigned_digits(s);
    if d.len() > 0 && all_digits(d) {
        Some(decimal_value(d))
    } else {
        None
    }
}

/// What `s.parse::<u64>()` succeeds with.
pub open spec fn parsed_u64(s: Seq<char>) -> Option<u64> {
    match parse_decimal(s) {
        Some(v) => if v <= u64::MAX { Some(v as u64) } else { None },
        None => None,
    }
}

/// What `s.parse::<u16>()` succeeds with.
pub open spec fn parsed_u16(s: Seq<char>) -> Option<u16> {
    match parse_decimal(s) {
        Some(v) => if v <= u16::MAX { Some(v as u16) } else { None },
        None => None,
    }
}

proof fn lemma_decimal_value_prefix(s: Seq<char>, i: int)
    requires
        0 <= i <= s.len(),
    ensures
        decimal_value(s) >= decimal_value(s.subrange(0, i)),
    decreases s.len(),
{
    if i < s.len() {
        lemma_decimal_value_prefix(s.drop_last(), i);
        assert(s.drop_last().subrange(0, i) =~= s.subrange(0, i));
    } else {
        assert(s.subrange(0, i) =~= s);
    }
}

/// The unsigned integer that `s` writes, as `s.parse::<u64>().ok()` gives it.
pub fn parse_u64(s: &str) -> (r: Option<u64>)
    ensures
        r == parsed_u64(s@),
{
    let v = chars_of(s);
    let n = v.len();
    let mut start: usize = 0;
    if n > 0 && v[0] == '+' {
        start = 1;
    }
    let ghost d = v@.subrange(start as int, n as int);
    assert(d =~= unsigned_digits(s@));
    if start == n {
        return None;
    }
    let mut i: usize = start;
    while i < n
        invariant
            start <= i <= n,
            n == v@.len(),
            v@ == s@,
            d == v@.subrange(start as int, n as int),
            d == unsigned_digits(s@),
            forall|k: int| start <= k < i ==> is_digit(#[trigger] v@[k]),
        decreases n - i,
    {
        let u = v[i] as u32;
        if !(48 <= u && u <= 57) {
            assert(d[i - start] == v@[i as int]);
            return None;
        }
        i = i + 1;
    }
    assert(all_digits(d)) by {
        assert forall|k: int| 0 <= k < d.len() implies is_digit(#[trigger] d[k]) by {
            assert(d[k] == v@[k + start]);
        }
    }
    let mut acc: u64 = 0;
    let mut i: usize = start;
    while i < n
        invariant
            start <= i <= n,
            n == v@.len(),
            v@ == s@,
            d == v@.subrange(start as int, n as int),
            d == unsigned_digits(s@),
            d.len() > 0,
            all_digits(d),
            acc as nat == decimal_value(v@.subrange(start as int, i as int)),
        decreases n - i,
    {
        let ghost pre = v@.subrange(start as int, i as int + 1);
        assert(pre.drop_last() =~= v@.subrange(start as int, i as int));
        assert(pre =~= d.subrange(0, i - start + 1));
        assert(d[i - start] == v@[i as int]);
        let digit = (v[i] as u32 - 48) as u64;
        match acc.checked_mul(10) {
            None => {
                proof {
                    lemma_decimal_value_prefix(d, i - start + 1);
                }
                return None;
            },
            Some(m) => match m.checked_add(digit) {
                None => {
                    proof {
                        lemma_decimal_value_prefix(d, i - start + 1);
                    }
                    return None;
                },
                Some(a) => {
                    acc = a;
                },
            },
        }
        i = i + 1;
    }
    assert(v@.subrange(start as int, n as int) =~= d);
    Some(acc)
}

/// The unsigned integer that `s` writes, as `s.parse::<u16>().ok()` gives it.
pub fn parse_u16(s: &str) -> (r: Option<u16>)
    ensures
        r == parsed_u16(s@),
{
    match parse_u64(s) {
        Some(v) => if v <= 65535 { Some(v as u16) } else { None },
        None => None,
    }
}

/// The decimal digits of `n`, most significant first, as `format!("{}", n)`
/// writes them.
pub open spec fn decimal_digits(n: nat) -> Seq<char>
    decreases n,
{
    if n < 10 {
        seq![digit_char(n)]
    } else {
        decimal_digits(n / 10).push(digit_char(n % 10))
    }
}

fn digit_to_char(d: u64) -> (c: char)
    requires
        d < 10,
    ensures
        c == digit_char(d as nat),
{
    if d == 0 { '0' }
    else if d == 1 { '1' }
    else if d == 2 { '2' }
    else if d == 3 { '3' }
    else if d == 4 { '4' }
    else if d == 5 { '5' }
    else if d == 6 { '6' }
    else if d == 7 { '7' }
    else if d == 8 { '8' }
    else { '9' }
}

/// `n` in decimal, as `format!("{}", n)` writes it.
pub fn format_u64(n: u64) -> (r: String)
    ensures
        r@ == decimal_digits(n as nat),
    decreases n,
{
    if n < 10 {
        let mut r = String::new();
        push_char(&mut r, digit_to_char(n));
        r
    } else {
        let mut r = format_u64(n / 10);
        push_char(&mut r, digit_to_char(n % 10));
        r
    }
}

proof fn lemma_digit_char(d: nat)
    requires
        d < 10,
    ensures
        is_digit(digit_char(d)),
        digit_value(digit_char(d)) == d,
        digit_char(d) != '+',
{
    assert(('0' as u32) == 48);
    assert(('9' as u32) == 57);
}

pub(crate) proof fn lemma_decimal_digits(n: nat)
    ensures
        decimal_digits(n).len() > 0,
        all_digits(decimal_digits(n)),
        decimal_digits(n)[0] != '+',
        decimal_value(decimal_digits(n)) == n,
    decreases n,
{
    lemma_digit_char(n % 10);
    if n >= 10 {
        lemma_decimal_digits(n / 10);
        let p = decimal_digits(n / 10);
        assert(decimal_digits(n).drop_last() =~= p);
        assert(decimal_digits(n)[0] == p[0]);
        assert(decimal_digits(n).last() == digit_char(n % 10));
        assert(decimal_value(decimal_digits(n)) == (n / 10) * 10 + n % 10);
        assert(n == (n / 10) * 10 + n % 10) by (nonlinear_arith);
    } else {
        lemma_digit_char(n);
        let dd = decimal_digits(n);
        assert(dd == seq![digit_char(n)]);
        assert(dd.drop_last() =~= Seq::<char>::empty());
        assert(decimal_value(dd.drop_last()) == 0);
        assert(dd.last() == digit_char(n));
        assert(decimal_value(dd) == n);
    }
}

/// The decimal digits of a number are digits.
pub proof fn lemma_decimal_digits_are_digits(n: nat)
    ensures
        all_digits(decimal_digits(n)),
        decimal_digits(n).len() > 0,
{
    lemma_decimal_digits(n);
}

/// What `format_u64` writes, `parse_u64` reads back: every number the station
/// stores in a file (an interval, an id, a counter) is read back unchanged.
pub proof fn lemma_parse_format_u64(n: u64)
    ensures
        parsed_u64(decimal_digits(n as nat)) == Some(n),
{
    lemma_decimal_digits(n as nat);
}

/// The same for the 16-bit counters.
pub proof fn lemma_parse_format_u16(n: u16)
    ensures
        parsed_u16(decimal_digits(n as nat)) == Some(n),
{
    lemma_decimal_digits(n as nat);
}


// ---------------------------------------------------------------------------
// Splitting
// ---------------------------------------------------------------------------

/// The views of a sequence of strings.
pub open spec fn views(v: Seq<String>) -> Seq<Seq<char>> {
    v.map_values(|p: String| p@)
}

/// The pieces of `s` between the characters of `seps`, as `str::split`
/// yields them with a separator pattern that matches any of those characters:
/// `n` separators give `n + 1` pieces, empty ones included.
pub open spec fn split_on(s: Seq<char>, seps: Seq<char>) -> Seq<Seq<char>>
    decreases s.len(),
{
    if s.len() == 0 {
        seq![Seq::<char>::empty()]
    } else {
        let r = split_on(s.drop_last(), seps);
        if seps.contains(s.last()) {
            r.push(Seq::<char>::empty())
        } else {
            r.update(r.len() - 1, r.last().push(s.last()))
        }
    }
}

/// Splitting yields at least one piece.
pub proof fn lemma_split_nonempty(s: Seq<char>, seps: Seq<char>)
    ensures
        split_on(s, seps).len() >= 1,
    decreases s.len(),
{
    if s.len() > 0 {
        lemma_split_nonempty(s.drop_last(), seps);
    }
}

/// A text without separators is a single piece.
pub proof fn lemma_split_no_separator(s: Seq<char>, seps: Seq<char>)
    requires
        forall|i: int| 0 <= i < s.len() ==> !seps.contains(#[trigger] s[i]),
    ensures
        split_on(s, seps) == seq![s],
    decreases s.len(),
{
    if s.len() > 0 {
        lemma_split_no_separator(s.drop_last(), seps);
        assert(split_on(s.drop_last(), seps) == seq![s.drop_last()]);
        assert(s.drop_last().push(s.last()) =~= s);
        assert(split_on(s, seps) =~= seq![s]);
    } else {
        assert(s =~= Seq::<char>::empty());
    }
}

/// Splitting a text that follows a separator continues with the pieces of
/// what follows it.
pub proof fn lemma_split_append(a: Seq<char>, b: Seq<char>, seps: Seq<char>)
    requires
        a.len() > 0,
        seps.contains(a.last()),
    ensures
        split_on(a + b, seps) == split_on(a, seps).drop_last() + split_on(b, seps),
    decreases b.len(),
{
    lemma_split_nonempty(a.drop_last(), seps);
    let p = split_on(a, seps).drop_last();
    assert(split_on(a, seps) == split_on(a.drop_last(), seps).push(Seq::<char>::empty()));
    assert(p =~= split_on(a.drop_last(), seps));
    if b.len() == 0 {
        assert(a + b =~= a);
        assert(p + split_on(b, seps) =~= split_on(a, seps));
    } else {
        lemma_split_append(a, b.drop_last(), seps);
        lemma_split_nonempty(b.drop_last(), seps);
        let q = split_on(b.drop_last(), seps);
        assert((a + b).drop_last() =~= a + b.drop_last());
        assert((a + b).last() == b.last());
        if seps.contains(b.last()) {
            assert((p + q).push(Seq::<char>::empty()) =~= p + q.push(Seq::<char>::empty()));
        } else {
            let pq = p + q;
            assert(pq.last() == q.last());
            assert(pq.update(pq.len() - 1, pq.last().push(b.last())) =~= p + q.update(
                q.len() - 1,
                q.last().push(b.last()),
            ));
        }
    }
}

/// Splitting a text that ends with a separator, and has no other, gives the
/// text before it and an empty piece.
pub proof fn lemma_split_terminated(s: Seq<char>, c: char, seps: Seq<char>)
    requires
        forall|i: int| 0 <= i < s.len() ==> !seps.contains(#[trigger] s[i]),
        seps.contains(c),
    ensures
        split_on(s.push(c), seps) == seq![s, Seq::<char>::empty()],
{
    lemma_split_no_separator(s, seps);
    assert(s.push(c).drop_last() =~= s);
    assert(split_on(s.push(c), seps) =~= seq![s, Seq::<char>::empty()]);
}

/// Whether `c` is one of `seps`.
pub fn contains_char(seps: &[char], c: char) -> (b: bool)
    ensures
        b == seps@.contains(c),
{
    let mut i: usize = 0;
    while i < seps.len()
        invariant
            i <= seps@.len(),
            forall|k: int| 0 <= k < i ==> seps@[k] != c,
        decreases seps@.len() - i,
    {
        if seps[i] == c {
            assert(seps@[i as int] == c);
            return true;
        }
        i = i + 1;
    }
    false
}

/// The pieces of `s` between the characters of `seps`, as
/// `s.split(|c| seps.contains(&c))` yields them.
pub fn split_any(s: &str, seps: &[char]) -> (r: Vec<String>)
    ensures
        views(r@) == split_on(s@, seps@),
{
    let v = chars_of(s);
    let n = v.len();
    let mut pieces: Vec<String> = Vec::new();
    let mut cur = String::new();
    let mut i: usize = 0;
    assert(v@.take(0) =~= Seq::<char>::empty());
    assert(views(pieces@).push(cur@) =~= split_on(v@.take(0), seps@));
    while i < n
        invariant
            i <= n,
            n == v@.len(),
            v@ == s@,
            views(pieces@).push(cur@) == split_on(v@.take(i as int), seps@),
        decreases n - i,
    {
        let c = v[i];
        let ghost before = split_on(v@.take(i as int), seps@);
        proof {
            assert(v@.take(i + 1).drop_last() =~= v@.take(i as int));
            assert(v@.take(i + 1).last() == c);
        }
        if contains_char(seps, c) {
            pieces.push(cur);
            cur = String::new();
            assert(views(pieces@).push(cur@) =~= before.push(Seq::<char>::empty()));
        } else {
            push_char(&mut cur, c);
            assert(views(pieces@).push(cur@) =~= before.update(
                before.len() - 1,
                before.last().push(c),
            ));
        }
        i = i + 1;
    }
    pieces.push(cur);
    assert(v@.take(n as int) =~= s@);
    assert(views(pieces@) =~= split_on(s@, seps@));
    pieces
}

/// Whether two texts are the same, as `==` on `str` tells it.
pub fn text_eq(a: &str, b: &str) -> (r: bool)
    ensures
        r == (a@ == b@),
{
    let v = chars_of(a);
    let w = chars_of(b);
    if v.len() != w.len() {
        return false;
    }
    let mut i: usize = 0;
    while i < v.len()
        invariant
            i <= v@.len(),
            v@.len() == w@.len(),
            v@ == a@,
            w@ == b@,
            forall|k: int| 0 <= k < i ==> v@[k] == w@[k],
        decreases v@.len() - i,
    {
        if v[i] != w[i] {
            return false;
        }
        i = i + 1;
    }
    assert(v@ =~= w@);
    true
}

/// Whether `s` ends with `suffix`.
pub open spec fn has_suffix(s: Seq<char>, suffix: Seq<char>) -> bool {
    suffix.len() <= s.len() && s.subrange(s.len() - suffix.len(), s.len() as int) == suffix
}

/// Whether `s` ends with `suffix`, as `str::ends_with` tells it.
pub fn ends_with(s: &str, suffix: &str) -> (b: bool)
    ensures
        b == has_suffix(s@, suffix@),
{
    let v = chars_of(s);
    let w = chars_of(suffix);
    if w.len() > v.len() {
        return false;
    }
    let vn = v.len();
    let off = vn - w.len();
    let mut i: usize = 0;
    while i < w.len()
        invariant
            i <= w@.len(),
            vn == v@.len(),
            off + w@.len() == vn,
            v@ == s@,
            w@ == suffix@,
            forall|k: int| 0 <= k < i ==> v@[off + k] == w@[k],
        decreases w@.len() - i,
    {
        assert(off + i < v@.len());
        if v[off + i] != w[i] {
            assert(s@.subrange(off as int, v@.len() as int)[i as int] != w@[i as int]);
            return false;
        }
        i = i + 1;
    }
    assert(s@.subrange(off as int, v@.len() as int) =~= suffix@);
    true
}


// ---------------------------------------------------------------------------
// Paths
// ---------------------------------------------------------------------------

/// `base` joined with `comp`, as `Path::join` does it on Unix: an absolute
/// `comp` replaces `base`, otherwise a `/` is put between the two unless
/// `base` is empty or already ends with one.
pub open spec fn joined(base: Seq<char>, comp: Seq<char>) -> Seq<char> {
    if comp.len() > 0 && comp[0] == '/' {
        comp
    } else if base.len() == 0 || base.last() == '/' {
        base + comp
    } else {
        base + seq!['/'] + comp
    }
}

/// Joining keeps both parts: an absolute `comp` is the whole result;
/// otherwise the result starts with `base`, ends with `comp`, and holds one
/// `/` between them where `base` is not empty and does not end with one.
pub proof fn lemma_joined_parts(base: Seq<char>, comp: Seq<char>)
    ensures
        has_suffix(joined(base, comp), comp),
        comp.len() > 0 && comp[0] == '/' ==> joined(base, comp) == comp,
        !(comp.len() > 0 && comp[0] == '/') ==> joined(base, comp).take(base.len() as int) == base,
        !(comp.len() > 0 && comp[0] == '/') && base.len() > 0 && base.last() != '/' ==> joined(
            base,
            comp,
        ).len() == base.len() + 1 + comp.len() && joined(base, comp)[base.len() as int] == '/',
        !(comp.len() > 0 && comp[0] == '/') && (base.len() == 0 || base.last() == '/') ==> joined(
            base,
            comp,
        ).len() == base.len() + comp.len(),
{
    let j = joined(base, comp);
    assert(j.subrange(j.len() - comp.len(), j.len() as int) =~= comp);
    if !(comp.len() > 0 && comp[0] == '/') {
        assert(j.take(base.len() as int) =~= base);
    }
}

/// `base` joined with `comp`, as `Path::new(base).join(comp)` gives it on
/// Unix.
pub fn join_path(base: &str, comp: &str) -> (r: String)
    ensures
        r@ == joined(base@, comp@),
{
    let b = chars_of(base);
    let c = chars_of(comp);
    if c.len() > 0 && c[0] == '/' {
        return String::from_str(comp);
    }
    let mut r = String::from_str(base);
    if b.len() > 0 && b[b.len() - 1] != '/' {
        push_char(&mut r, '/');
    }
    r.append(comp);
    r
}


// ---------------------------------------------------------------------------
// Stored values
// ---------------------------------------------------------------------------

/// The view of an optional string.
pub open spec fn opt_view(stored: Option<String>) -> Option<Seq<char>> {
    match stored {
        Some(s) => Some(s@),
        None => None,
    }
}

/// The stored text, or `fallback` where nothing could be read.
pub open spec fn stored_or(stored: Option<String>, fallback: Seq<char>) -> Seq<char> {
    match stored {
        Some(s) => s@,
        None => fallback,
    }
}

/// The stored text, or `fallback` where nothing could be read.
pub fn or_fallback(stored: Option<String>, fallback: &str) -> (r: String)
    ensures
        r@ == stored_or(stored, fallback@),
{
    match stored {
        Some(s) => s,
        None => String::from_str(fallback),
    }
}

/// The number that a stored text writes, or `fallback` where nothing could be
/// read or the text is not a number.
pub open spec fn read_u64_or(stored: Option<Seq<char>>, fallback: u64) -> u64 {
    match stored {
        Some(s) => match parsed_u64(s) {
            Some(v) => v,
            None => fallback,
        },
        None => fallback,
    }
}

/// The 16-bit number that a stored text writes, or `fallback`.
pub open spec fn read_u16_or(stored: Option<Seq<char>>, fallback: u16) -> u16 {
    match stored {
        Some(s) => match parsed_u16(s) {
            Some(v) => v,
            None => fallback,
        },
        None => fallback,
    }
}

/// A stored number is read as the fallback exactly where nothing could be
/// read, or the text is not an optional `+` and one or more digits, or it is
/// too large; a text that is one or more digits and fits is read as the
/// number those digits write.
pub proof fn lemma_read_u64_or_fallback(s: Seq<char>, fallback: u64)
    ensures
        read_u64_or(None, fallback) == fallback,
        s.len() == 0 ==> read_u64_or(Some(s), fallback) == fallback,
        (exists|k: int| 0 <= k < s.len() && !is_digit(#[trigger] s[k]) && !(k == 0 && s[0] == '+'))
            ==> read_u64_or(Some(s), fallback) == fallback,
        s.len() > 0 && all_digits(s) && decimal_value(s) <= u64::MAX ==> read_u64_or(Some(s), fallback)
            == decimal_value(s),
{
    if exists|k: int| 0 <= k < s.len() && !is_digit(#[trigger] s[k]) && !(k == 0 && s[0] == '+') {
        let k = choose|k: int| 0 <= k < s.len() && !is_digit(#[trigger] s[k]) && !(k == 0 && s[0] == '+');
        let d = unsigned_digits(s);
        if s.len() > 0 && s[0] == '+' {
            assert(d[k - 1] == s[k]);
        } else {
            assert(d[k] == s[k]);
        }
    }
    if s.len() > 0 && all_digits(s) {
        assert(is_digit(s[0]));
    }
}

/// The number that a stored text writes, or `fallback`.
pub fn stored_u64_or(stored: &Option<String>, fallback: u64) -> (r: u64)
    ensures
        r == read_u64_or(opt_view(*stored), fallback),
{
    match stored {
        Some(s) => match parse_u64(s.as_str()) {
            Some(v) => v,
            None => fallback,
        },
        None => fallback,
    }
}

/// The 16-bit number that a stored text writes, or `fallback`.
pub fn stored_u16_or(stored: &Option<String>, fallback: u16) -> (r: u16)
    ensures
        r == read_u16_or(opt_view(*stored), fallback),
{
    match stored {
        Some(s) => match parse_u16(s.as_str()) {
            Some(v) => v,
            None => fallback,
        },
        None => fallback,
    }
}

} // verus!
