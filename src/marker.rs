//! The version marker: the decimal text of the archive's modification time,
//! and how a marker read back from disk is compared with it.
use vstd::prelude::*;

verus! {

/// The character for a decimal digit `d < 10`.
pub open spec fn digit_char(d: nat) -> char {
    if d == 0 { '0' }
    else if d == 1 { '1' }
    else if d == 2 { '2' }
    else if d == 3 { '3' }
    else if d == 4 { '4' }
    else if d == 5 { '5' }
    else if d == 6 { '6' }
    else if d == 7 { '7' }
    else if d == 8 { '8' }
    else { '9' }
}

/// The decimal form of `n`, most significant digit first, without leading zeros.
pub open spec fn decimal(n: nat) -> Seq<char>
    decreases n,
{
    if n < 10 {
        seq![digit_char(n)]
    } else {
        decimal(n / 10).push(digit_char(n % 10))
    }
}

/// Appends the decimal form of `n` to `s`.
fn append_decimal(s: &mut String, n: u64)
    ensures
        final(s)@ == old(s)@ + decimal(n as nat),
    decreases n,
{
    if n >= 10 {
        append_decimal(s, n / 10);
    }
    let d: u64 = n % 10;
    let text: &str = if d == 0 { "0" }
        else if d == 1 { "1" }
        else if d == 2 { "2" }
        else if d == 3 { "3" }
        else if d == 4 { "4" }
        else if d == 5 { "5" }
        else if d == 6 { "6" }
        else if d == 7 { "7" }
        else if d == 8 { "8" }
        else { "9" };
    proof {
        reveal_strlit("0");
        reveal_strlit("1");
        reveal_strlit("2");
        reveal_strlit("3");
        reveal_strlit("4");
        reveal_strlit("5");
        reveal_strlit("6");
        reveal_strlit("7");
        reveal_strlit("8");
        reveal_strlit("9");
        assert(text@ =~= seq![digit_char(d as nat)]);
    }
    s.append(text);
    assert(final(s)@ =~= old(s)@ + decimal(n as nat));
}

/// The decimal text of `n`.
pub fn decimal_text(n: u64) -> (r: String)
    ensures
        r@ == decimal(n as nat),
{
    let mut s = String::new();
    append_decimal(&mut s, n);
    assert(s@ =~= decimal(n as nat));
    s
}

/// The marker text for an archive modified `mtime_secs` seconds after the epoch.
pub fn archive_stamp(mtime_secs: u64) -> (r: String)
    ensures
        r@ == decimal(mtime_secs as nat),
{
    decimal_text(mtime_secs)
}

/// Whether `c` has the Unicode `White_Space` property, the set that
/// `char::is_whitespace` and `str::trim` use.
pub open spec fn is_white_space(c: char) -> bool {
    ('\u{9}' <= c && c <= '\u{d}') || c == ' ' || c == '\u{85}' || c == '\u{a0}'
        || c == '\u{1680}' || ('\u{2000}' <= c && c <= '\u{200a}') || c == '\u{2028}'
        || c == '\u{2029}' || c == '\u{202f}' || c == '\u{205f}' || c == '\u{3000}'
}

/// `s` without its leading white space.
pub open spec fn trim_start(s: Seq<char>) -> Seq<char>
    decreases s.len(),
{
    if s.len() > 0 && is_white_space(s[0]) {
        trim_start(s.drop_first())
    } else {
        s
    }
}

/// `s` without its trailing white space.
pub open spec fn trim_end(s: Seq<char>) -> Seq<char>
    decreases s.len(),
{
    if s.len() > 0 && is_white_space(s.last()) {
        trim_end(s.drop_last())
    } else {
        s
    }
}

/// `s` without white space at either end.
pub open spec fn trim(s: Seq<char>) -> Seq<char> {
    trim_end(trim_start(s))
}

/// Whether a marker read back as `content` records the stamp `stamp`.
pub open spec fn records_stamp(content: Seq<char>, stamp: Seq<char>) -> bool {
    trim(content) == stamp
}

fn white_space(c: char) -> (r: bool)
    ensures
        r == is_white_space(c),
{
    ('\u{9}' <= c && c <= '\u{d}') || c == ' ' || c == '\u{85}' || c == '\u{a0}'
        || c == '\u{1680}' || ('\u{2000}' <= c && c <= '\u{200a}') || c == '\u{2028}'
        || c == '\u{2029}' || c == '\u{202f}' || c == '\u{205f}' || c == '\u{3000}'
}

/// Whether the marker text `content`, with white space trimmed from both ends,
/// is exactly `stamp`.
pub fn marker_matches(content: &str, stamp: &str) -> (r: bool)
    ensures
        r == records_stamp(content@, stamp@),
{
    let len = content.unicode_len();
    let mut start: usize = 0;
    assert(content@.subrange(0, len as int) =~= content@);
    while start < len && white_space(content.get_char(start))
        invariant
            start <= len,
            len == content@.len(),
            trim_start(content@) == trim_start(content@.subrange(start as int, len as int)),
        decreases len - start,
    {
        assert(content@.subrange(start as int, len as int).drop_first()
            =~= content@.subrange(start + 1, len as int));
        start = start + 1;
    }
    assert(trim_start(content@) == content@.subrange(start as int, len as int));
    let mut end: usize = len;
    while end > start && white_space(content.get_char(end - 1))
        invariant
            start <= end <= len,
            len == content@.len(),
            trim(content@) == trim_end(content@.subrange(start as int, end as int)),
        decreases end,
    {
        assert(content@.subrange(start as int, end as int).drop_last()
            =~= content@.subrange(start as int, end - 1));
        end = end - 1;
    }
    let ghost kept = content@.subrange(start as int, end as int);
    assert(trim(content@) == kept);
    let slen = stamp.unicode_len();
    if end - start != slen {
        return false;
    }
    let mut i: usize = 0;
    while i < slen
        invariant
            i <= slen,
            slen == stamp@.len(),
            end - start == slen,
            start <= end <= len,
            len == content@.len(),
            kept == content@.subrange(start as int, end as int),
            trim(content@) == kept,
            forall|k: int| 0 <= k < i ==> kept[k] == stamp@[k],
        decreases slen - i,
    {
        if content.get_char(start + i) != stamp.get_char(i) {
            assert(kept[i as int] != stamp@[i as int]);
            return false;
        }
        i = i + 1;
    }
    assert(kept =~= stamp@);
    true
}

proof fn lemma_decimal_ends(n: nat)
    ensures
        decimal(n).len() >= 1,
        n >= 10 ==> decimal(n).len() >= 2,
        !is_white_space(decimal(n)[0]),
        !is_white_space(decimal(n).last()),
    decreases n,
{
    if n >= 10 {
        lemma_decimal_ends(n / 10);
    }
}

/// Two timestamps with the same decimal form are the same timestamp.
pub proof fn lemma_decimal_injective(a: nat, b: nat)
    ensures
        decimal(a) == decimal(b) ==> a == b,
    decreases a,
{
    if decimal(a) == decimal(b) {
        lemma_decimal_ends(a);
        lemma_decimal_ends(b);
        if a >= 10 && b >= 10 {
            assert(decimal(a).drop_last() =~= decimal(a / 10));
            assert(decimal(b).drop_last() =~= decimal(b / 10));
            lemma_decimal_injective(a / 10, b / 10);
            assert(digit_char(a % 10) == digit_char(b % 10));
        }
    }
}

/// A stamp written to the marker and read back, with white space trimmed,
/// is the stamp itself: the marker records exactly the timestamp `n`.
pub proof fn lemma_marker_round_trip(n: u64)
    ensures
        trim(decimal(n as nat)) == decimal(n as nat),
        records_stamp(decimal(n as nat), decimal(n as nat)),
{
    lemma_decimal_ends(n as nat);
    let d = decimal(n as nat);
    assert(trim_start(d) == d);
    assert(trim_end(d) == d);
}

} // verus!
