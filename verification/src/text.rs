//! Text helpers over `str`: equality, byte-range slicing and decimal rendering.

use vstd::prelude::*;
use vstd::utf8::*;
use vstd::string::StringSliceAdditionalSpecFns;
use vstd::string::StringExecFns;

verus! {

broadcast use group_utf8_lib;

/// UTF-8 bytes of a character sequence.
pub open spec fn utf8_bytes(s: Seq<char>) -> Seq<u8> {
    encode_utf8(s)
}

/// The byte range `start..end` of `src` is in bounds and cuts at character boundaries.
pub open spec fn span_ok(src: Seq<char>, start: int, end: int) -> bool {
    &&& 0 <= start <= end <= utf8_bytes(src).len()
    &&& is_char_boundary(utf8_bytes(src), start)
    &&& is_char_boundary(utf8_bytes(src), end)
}

/// The characters of `src` that lie in the byte range `start..end`.
pub open spec fn span_text(src: Seq<char>, start: int, end: int) -> Seq<char> {
    decode_utf8(utf8_bytes(src).subrange(start, end))
}

/// Whether two strings hold the same characters.
pub fn text_eq(a: &str, b: &str) -> (r: bool)
    ensures
        r == (a@ == b@),
{
    let ab = a.as_bytes();
    let bb = b.as_bytes();
    if ab.len() != bb.len() {
        return false;
    }
    let mut i: usize = 0;
    while i < ab.len()
        invariant
            i <= ab@.len(),
            ab@.len() == bb@.len(),
            ab@ == utf8_bytes(a@),
            bb@ == utf8_bytes(b@),
            forall|j: int| 0 <= j < i ==> ab@[j] == bb@[j],
        decreases ab@.len() - i,
    {
        if ab[i] != bb[i] {
            return false;
        }
        i += 1;
    }
    assert(ab@ =~= bb@);
    assert(decode_utf8(utf8_bytes(a@)) == a@);
    assert(decode_utf8(utf8_bytes(b@)) == b@);
    true
}

/// The text of `source` in the byte range `start..end`, when that range is in
/// bounds and cuts at character boundaries.
pub fn text_slice(source: &str, start: usize, end: usize) -> (r: Option<String>)
    ensures
        r is Some <==> span_ok(source@, start as int, end as int),
        r matches Some(t) ==> t@ == span_text(source@, start as int, end as int),
{
    let ghost bytes = utf8_bytes(source@);
    let raw = source.as_bytes();
    if start > end || end > raw.len() {
        return None;
    }
    if !source.is_char_boundary(start) || !source.is_char_boundary(end) {
        return None;
    }
    let (left, _) = source.split_at(end);
    proof {
        let lb = left.spec_bytes();
        assert(lb =~= bytes.subrange(0, end as int));
        assert(valid_utf8(lb));
        if start == end {
            is_char_boundary_start_end_of_seq(lb);
        } else if start > 0 {
            is_char_boundary_iff_not_is_continuation_byte(bytes, start as int);
            is_char_boundary_iff_not_is_continuation_byte(lb, start as int);
        }
        assert(is_char_boundary(lb, start as int));
    }
    let (_, mid) = left.split_at(start);
    proof {
        assert(mid.spec_bytes() =~= bytes.subrange(start as int, end as int));
        assert(decode_utf8(utf8_bytes(mid@)) == mid@);
    }
    Some(mid.to_owned())
}

/// The decimal digit character for `d` (`d < 10`).
pub open spec fn digit_char(d: nat) -> char {
    if d == 0 { '0' }
    else if d == 1 { '1' }
    else if d == 2 { '2' }
    else if d == 3 { '3' }
    else if d == 4 { '4' }
    else if d == 5 { '5' }
    else if d == 6 { '6' }
    else if d == 7 { '7' }
    else if d == 8 { '8' }
    else { '9' }
}

/// The decimal notation of `n`, without leading zeros.
pub open spec fn decimal(n: nat) -> Seq<char>
    decreases n,
{
    if n < 10 {
        seq![digit_char(n)]
    } else {
        decimal(n / 10).push(digit_char(n % 10))
    }
}

fn digit_str(d: u64) -> (r: &'static str)
    requires
        d < 10,
    ensures
        r@ == seq![digit_char(d as nat)],
{
    proof {
        reveal_strlit("0");
        reveal_strlit("1");
        reveal_strlit("2");
        reveal_strlit("3");
        reveal_strlit("4");
        reveal_strlit("5");
        reveal_strlit("6");
        reveal_strlit("7");
        reveal_strlit("8");
        reveal_strlit("9");
    }
    if d == 0 { "0" }
    else if d == 1 { "1" }
    else if d == 2 { "2" }
    else if d == 3 { "3" }
    else if d == 4 { "4" }
    else if d == 5 { "5" }
    else if d == 6 { "6" }
    else if d == 7 { "7" }
    else if d == 8 { "8" }
    else { "9" }
}

/// The decimal notation of `n` (as `n.to_string()` writes it).
pub fn decimal_text(n: u64) -> (r: String)
    ensures
        r@ == decimal(n as nat),
    decreases n,
{
    if n < 10 {
        digit_str(n).to_owned()
    } else {
        let mut s = decimal_text(n / 10);
        s.append(digit_str(n % 10));
        s
    }
}

} // verus!
