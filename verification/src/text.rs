//! Building serialized text as bytes: literals, decimal numbers and quoted
//! strings.

use vstd::prelude::*;
use vstd::string::StringSliceAdditionalSpecFns;

verus! {

/// The UTF-8 bytes of a piece of text.
pub open spec fn text(s: &str) -> Seq<u8> {
    s.spec_bytes()
}

/// The decimal digits of `n`, most significant first, as ASCII.
pub open spec fn decimal(n: nat) -> Seq<u8>
    decreases n,
{
    if n < 10 {
        seq![(48 + n) as u8]
    } else {
        decimal(n / 10).push((48 + n % 10) as u8)
    }
}

/// The decimal form of a signed number: a minus sign before the digits of a
/// negative one.
pub open spec fn signed_decimal(i: int) -> Seq<u8> {
    if i < 0 {
        seq![45u8] + decimal((-i) as nat)
    } else {
        decimal(i as nat)
    }
}

/// What formatting a string with `{:?}` yields, as UTF-8 bytes: the string in
/// double quotes with its special characters escaped.
pub uninterp spec fn debug_text(s: Seq<char>) -> Seq<u8>;

/// Calls std's `Debug` formatting of `str` (through `format!` with `{:?}`). The
/// result is only named, as `debug_text` of the string: nothing is claimed
/// about which characters are escaped or how.
#[verifier::external_body]
pub(crate) fn debug_quoted(s: &str) -> (r: Vec<u8>)
    ensures
        r@ == debug_text(s@),
{
    format!("{:?}", s).into_bytes()
}

/// Appends `src` to `out`.
pub fn append_bytes(out: &mut Vec<u8>, src: &[u8])
    ensures
        final(out)@ == old(out)@ + src@,
{
    let mut i: usize = 0;
    while i < src.len()
        invariant
            i <= src.len(),
            out@ == old(out)@ + src@.subrange(0, i as int),
        decreases src.len() - i,
    {
        out.push(src[i]);
        i += 1;
    }
    assert(src@.subrange(0, src.len() as int) == src@);
}

/// Appends the UTF-8 bytes of `s` to `out`.
pub fn append_text(out: &mut Vec<u8>, s: &str)
    ensures
        final(out)@ == old(out)@ + text(s),
{
    append_bytes(out, s.as_bytes());
}

/// Appends `s` in its quoted, escaped form to `out`.
pub fn append_quoted(out: &mut Vec<u8>, s: &str)
    ensures
        final(out)@ == old(out)@ + debug_text(s@),
{
    let q = debug_quoted(s);
    append_bytes(out, q.as_slice());
}

/// The decimal digits of `n`.
pub fn decimal_digits(n: u64) -> (r: Vec<u8>)
    ensures
        r@ == decimal(n as nat),
    decreases n,
{
    if n < 10 {
        let mut r: Vec<u8> = Vec::new();
        r.push(48 + n as u8);
        r
    } else {
        let mut r = decimal_digits(n / 10);
        r.push(48 + (n % 10) as u8);
        r
    }
}

/// Appends the decimal digits of `n` to `out`.
pub fn append_decimal(out: &mut Vec<u8>, n: u64)
    ensures
        final(out)@ == old(out)@ + decimal(n as nat),
{
    let d = decimal_digits(n);
    append_bytes(out, d.as_slice());
}

/// Appends the decimal form of the signed number `i` to `out`.
pub fn append_signed_decimal(out: &mut Vec<u8>, i: i32)
    ensures
        final(out)@ == old(out)@ + signed_decimal(i as int),
{
    if i < 0 {
        out.push(45u8);
        let magnitude: u64 = (-(i as i64)) as u64;
        let d = decimal_digits(magnitude);
        append_bytes(out, d.as_slice());
        assert(out@ == old(out)@ + (seq![45u8] + decimal((-i) as nat)));
    } else {
        append_decimal(out, i as u64);
    }
}

/// The byte sequences that the vectors hold.
pub open spec fn rows_view(rows: Seq<Vec<u8>>) -> Seq<Seq<u8>> {
    Seq::new(rows.len(), |i: int| rows[i]@)
}

/// The first `n` rows one after the other, with a comma between neighbours.
pub open spec fn comma_separated(rows: Seq<Seq<u8>>, n: nat) -> Seq<u8>
    decreases n,
{
    if n == 0 {
        Seq::empty()
    } else if n == 1 {
        rows[0]
    } else {
        comma_separated(rows, (n - 1) as nat) + seq![44u8] + rows[n - 1]
    }
}

/// The rows as one array-shaped text: in square brackets, separated by commas.
pub open spec fn bracketed(rows: Seq<Seq<u8>>) -> Seq<u8> {
    seq![91u8] + comma_separated(rows, rows.len()) + seq![93u8]
}

/// Appends the rows to `out`, with a comma between neighbours.
pub fn append_comma_separated(out: &mut Vec<u8>, rows: &Vec<Vec<u8>>)
    ensures
        final(out)@ == old(out)@ + comma_separated(rows_view(rows@), rows@.len()),
{
    let mut i: usize = 0;
    while i < rows.len()
        invariant
            i <= rows.len(),
            out@ == old(out)@ + comma_separated(rows_view(rows@), i as nat),
        decreases rows.len() - i,
    {
        if i > 0 {
            out.push(44u8);
        }
        append_bytes(out, rows[i].as_slice());
        i += 1;
    }
}

/// The rows as one array-shaped text.
pub fn join_rows(rows: &Vec<Vec<u8>>) -> (r: Vec<u8>)
    ensures
        r@ == bracketed(rows_view(rows@)),
{
    let mut out: Vec<u8> = Vec::new();
    out.push(91u8);
    append_comma_separated(&mut out, rows);
    out.push(93u8);
    out
}

} // verus!
