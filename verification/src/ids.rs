//! Identifiers: 128-bit UUID values and their canonical lower-case
//! hexadecimal renderings.

use vstd::prelude::*;

use crate::text::push_char;

verus! {

/// Lower-case hexadecimal digit for a value below 16.
pub open spec fn hex_digit(n: u8) -> char {
    if n < 10 {
        (48 + n) as char
    } else {
        (87 + n) as char
    }
}

/// The `i`-th hexadecimal digit (most significant first) of a 128-bit value.
pub open spec fn nibble(v: u128, i: int) -> u8 {
    ((v >> ((124 - 4 * i) as u32)) & 15u128) as u8
}

/// The 32-digit lower-case hexadecimal form of a UUID (no hyphens).
pub open spec fn simple_text(v: u128) -> Seq<char> {
    Seq::new(32, |i: int| hex_digit(nibble(v, i)))
}

/// The canonical hyphenated form `8-4-4-4-12` of a UUID.
pub open spec fn hyphenated_text(v: u128) -> Seq<char> {
    let s = simple_text(v);
    s.subrange(0, 8) + seq!['-'] + s.subrange(8, 12) + seq!['-'] + s.subrange(12, 16) + seq!['-']
        + s.subrange(16, 20) + seq!['-'] + s.subrange(20, 32)
}

/// A version-4 (random) UUID: version nibble 4 and RFC 4122 variant bits `10`.
pub open spec fn is_random_uuid(v: u128) -> bool {
    &&& (v >> 76u32) & 15u128 == 4
    &&& (v >> 62u32) & 3u128 == 2
}

fn hex_char(n: u8) -> (c: char)
    requires
        n < 16,
    ensures
        c == hex_digit(n),
{
    if n < 10 {
        (48u8 + n) as char
    } else {
        (87u8 + n) as char
    }
}

/// Appends hexadecimal digits `from..to` of `v` to `out`.
fn push_hex_digits(out: &mut String, v: u128, from: u32, to: u32)
    requires
        from <= to <= 32,
    ensures
        final(out)@ == old(out)@ + simple_text(v).subrange(from as int, to as int),
{
    let ghost start = out@;
    let mut i: u32 = from;
    while i < to
        invariant
            from <= i <= to <= 32,
            out@ == start + simple_text(v).subrange(from as int, i as int),
        decreases to - i,
    {
        let shift: u32 = 124 - 4 * i;
        let n: u128 = (v >> shift) & 15u128;
        assert(((v >> shift) & 15u128) < 16) by (bit_vector);
        let c = hex_char(n as u8);
        push_char(out, c);
        assert(simple_text(v).subrange(from as int, i + 1) =~= simple_text(v).subrange(
            from as int,
            i as int,
        ).push(c));
        i = i + 1;
    }
}

/// The 32-digit lower-case hexadecimal form of `v`.
pub fn simple_string(v: u128) -> (s: String)
    ensures
        s@ == simple_text(v),
{
    let mut s = String::new();
    push_hex_digits(&mut s, v, 0, 32);
    assert(s@ =~= simple_text(v));
    s
}

/// The canonical hyphenated lower-case form of `v`, as `uuid` displays it.
pub fn hyphenated_string(v: u128) -> (s: String)
    ensures
        s@ == hyphenated_text(v),
{
    let mut s = String::new();
    push_hex_digits(&mut s, v, 0, 8);
    push_char(&mut s, '-');
    push_hex_digits(&mut s, v, 8, 12);
    push_char(&mut s, '-');
    push_hex_digits(&mut s, v, 12, 16);
    push_char(&mut s, '-');
    push_hex_digits(&mut s, v, 16, 20);
    push_char(&mut s, '-');
    push_hex_digits(&mut s, v, 20, 32);
    assert(s@ =~= hyphenated_text(v));
    s
}

} // verus!

verus! {

/// `uuid::Uuid::new_v4` followed by `Uuid::as_u128`. The crate draws 128
/// random bits and then forces the version nibble to 4 and the variant bits to
/// `10`; that is all that is claimed of the value. The crate panics if the
/// operating system refuses to supply random bytes.
#[verifier::external_body]
pub(crate) fn random_uuid() -> (r: u128)
    ensures
        is_random_uuid(r),
{
    uuid::Uuid::new_v4().as_u128()
}

/// What `uuid::Uuid::parse_str` makes of a text: the parsed value, or the
/// text of the crate's parse error.
pub uninterp spec fn uuid_parse_outcome(text: Seq<char>) -> Result<u128, Seq<char>>;

/// `uuid::Uuid::parse_str`, its value taken by `as_u128` and its error by its
/// `Display` text. Which texts the crate accepts (hyphenated, simple, braced,
/// URN forms) is left to the name `uuid_parse_outcome`.
#[verifier::external_body]
pub(crate) fn parse_uuid(text: &str) -> (r: Result<u128, String>)
    ensures
        match r {
            Ok(v) => uuid_parse_outcome(text@) == Ok::<u128, Seq<char>>(v),
            Err(e) => uuid_parse_outcome(text@) == Err::<u128, Seq<char>>(e@),
        },
{
    match uuid::Uuid::parse_str(text) {
        Ok(v) => Ok(v.as_u128()),
        Err(e) => Err(e.to_string()),
    }
}

} // verus!
