//! Connection, group and session identifiers as 128-bit integers, with
//! their text form as the `uuid` crate writes and reads it.
use vstd::prelude::*;
use vstd::arithmetic::power::pow;

verus! {

/// The lowercase hexadecimal digit for `d` (`0 <= d < 16`).
pub open spec fn hex_char(d: int) -> char {
    if d < 10 {
        (('0' as int) + d) as char
    } else {
        (('a' as int) + d - 10) as char
    }
}

/// Nibble `k` of `v`, counting from the most significant (`0 <= k < 32`).
pub open spec fn nibble(v: u128, k: int) -> int {
    ((v as int) / pow(16, (31 - k) as nat)) % 16
}

/// Which nibble stands at position `i` of the hyphenated form, or `-1` for a
/// hyphen (positions 8, 13, 18 and 23).
pub open spec fn hyphenated_slot(i: int) -> int {
    if i < 8 {
        i
    } else if i == 8 {
        -1
    } else if i < 13 {
        i - 1
    } else if i == 13 {
        -1
    } else if i < 18 {
        i - 2
    } else if i == 18 {
        -1
    } else if i < 23 {
        i - 3
    } else if i == 23 {
        -1
    } else {
        i - 4
    }
}

/// The hyphenated lowercase form `xxxxxxxx-xxxx-xxxx-xxxx-xxxxxxxxxxxx` of
/// the 128-bit value `v`, most significant nibble first.
pub open spec fn uuid_hyphenated(v: u128) -> Seq<char> {
    Seq::new(
        36,
        |i: int|
            if hyphenated_slot(i) < 0 {
                '-'
            } else {
                hex_char(nibble(v, hyphenated_slot(i)))
            },
    )
}

/// What `uuid::Uuid::parse_str` yields for the text `s`, as a 128-bit value.
pub uninterp spec fn uuid_parse(s: Seq<char>) -> Option<u128>;

/// `uuid::Uuid::parse_str`, with the parsed value read back by
/// `Uuid::as_u128`. Claims: the result is the crate's parse of `s`; a text
/// in the hyphenated lowercase form of some value parses to that value. The
/// other accepted forms (simple, braced, URN, uppercase) are left to the name.
#[verifier::external_body]
pub(crate) fn parse_uuid(s: &str) -> (r: Option<u128>)
    ensures
        r == uuid_parse(s@),
        forall|v: u128| s@ == uuid_hyphenated(v) ==> r == Some(v),
{
    match uuid::Uuid::parse_str(s) {
        Ok(u) => Some(u.as_u128()),
        Err(_) => None,
    }
}

/// `uuid::Uuid::from_u128` followed by its `Display` (`to_string`): the
/// hyphenated lowercase form of `v`.
#[verifier::external_body]
pub(crate) fn uuid_text(v: u128) -> (r: String)
    ensures
        r@ == uuid_hyphenated(v),
{
    uuid::Uuid::from_u128(v).to_string()
}

/// The hyphenated form holds only hexadecimal digits and hyphens, so no
/// `c` outside those.
pub proof fn lemma_uuid_text_lacks(v: u128, c: char)
    requires
        !(('0' <= c && c <= '9') || ('a' <= c && c <= 'f') || c == '-'),
    ensures
        !uuid_hyphenated(v).contains(c),
{
    let t = uuid_hyphenated(v);
    assert forall|i: int| 0 <= i < t.len() implies t[i] != c by {
        let slot = hyphenated_slot(i);
        if slot >= 0 {
            let d = nibble(v, slot);
            assert(0 <= d < 16);
            if d < 10 {
                assert(hex_char(d) == (('0' as int) + d) as char);
                assert('0' <= hex_char(d) <= '9');
            } else {
                assert('a' <= hex_char(d) <= 'f');
            }
        }
    }
}

} // verus!
