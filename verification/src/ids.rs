//! Identity text: memory identities are UUIDs held as their 128-bit value and
//! written through the `uuid` crate.

use vstd::prelude::*;
use crate::domain::MemoryId;

verus! {

/// The lowercase hexadecimal digit of a value below sixteen.
pub open spec fn hex_digit(n: int) -> char {
    if n < 10 {
        (('0' as int) + n) as char
    } else {
        (('a' as int) + (n - 10)) as char
    }
}

/// The last `count` hexadecimal digits of `v`, most significant first.
pub open spec fn hex_digits(v: nat, count: nat) -> Seq<char>
    decreases count,
{
    if count == 0 {
        seq![]
    } else {
        hex_digits(v / 16, (count - 1) as nat).push(hex_digit((v % 16) as int))
    }
}

/// The hyphenated text of the UUID with this 128-bit value: its 32 lowercase
/// hexadecimal digits, most significant first, grouped 8-4-4-4-12.
pub open spec fn uuid_hyphenated(id: u128) -> Seq<char> {
    let d = hex_digits(id as nat, 32);
    d.subrange(0, 8) + seq!['-'] + d.subrange(8, 12) + seq!['-'] + d.subrange(12, 16)
        + seq!['-'] + d.subrange(16, 20) + seq!['-'] + d.subrange(20, 32)
}

/// `uuid::Uuid::from_u128(id).to_string()`: the UUID's `Display` text, which the
/// crate writes as its hyphenated lowercase form, and which `Uuid::parse_str`
/// reads back as the same value.
#[verifier::external_body]
pub(crate) fn uuid_text(id: MemoryId) -> (r: String)
    ensures
        r@ == uuid_hyphenated(id),
        (uuid_parse(r@) == Ok::<u128, Seq<char>>(id)),
{
    uuid::Uuid::from_u128(id).to_string()
}

/// Whether an identity is the nil UUID, the one whose 128-bit value is zero.
pub(crate) fn uuid_is_nil(id: MemoryId) -> (r: bool)
    ensures
        r == (id == 0),
{
    id == 0
}

/// What `uuid::Uuid::parse_str` gives for a text: the UUID's 128-bit value, or the
/// `Display` text of the crate's error.
pub uninterp spec fn uuid_parse(text: Seq<char>) -> Result<u128, Seq<char>>;

/// `uuid::Uuid::parse_str(text)`, the value as `u128` and the error by its
/// `Display` text. The crate reads back the hyphenated form that its `Display`
/// writes, so such a text gives its value; what other texts give (which of the
/// crate's other accepted forms, which error message) is only named.
#[verifier::external_body]
pub(crate) fn parse_uuid(text: &str) -> (r: Result<u128, String>)
    ensures
        (match uuid_parse(text@) {
            Ok(v) => r matches Ok(w) && w == v,
            Err(m) => r matches Err(e) && e@ == m,
        }),
        (forall|id: u128| text@ == uuid_hyphenated(id) ==> r == Ok::<u128, String>(id)),
{
    match uuid::Uuid::parse_str(text) {
        Ok(u) => Ok(u.as_u128()),
        Err(e) => Err(e.to_string()),
    }
}

} // verus!
