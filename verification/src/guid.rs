//! Stable identities of entities, assets and levels.

use crate::text::hex_of;
use vstd::prelude::*;

verus! {

/// A 128-bit identity. Its order is that of the number.
#[derive(Clone, Copy, Debug, PartialEq, Eq, Hash, PartialOrd, Ord, Structural)]
pub struct Guid {
    pub value: u128,
}

/// The hyphenated form: 32 lower-case hexadecimal digits in groups of 8, 4, 4,
/// 4 and 12.
pub open spec fn hyphenated(value: u128) -> Seq<char> {
    let d = hex_of(value as nat, 32);
    d.subrange(0, 8).push('-') + d.subrange(8, 12).push('-') + d.subrange(12, 16).push('-')
        + d.subrange(16, 20).push('-') + d.subrange(20, 32)
}

/// A random identity of version 4: the version digit is 4 and the two bits of
/// the variant are 10.
pub open spec fn is_version_4(value: u128) -> bool {
    &&& (value / 0x1000_0000_0000_0000_0000) % 16 == 4
    &&& (value / 0x4000_0000_0000_0000) % 4 == 2
}

/// The `Display` form of `uuid::Uuid`: that it writes the hyphenated form in
/// lower case.
#[verifier::external_body]
fn uuid_text(value: u128) -> (r: String)
    ensures
        r@ == hyphenated(value),
{
    uuid::Uuid::from_u128(value).to_string()
}

/// `uuid::Uuid::new_v4`: that it sets the version and the variant; the other
/// bits are random.
#[verifier::external_body]
fn uuid_new_v4() -> (r: u128)
    ensures
        is_version_4(r),
{
    uuid::Uuid::new_v4().as_u128()
}

impl Guid {
    pub fn from_u128(value: u128) -> (r: Guid)
        ensures
            r.value == value,
    {
        Guid { value }
    }

    /// A fresh random identity.
    pub fn mint() -> (r: Guid)
        ensures
            is_version_4(r.value),
    {
        Guid { value: uuid_new_v4() }
    }

    /// The identity in its hyphenated form.
    pub fn text(&self) -> (r: String)
        ensures
            r@ == hyphenated(self.value),
    {
        uuid_text(self.value)
    }
}

} // verus!
