//! Random identifiers for devices, sessions, transfers and peers.
use crate::crypto::is_lower_hex_digit;
use vstd::prelude::*;

verus! {

/// The text of a version-4 UUID in its lowercase hyphenated form: 36
/// characters, hyphens at 8, 13, 18 and 23, lowercase hexadecimal digits
/// elsewhere, the version digit `4` at 14 and the variant digit (one of `8`,
/// `9`, `a`, `b`) at 19.
pub open spec fn is_hyphenated_uuid_v4(s: Seq<char>) -> bool {
    &&& s.len() == 36
    &&& forall|i: int|
        0 <= i < 36 ==> if i == 8 || i == 13 || i == 18 || i == 23 {
            #[trigger] s[i] == '-'
        } else {
            is_lower_hex_digit(s[i])
        }
    &&& s[14] == '4'
    &&& (s[19] == '8' || s[19] == '9' || s[19] == 'a' || s[19] == 'b')
}

/// `uuid::Uuid::new_v4` written out by its `Display` impl (the lowercase
/// hyphenated form).  The contract claims only what every outcome has: that
/// form, with the version and variant digits of a version-4 UUID.  The other
/// digits are random.
#[verifier::external_body]
pub(crate) fn new_uuid_string() -> (s: String)
    ensures
        is_hyphenated_uuid_v4(s@),
{
    uuid::Uuid::new_v4().to_string()
}

/// A version-4 (random) UUID as a 128-bit number: the version field (bits
/// 76 to 79) holds 4 and the variant field (bits 62 and 63) holds the RFC
/// 4122 variant, binary 10.
pub open spec fn is_uuid_v4(v: u128) -> bool {
    (v >> 76u128) & 0xfu128 == 4 && (v >> 62u128) & 0x3u128 == 2
}

/// `uuid::Uuid::new_v4` as its 128-bit number (`Uuid::as_u128`).  The value
/// is random; the contract claims only what every outcome has: the version
/// and variant fields of a version-4 UUID.
#[verifier::external_body]
fn new_uuid_u128() -> (v: u128)
    ensures
        is_uuid_v4(v),
{
    uuid::Uuid::new_v4().as_u128()
}

/// The identity of a device.
#[derive(Debug, Clone, Copy, PartialEq, Eq, Structural)]
pub struct DeviceId(u128);

/// The identity of a pairing session.
#[derive(Debug, Clone, Copy, PartialEq, Eq, Structural)]
pub struct SessionId(u128);

/// The identity of a transfer.
#[derive(Debug, Clone, Copy, PartialEq, Eq, Structural)]
pub struct TransferId(u128);

/// The identity of a peer.
#[derive(Debug, Clone, Copy, PartialEq, Eq, Structural)]
pub struct PeerId(u128);

impl DeviceId {
    /// A fresh random identifier: a version-4 UUID.
    pub fn new() -> (r: Self)
        ensures
            is_uuid_v4(r.value()),
    {
        DeviceId(new_uuid_u128())
    }

    /// The identifier with the given 128-bit value.
    pub fn from_u128(v: u128) -> (r: Self)
        ensures
            r.value() == v,
    {
        DeviceId(v)
    }

    /// The 128-bit value of the identifier.
    pub closed spec fn value(&self) -> u128 {
        self.0
    }

    /// The 128-bit value of the identifier.
    pub fn as_u128(&self) -> (v: u128)
        ensures
            v == self.value(),
    {
        self.0
    }
}

impl SessionId {
    /// A fresh random identifier: a version-4 UUID.
    pub fn new() -> (r: Self)
        ensures
            is_uuid_v4(r.value()),
    {
        SessionId(new_uuid_u128())
    }

    /// The identifier with the given 128-bit value.
    pub fn from_u128(v: u128) -> (r: Self)
        ensures
            r.value() == v,
    {
        SessionId(v)
    }

    /// The 128-bit value of the identifier.
    pub closed spec fn value(&self) -> u128 {
        self.0
    }

    /// The 128-bit value of the identifier.
    pub fn as_u128(&self) -> (v: u128)
        ensures
            v == self.value(),
    {
        self.0
    }
}

impl TransferId {
    /// A fresh random identifier: a version-4 UUID.
    pub fn new() -> (r: Self)
        ensures
            is_uuid_v4(r.value()),
    {
        TransferId(new_uuid_u128())
    }

    /// The identifier with the given 128-bit value.
    pub fn from_u128(v: u128) -> (r: Self)
        ensures
            r.value() == v,
    {
        TransferId(v)
    }

    /// The 128-bit value of the identifier.
    pub closed spec fn value(&self) -> u128 {
        self.0
    }

    /// The 128-bit value of the identifier.
    pub fn as_u128(&self) -> (v: u128)
        ensures
            v == self.value(),
    {
        self.0
    }
}

impl PeerId {
    /// A fresh random identifier: a version-4 UUID.
    pub fn new() -> (r: Self)
        ensures
            is_uuid_v4(r.value()),
    {
        PeerId(new_uuid_u128())
    }

    /// The identifier with the given 128-bit value.
    pub fn from_u128(v: u128) -> (r: Self)
        ensures
            r.value() == v,
    {
        PeerId(v)
    }

    /// The 128-bit value of the identifier.
    pub closed spec fn value(&self) -> u128 {
        self.0
    }

    /// The 128-bit value of the identifier.
    pub fn as_u128(&self) -> (v: u128)
        ensures
            v == self.value(),
    {
        self.0
    }
}

} // verus!
