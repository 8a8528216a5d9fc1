//! The plugin API version advertised by the host, and the check that gates
//! every other step of initialization.
//!
//! The layout and meaning of everything else the host hands over depends on
//! the version, so nothing else is looked at until the version has passed.

use libc::c_uint;
use vstd::prelude::*;

use crate::errors::{Error, ErrorKind};
use crate::text::{render_decimal, decimal_digits, DOT};

verus! {

/// The major number of the oldest API version this library works with.
pub const MINIMUM_MAJOR: u16 = 1;

/// The minor number of the oldest API version this library works with.
pub const MINIMUM_MINOR: u16 = 2;

/// An API version: a major and a minor number.
#[derive(Clone, Copy, Debug, PartialEq, Eq, Structural)]
pub struct Version {
    pub major: u16,
    pub minor: u16,
}

impl Version {
    /// The version that a packed integer stands for: the major number in
    /// the upper sixteen bits, the minor number in the lower sixteen.
    pub open spec fn decode(raw: c_uint) -> Version {
        Version { major: (raw / 0x1_0000) as u16, minor: (raw % 0x1_0000) as u16 }
    }

    /// The packed integer that stands for this version.
    pub open spec fn encode(self) -> c_uint {
        (self.major * 0x1_0000 + self.minor) as u32
    }

    /// Whether this version is `other` or a later one: a higher major
    /// number, or the same major number and no lower a minor number.
    pub open spec fn at_least(self, other: Version) -> bool {
        self.major > other.major || (self.major == other.major && self.minor >= other.minor)
    }

    /// The oldest version this library works with.
    pub open spec fn spec_minimum() -> Version {
        Version { major: MINIMUM_MAJOR, minor: MINIMUM_MINOR }
    }

    /// What this version reads as: the two numbers in decimal with a dot
    /// between them.
    pub open spec fn spec_text(self) -> Seq<u8> {
        decimal_digits(self.major as nat) + seq![DOT] + decimal_digits(self.minor as nat)
    }

    /// A version from its two numbers.
    pub fn new(major: u16, minor: u16) -> (v: Version)
        ensures
            v == (Version { major, minor }),
    {
        Version { major, minor }
    }

    /// Unpacks the integer by which the host advertises its version.
    pub fn from_raw(raw: c_uint) -> (v: Version)
        ensures
            v == Version::decode(raw),
    {
        assert(raw >> 16 == raw / 0x1_0000) by (bit_vector);
        assert(raw & 0xffff == raw % 0x1_0000) by (bit_vector);
        Version { major: (raw >> 16) as u16, minor: (raw & 0xffff) as u16 }
    }

    /// Packs the version the way the host does.
    pub fn to_raw(self) -> (raw: c_uint)
        ensures
            raw == self.encode(),
            Version::decode(raw) == self,
    {
        let major: u32 = self.major as u32;
        let minor: u32 = self.minor as u32;
        assert(major << 16 == major * 0x1_0000) by (bit_vector)
            requires
                major < 0x1_0000,
        ;
        assert((major << 16) | minor == (major << 16) + minor) by (bit_vector)
            requires
                major < 0x1_0000,
                minor < 0x1_0000,
        ;
        (major << 16) | minor
    }

    /// The oldest version this library works with.
    #[verifier::when_used_as_spec(spec_minimum)]
    pub fn minimum() -> (v: Version)
        ensures
            v == Version::spec_minimum(),
    {
        Version { major: MINIMUM_MAJOR, minor: MINIMUM_MINOR }
    }

    /// Whether this version is `minimum` or a later one.
    pub fn supports(&self, minimum: Version) -> (ok: bool)
        ensures
            ok == self.at_least(minimum),
    {
        self.major > minimum.major || (self.major == minimum.major && self.minor >= minimum.minor)
    }

    /// Whether this library works with this version.
    pub fn supported(&self) -> (ok: bool)
        ensures
            ok == self.at_least(Version::spec_minimum()),
    {
        self.supports(Version::minimum())
    }

    /// Passes the version on when it is at least `minimum`. Otherwise fails
    /// with `UnsupportedApiVersion`, which carries the minimum that was
    /// asked for.
    pub fn check_against(self, minimum: Version) -> (r: Result<Version, Error>)
        ensures
            self.at_least(minimum) ==> r == Ok::<Version, Error>(self),
            !self.at_least(minimum) ==> r is Err && r->Err_0.kind
                == ErrorKind::UnsupportedApiVersion(minimum) && r->Err_0.chain@.len() == 0,
    {
        if self.supports(minimum) {
            Ok(self)
        } else {
            Err(Error::new(ErrorKind::UnsupportedApiVersion(minimum)))
        }
    }

    /// Passes the version on when this library works with it. Otherwise
    /// fails with `UnsupportedApiVersion`, which carries the oldest version
    /// that would have done.
    pub fn check(self) -> (r: Result<Version, Error>)
        ensures
            self.at_least(Version::spec_minimum()) ==> r == Ok::<Version, Error>(self),
            !self.at_least(Version::spec_minimum()) ==> r is Err && r->Err_0.kind
                == ErrorKind::UnsupportedApiVersion(Version::spec_minimum())
                && r->Err_0.chain@.len() == 0,
    {
        self.check_against(Version::minimum())
    }

    /// Writes the version as text, such as `1.2`.
    pub fn to_bytes(&self) -> (out: Vec<u8>)
        ensures
            out@ == self.spec_text(),
    {
        let mut out = render_decimal(self.major as u64);
        out.push(DOT);
        let mut minor = render_decimal(self.minor as u64);
        out.append(&mut minor);
        out
    }
}

/// Settles whether the host's advertised version can be worked with,
/// against a minimum of the caller's choosing.
///
/// Succeeds with the decoded version exactly when it is at least
/// `minimum`; fails with `UnsupportedApiVersion(minimum)` otherwise.
pub fn negotiate_against(raw: c_uint, minimum: Version) -> (r: Result<Version, Error>)
    ensures
        Version::decode(raw).at_least(minimum) ==> r == Ok::<Version, Error>(Version::decode(raw)),
        !Version::decode(raw).at_least(minimum) ==> r is Err && r->Err_0.kind
            == ErrorKind::UnsupportedApiVersion(minimum) && r->Err_0.chain@.len() == 0,
{
    Version::from_raw(raw).check_against(minimum)
}

/// Settles whether the host's advertised version can be worked with.
///
/// Succeeds with the decoded version exactly when it is at least the
/// library's minimum; fails with `UnsupportedApiVersion` carrying that
/// minimum otherwise.
pub fn negotiate(raw: c_uint) -> (r: Result<Version, Error>)
    ensures
        Version::decode(raw).at_least(Version::spec_minimum()) ==> r == Ok::<Version, Error>(
            Version::decode(raw),
        ),
        !Version::decode(raw).at_least(Version::spec_minimum()) ==> r is Err && r->Err_0.kind
            == ErrorKind::UnsupportedApiVersion(Version::spec_minimum()) && r->Err_0.chain@.len()
            == 0,
{
    negotiate_against(raw, Version::minimum())
}

/// Packing and unpacking undo each other: every version is unpacked from
/// the integer it packs to, and every integer is packed from the version it
/// unpacks to.
pub proof fn lemma_version_round_trip(version: Version, raw: c_uint)
    ensures
        Version::decode(version.encode()) == version,
        Version::decode(raw).encode() == raw,
{
}

/// Versions are ordered in a line: each is at least itself, of any two one
/// is at least the other, two that are at least each other are the same,
/// and what is at least a version is at least every version below it.
pub proof fn lemma_versions_are_ordered(a: Version, b: Version, c: Version)
    ensures
        a.at_least(a),
        a.at_least(b) || b.at_least(a),
        a.at_least(b) && b.at_least(a) ==> a == b,
        a.at_least(b) && b.at_least(c) ==> a.at_least(c),
{
}

} // verus!
