//! How the typed records treat the entries they are read from: which are
//! required, which are optional, and what becomes of an entry that is
//! missing or misshapen.
//!
//! A required entry must be there and have the right shape. An optional
//! entry may be missing, and then stands for nothing or for its default;
//! but when it is there, it must have the right shape too. A misshapen
//! entry is never passed over in silence.

use vstd::prelude::*;

use crate::errors::{Error, ErrorKind};
use crate::keys::Key;
use crate::option_map::ValueError;

verus! {

/// What a reading holds, if anything.
pub open spec fn given<T>(reading: Result<T, ValueError>) -> Option<T> {
    match reading {
        Ok(value) => Some(value),
        Err(_) => None,
    }
}

/// What a reading holds, or `default` when it holds nothing.
pub open spec fn given_or<T>(reading: Result<T, ValueError>, default: T) -> T {
    match reading {
        Ok(value) => value,
        Err(_) => default,
    }
}

/// Whether a reading falls short of what a required entry must be.
pub open spec fn fails_required<T>(reading: Result<T, ValueError>) -> bool {
    reading is Err
}

/// Whether a reading falls short of what an optional entry must be.
pub open spec fn fails_optional<T>(reading: Result<T, ValueError>) -> bool {
    reading matches Err(ValueError::Malformed)
}

/// The bytes of an optional byte string.
pub open spec fn bytes_of(value: Option<Vec<u8>>) -> Option<Seq<u8>> {
    match value {
        Some(bytes) => Some(bytes@),
        None => None,
    }
}

/// The characters of an optional text.
pub open spec fn chars_of(value: Option<String>) -> Option<Seq<char>> {
    match value {
        Some(text) => Some(text@),
        None => None,
    }
}

/// The members of an optional list of ids.
pub open spec fn ids_of(value: Option<Vec<u32>>) -> Option<Seq<u32>> {
    match value {
        Some(ids) => Some(ids@),
        None => None,
    }
}

/// Insists on a reading: passes its value on, and turns any shortfall
/// into `InvalidInput` naming `key`.
pub fn required<T>(reading: Result<T, ValueError>, key: Key) -> (r: Result<T, Error>)
    ensures
        match reading {
            Ok(value) => r == Ok::<T, Error>(value),
            Err(_) => r matches Err(e) && e.kind == ErrorKind::InvalidInput(key) && e.chain@.len()
                == 0,
        },
{
    match reading {
        Ok(value) => Ok(value),
        Err(_) => Err(Error::new(ErrorKind::InvalidInput(key))),
    }
}

/// Accepts a reading that may be absent: passes its value on if there is
/// one, passes on nothing if the entry is missing, and turns a misshapen
/// entry into `InvalidInput` naming `key`.
pub fn optional<T>(reading: Result<T, ValueError>, key: Key) -> (r: Result<Option<T>, Error>)
    ensures
        match reading {
            Ok(value) => r == Ok::<Option<T>, Error>(Some(value)),
            Err(ValueError::Missing) => r == Ok::<Option<T>, Error>(None),
            Err(ValueError::Malformed) => r matches Err(e) && e.kind == ErrorKind::InvalidInput(
                key,
            ) && e.chain@.len() == 0,
        },
{
    match reading {
        Ok(value) => Ok(Some(value)),
        Err(ValueError::Missing) => Ok(None),
        Err(ValueError::Malformed) => Err(Error::new(ErrorKind::InvalidInput(key))),
    }
}

} // verus!
