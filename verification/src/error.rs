//! Error taxonomy: parse failures of the hardware address, validation
//! failures of the build inputs, and the (by construction unreachable, but
//! surfaced) buffer and cipher failures.

use vstd::prelude::*;

verus! {

/// Failure to parse a hardware address string.
#[derive(Clone, Copy, Debug, PartialEq, Eq, Structural)]
pub enum MacAddressError {
    /// The digits parsed, but there were not exactly six bytes of them.
    InvalidMacAddress,
    /// A character was neither a hex digit nor a separator, or an odd number
    /// of digits was given.
    InvalidHex,
}

impl MacAddressError {
    /// A human-readable description of the failure.
    pub fn message(&self) -> (r: &'static str)
        ensures
            *self == MacAddressError::InvalidMacAddress ==> r@ =~= (
            "invalid mac address, must be in 'AA-BB-CC-DD-EE-FF' format")@,
            *self == MacAddressError::InvalidHex ==> r@ =~= ("invalid hex literal")@,
    {
        match self {
            MacAddressError::InvalidMacAddress => "invalid mac address, must be in 'AA-BB-CC-DD-EE-FF' format",
            MacAddressError::InvalidHex => "invalid hex literal",
        }
    }
}

/// Failure to build a payload.
#[derive(Clone, Copy, Debug, PartialEq, Eq, Structural)]
pub enum BuildPayloadError {
    /// A buffer write fell outside the fixed-size output buffer.
    Io,
    /// A four-byte big-endian field could not be read back.
    InvalidU32SliceFromBe,
    /// The cipher or MAC rejected the length of a key or IV.
    CryptoInvalidLength,
    /// The cipher rejected the plaintext length (not block-aligned).
    CryptoPadError,
    /// The calendar date does not exist.
    InvalidDate,
    /// The derived delivery timestamp fell outside the representable range.
    InvalidTimestamp,
    /// The firmware version string is not in the supported table.
    InvalidSystemVersion,
    /// The delivery year lies outside [2000, 2035].
    InvalidYear,
}

impl BuildPayloadError {
    /// A human-readable description of the failure.
    pub fn message(&self) -> (r: &'static str)
        ensures
            *self == BuildPayloadError::InvalidYear ==> r@ =~= (
            "year must be between 2000 and 2035")@,
            *self == BuildPayloadError::InvalidSystemVersion ==> r@ =~= (
            "invalid or unsupported system version")@,
    {
        match self {
            BuildPayloadError::Io => "io error",
            BuildPayloadError::InvalidU32SliceFromBe => "invalid u32 slice from BigEndian slice",
            BuildPayloadError::CryptoInvalidLength => "invalid length for new_from_slice",
            BuildPayloadError::CryptoPadError => "encrypt pad error",
            BuildPayloadError::InvalidDate => "invalid date",
            BuildPayloadError::InvalidTimestamp => "invalid timestamp",
            BuildPayloadError::InvalidSystemVersion => "invalid or unsupported system version",
            BuildPayloadError::InvalidYear => "year must be between 2000 and 2035",
        }
    }
}

} // verus!
