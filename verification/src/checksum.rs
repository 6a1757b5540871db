//! CRC-32C, computed by the `crc32c` crate.

use vstd::prelude::*;

verus! {

/// What `crc32c::crc32c_append` returns for a previous CRC value and the bytes that follow.
pub uninterp spec fn crc32c_append_value(crc: u32, data: Seq<u8>) -> u32;

/// The CRC-32C of `data`.
pub open spec fn crc32c_value(data: Seq<u8>) -> u32 {
    crc32c_append_value(0, data)
}

/// Calls `crc32c::crc32c_append`. The result depends on the previous CRC value and on the bytes
/// alone, and is named by `crc32c_append_value`.
#[verifier::external_body]
pub(crate) fn crc32c_append(crc: u32, data: &[u8]) -> (value: u32)
    ensures
        value == crc32c_append_value(crc, data@),
{
    crc32c::crc32c_append(crc, data)
}

/// Calls `crc32c::crc32c`, which the crate documents as equivalent to appending to the CRC
/// value zero.
#[verifier::external_body]
pub(crate) fn crc32c(data: &[u8]) -> (value: u32)
    ensures
        value == crc32c_append_value(0, data@),
{
    crc32c::crc32c(data)
}

} // verus!
