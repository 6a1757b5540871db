//! Checking and scanning segment data files.

use crate::bytes::{copy_range, read_u16, read_u32, u32_at};
use crate::checksum::crc32c;
use crate::error::{ArchiveFile, ArchivePath, ArchiveRecorderError, IoFault};
use crate::frame::{
    clear_checksum, frame_is_sound, hot_data, FRAME_FLAG_CHECKSUM_CRC32C, FRAME_HEADER_LEN,
    FRAME_MAGIC, FRAME_OFFSET_CHECKSUM, FRAME_OFFSET_FLAGS, FRAME_OFFSET_FRAME_LEN,
    FRAME_OFFSET_HEADER_LEN,
};
use crate::header::same_array4;
use crate::store::{ArchiveStore, StoreModel, MAX_FILE_LEN};
use crate::types::{ArchiveLocator, ArchiveSegmentTier};
use vstd::prelude::*;

verus! {

/// The locator names a sound frame of a hot segment.
pub open spec fn locator_is_sound(store: StoreModel, locator: ArchiveLocator) -> bool {
    let file = hot_data(locator.segment_id, locator.segment_generation);
    store.has(file) && frame_is_sound(
        store.bytes(file),
        locator.file_offset as int,
        locator.frame_len as int,
    )
}

/// Tells whether the bytes are one sound frame.
pub fn bytes_are_sound_frame(bytes: &[u8]) -> (sound: bool)
    requires
        64 <= bytes@.len() <= u32::MAX,
    ensures
        sound == frame_is_sound(bytes@, 0, bytes@.len() as int),
{
    assert(bytes@.subrange(0, bytes@.len() as int) =~= bytes@);
    let magic: [u8; 4] = [bytes[0], bytes[1], bytes[2], bytes[3]];
    assert(bytes@.subrange(0, 4) =~= magic@);
    if !same_array4(&magic, &FRAME_MAGIC) {
        return false;
    }
    if read_u16(bytes, FRAME_OFFSET_HEADER_LEN) as usize != FRAME_HEADER_LEN {
        return false;
    }
    if read_u32(bytes, FRAME_OFFSET_FRAME_LEN) as usize != bytes.len() {
        return false;
    }
    let flags: u16 = read_u16(bytes, FRAME_OFFSET_FLAGS);
    if flags & FRAME_FLAG_CHECKSUM_CRC32C != 0 {
        let expected: u32 = read_u32(bytes, FRAME_OFFSET_CHECKSUM);
        let mut frame = copy_range(bytes, 0, bytes.len());
        clear_checksum(&mut frame);
        if crc32c(&frame) != expected {
            return false;
        }
    }
    true
}

/// A frame is sound in its segment where its bytes alone are.
pub proof fn sound_by_itself(segment: Seq<u8>, at: int, frame_len: int)
    requires
        0 <= at,
        64 <= frame_len,
        at + frame_len <= segment.len(),
    ensures
        frame_is_sound(segment, at, frame_len) == frame_is_sound(
            segment.subrange(at, at + frame_len),
            0,
            frame_len,
        ),
{
    let frame = segment.subrange(at, at + frame_len);
    assert(frame.subrange(0, frame_len) =~= frame);
}

/// Tells whether a locator names a sound frame of a hot segment.
pub fn locator_points_to_valid_frame(store: &ArchiveStore, locator: ArchiveLocator) -> (sound: bool)
    ensures
        sound == locator_is_sound(store@, locator),
{
    let file = ArchiveFile::SegmentData {
        tier: ArchiveSegmentTier::HotAttached,
        segment_id: locator.segment_id,
        segment_generation: locator.segment_generation,
    };
    if locator.frame_len < FRAME_HEADER_LEN as u32 {
        return false;
    }
    match store.read(file, locator.file_offset, locator.frame_len as usize) {
        Ok(frame) => {
            proof {
                sound_by_itself(
                    store@.bytes(file),
                    locator.file_offset as int,
                    locator.frame_len as int,
                );
            }
            bytes_are_sound_frame(&frame)
        },
        Err(_) => false,
    }
}

/// The frame at `at` belongs to the intact part of a segment of which `limit` bytes are scanned.
pub open spec fn scan_accepts(s: Seq<u8>, limit: int, at: int) -> bool {
    let frame_len = u32_at(s, at + 8) as int;
    at + 64 <= limit && at + frame_len <= limit && frame_len % 8 == 0 && frame_is_sound(
        s,
        at,
        frame_len,
    )
}

/// The end of the intact frames from `at` on.
pub open spec fn scan_end(s: Seq<u8>, limit: int, at: int) -> int
    decreases limit - at,
{
    if at < limit && scan_accepts(s, limit, at) {
        scan_end(s, limit, at + u32_at(s, at + 8))
    } else {
        at
    }
}

/// The end of the intact frames does not lie beyond the scanned part.
pub proof fn scan_end_bounds(s: Seq<u8>, limit: int, at: int)
    ensures
        at <= scan_end(s, limit, at),
        at <= limit ==> scan_end(s, limit, at) <= limit,
    decreases limit - at,
{
    if at < limit && scan_accepts(s, limit, at) {
        scan_end_bounds(s, limit, at + u32_at(s, at + 8));
    }
}

/// What scanning a segment gives.
#[derive(Debug, Clone, Copy, PartialEq, Eq, Structural)]
pub struct SegmentTailScanResult {
    /// Length of the file.
    pub original_len: u64,
    /// End of the intact frames.
    pub valid_end: u64,
}

/// The part of a segment that is scanned.
pub open spec fn scan_limit(len: int, max_segment_len: u64) -> int {
    if len < max_segment_len {
        len
    } else {
        max_segment_len as int
    }
}

/// Finds the end of the intact frames of a segment.
pub fn scan_active_segment_tail(
    store: &ArchiveStore,
    file: ArchiveFile,
    max_segment_len: u64,
) -> (result: Result<SegmentTailScanResult, ArchiveRecorderError>)
    ensures
        match result {
            Ok(scan) => {
                &&& store@.has(file)
                &&& scan.original_len == store@.bytes(file).len()
                &&& scan.original_len <= MAX_FILE_LEN
                &&& scan.valid_end == scan_end(
                    store@.bytes(file),
                    scan_limit(store@.bytes(file).len() as int, max_segment_len),
                    76,
                )
            },
            Err(error) => !store@.has(file) && error == (ArchiveRecorderError::Io {
                operation: "read active segment metadata for recovery",
                path: ArchivePath::File(file),
                source: IoFault::NotFound,
            }),
        },
{
    let original_len: u64 = match store.file_len(file) {
        Some(len) => len,
        None => {
            return Err(
                ArchiveRecorderError::Io {
                    operation: "read active segment metadata for recovery",
                    path: ArchivePath::File(file),
                    source: IoFault::NotFound,
                },
            );
        },
    };
    let limit: u64 = if original_len < max_segment_len {
        original_len
    } else {
        max_segment_len
    };
    let ghost s = store@.bytes(file);
    let mut valid_end: u64 = 76;
    while valid_end < limit && limit - valid_end >= FRAME_HEADER_LEN as u64
        invariant
            store@.has(file),
            s == store@.bytes(file),
            original_len == s.len(),
            limit == scan_limit(s.len() as int, max_segment_len),
            original_len <= MAX_FILE_LEN,
            valid_end <= limit || valid_end == 76,
            scan_end(s, limit as int, 76) == scan_end(s, limit as int, valid_end as int),
        decreases limit - valid_end,
    {
        let header = match store.read(file, valid_end, FRAME_HEADER_LEN) {
            Ok(header) => header,
            Err(_) => {
                return Ok(SegmentTailScanResult { original_len, valid_end });
            },
        };
        let frame_len: u32 = read_u32(&header, FRAME_OFFSET_FRAME_LEN);
        assert(u32_at(header@, 8) == u32_at(s, valid_end + 8)) by {
            assert(header@[8] == s[valid_end + 8]);
            assert(header@[9] == s[valid_end + 9]);
            assert(header@[10] == s[valid_end + 10]);
            assert(header@[11] == s[valid_end + 11]);
        }
        if frame_len < FRAME_HEADER_LEN as u32 || frame_len % 8 != 0 || frame_len as u64 > limit
            - valid_end {
            return Ok(SegmentTailScanResult { original_len, valid_end });
        }
        let frame = match store.read(file, valid_end, frame_len as usize) {
            Ok(frame) => frame,
            Err(_) => {
                return Ok(SegmentTailScanResult { original_len, valid_end });
            },
        };
        proof {
            sound_by_itself(s, valid_end as int, frame_len as int);
        }
        if !bytes_are_sound_frame(&frame) {
            return Ok(SegmentTailScanResult { original_len, valid_end });
        }
        valid_end = valid_end + frame_len as u64;
    }
    Ok(SegmentTailScanResult { original_len, valid_end })
}

} // verus!
