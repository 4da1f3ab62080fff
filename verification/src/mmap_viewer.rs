//! Preparing a window of a file for display.

use vstd::prelude::*;
use crate::fs::MmapPreview;
use crate::text::{decode_lossy, lossy_text};

verus! {

/// Number of leading bytes of a window that are searched for a zero byte.
pub const BINARY_SNIFF_BYTES: usize = 1024;

/// First byte of the window: the offset, or the end of the file if the
/// offset lies beyond it.
pub open spec fn window_start(size: u64, offset: u64) -> int {
    if offset <= size {
        offset as int
    } else {
        size as int
    }
}

/// One past the last byte of the window.
pub open spec fn window_end(size: u64, offset: u64, length: usize) -> int {
    if offset + length <= size {
        offset + length
    } else {
        size as int
    }
}

/// A zero byte occurs near the start of the window.
pub open spec fn looks_binary(chunk: Seq<u8>) -> bool {
    exists|i: int| 0 <= i < chunk.len() && i < BINARY_SNIFF_BYTES && chunk[i] == 0
}

/// What is shown in place of a binary window.
pub open spec fn binary_notice() -> Seq<char> {
    "Binary content detected. Preview unavailable."@
}

/// The text shown for a window.
pub open spec fn preview_text(chunk: Seq<u8>) -> Seq<char> {
    if looks_binary(chunk) {
        binary_notice()
    } else {
        lossy_text(chunk)
    }
}

/// The byte range of the window of `length` bytes at `offset` in a file of
/// `size` bytes, cut off at the end of the file.
pub fn preview_window(size: u64, offset: u64, length: usize) -> (range: (u64, u64))
    ensures
        range.0 == window_start(size, offset),
        range.1 == window_end(size, offset, length),
        range.0 <= range.1 <= size,
{
    let start = if offset <= size {
        offset
    } else {
        size
    };
    let end = match offset.checked_add(length as u64) {
        Some(sum) => if sum <= size {
            sum
        } else {
            size
        },
        None => size,
    };
    (start, end)
}

/// Whether the file goes on after the window.
pub fn is_truncated(size: u64, offset: u64, length: usize) -> (truncated: bool)
    ensures
        truncated == (size > offset + length),
{
    match offset.checked_add(length as u64) {
        Some(sum) => size > sum,
        None => false,
    }
}

/// Whether a window looks binary: a zero byte among its first bytes.
pub fn is_binary_chunk(chunk: &[u8]) -> (binary: bool)
    ensures
        binary == looks_binary(chunk@),
{
    let limit = if chunk.len() < BINARY_SNIFF_BYTES {
        chunk.len()
    } else {
        BINARY_SNIFF_BYTES
    };
    let mut i: usize = 0;
    while i < limit
        invariant
            i <= limit <= chunk@.len(),
            limit <= BINARY_SNIFF_BYTES,
            limit == chunk@.len() || limit == BINARY_SNIFF_BYTES,
            forall|k: int| 0 <= k < i ==> chunk@[k] != 0,
        decreases limit - i,
    {
        if chunk[i] == 0 {
            return true;
        }
        i += 1;
    }
    false
}

/// Builds the preview of the window `chunk`, read at `offset` with the
/// requested `length` from a file of `size` bytes.
pub fn build_preview(chunk: &[u8], size: u64, offset: u64, length: usize) -> (preview: MmapPreview)
    ensures
        preview.size == size,
        preview.is_binary == looks_binary(chunk@),
        preview.content@ == preview_text(chunk@),
        preview.truncated == (size > offset + length),
{
    let is_binary = is_binary_chunk(chunk);
    let content = if is_binary {
        "Binary content detected. Preview unavailable.".to_owned()
    } else {
        decode_lossy(chunk)
    };
    MmapPreview { content, size, is_binary, truncated: is_truncated(size, offset, length) }
}

} // verus!
