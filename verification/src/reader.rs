//! Block-aligned translation of requested byte ranges into physical reads.
//!
//! A caller asks for the half-open byte range `[start, end)` of the open
//! file.  The physical read is widened to the enclosing window whose offset
//! and length are multiples of [`ALIGNMENT`]; the caller's bytes are then
//! sliced back out of that window, so the widening is invisible to callers.

use vstd::prelude::*;

verus! {

/// Physical reads are issued at offsets and lengths that are multiples of
/// this many bytes, so that block-oriented storage sees aligned requests.
pub const ALIGNMENT: u64 = 512;

/// Why a ranged read was refused or failed.
///
/// The variants carry the offsets and sizes involved, so the host can render
/// stable, machine-parseable messages.
#[derive(Clone, Copy, Debug, PartialEq, Eq, Structural)]
pub enum ReadError {
    /// The requested range has `end <= start`.
    InvalidRange,
    /// No file is currently open.
    NoFileOpen,
    /// The requested start offset is at or past the end of the file.
    StartBeyondEof { start: u64, size: u64 },
    /// The host could not seek to the aligned offset.
    SeekFailed { offset: u64 },
    /// The physical read ended before the aligned window was filled.
    UnexpectedEof,
    /// Any other I/O failure while reading.
    ReadFailed,
}

/// Why opening a file failed.  Both variants arise only from the host's
/// filesystem calls; the session state is left unchanged when they do.
#[derive(Clone, Copy, Debug, PartialEq, Eq, Structural)]
pub enum OpenError {
    /// The path could not be opened for reading.
    OpenFailed,
    /// The file's length could not be determined.
    MetadataFailed,
}

/// A validated ranged read, translated into one aligned physical read and
/// the slice of its buffer that the caller sees.
#[derive(Clone, Copy, Debug, PartialEq, Eq, Structural)]
pub struct ReadPlan {
    /// Offset of the physical read; a multiple of [`ALIGNMENT`].
    pub aligned_start: u64,
    /// Length of the physical read; a multiple of [`ALIGNMENT`].
    pub aligned_len: u64,
    /// Offset of the caller's first byte inside the physical buffer.
    pub slice_offset: u64,
    /// Number of bytes the caller receives.
    pub slice_len: u64,
}

/// `x` rounded down to a multiple of [`ALIGNMENT`].
pub open spec fn align_down(x: int) -> int {
    (x / (ALIGNMENT as int)) * (ALIGNMENT as int)
}

/// `x` rounded up to a multiple of [`ALIGNMENT`].
pub open spec fn align_up(x: int) -> int {
    if x % (ALIGNMENT as int) == 0 {
        x
    } else {
        align_down(x) + (ALIGNMENT as int)
    }
}

/// The effective end of a request against a file of length `size`: requests
/// past the end of the file are clamped to it.
pub open spec fn clamped_end(size: u64, end: u64) -> u64 {
    if end <= size {
        end
    } else {
        size
    }
}

/// What a correct plan for the request `[start, end)` against a file of
/// length `size` looks like, field by field.
pub open spec fn plan_matches(p: ReadPlan, size: u64, start: u64, end: u64) -> bool {
    let e = clamped_end(size, end) as int;
    &&& p.aligned_start == align_down(start as int)
    &&& p.aligned_len == align_up(e) - align_down(start as int)
    &&& p.slice_offset == start - align_down(start as int)
    &&& p.slice_len == e - start
}

/// Basic bounds every aligned value obeys: rounding down loses less than one
/// block, rounding up adds less than one block.
proof fn lemma_align_bounds(x: int)
    requires
        0 <= x,
    ensures
        align_down(x) <= x < align_down(x) + (ALIGNMENT as int),
        x <= align_up(x) < x + (ALIGNMENT as int),
        align_down(x) <= align_up(x),
{
}

/// Pure alignment arithmetic for a request that already passed the session's
/// checks: `start < end`, `start < size`, and the aligned end of the file
/// still fits in a `u64`.
pub fn compute_plan(size: u64, start: u64, end: u64) -> (p: ReadPlan)
    requires
        start < end,
        start < size,
        size <= u64::MAX - (ALIGNMENT - 1),
    ensures
        plan_matches(p, size, start, end),
        p.slice_offset + p.slice_len <= p.aligned_len,
        p.aligned_start + p.slice_offset == start,
        p.slice_len > 0,
{
    let e = if end <= size {
        end
    } else {
        size
    };
    proof {
        lemma_align_bounds(start as int);
        lemma_align_bounds(e as int);
    }
    let aligned_start = (start / ALIGNMENT) * ALIGNMENT;
    let aligned_end = if e % ALIGNMENT == 0 {
        e
    } else {
        (e / ALIGNMENT + 1) * ALIGNMENT
    };
    ReadPlan {
        aligned_start,
        aligned_len: aligned_end - aligned_start,
        slice_offset: start - aligned_start,
        slice_len: e - start,
    }
}

/// The bytes a correct physical read of the window `[off, off + len)` must
/// yield against a file with bytes `file`: the file's own bytes inside the
/// file, and zero padding where the window runs past the end of the file.
pub open spec fn padded_window(file: Seq<u8>, off: int, len: int) -> Seq<u8> {
    Seq::new(len as nat, |i: int| if off + i < file.len() {
        file[off + i]
    } else {
        0u8
    })
}

/// Read fidelity.  Slicing `[slice_offset, slice_offset + slice_len)` out of
/// the aligned window of a correct plan yields exactly the file's bytes at
/// `[start, min(end, size))`: requests reaching past the end of the file are
/// clamped to it, and the result is independent of whether `start` or `end`
/// is aligned, since it is stated without mention of the alignment at all.
pub proof fn lemma_plan_fidelity(file: Seq<u8>, size: u64, start: u64, end: u64, p: ReadPlan)
    requires
        file.len() == size,
        start < end,
        start < size,
        plan_matches(p, size, start, end),
    ensures
        padded_window(file, p.aligned_start as int, p.aligned_len as int).subrange(
            p.slice_offset as int,
            p.slice_offset + p.slice_len,
        ) == file.subrange(start as int, clamped_end(size, end) as int),
{
    let e = clamped_end(size, end) as int;
    lemma_align_bounds(start as int);
    lemma_align_bounds(e);
    let w = padded_window(file, p.aligned_start as int, p.aligned_len as int);
    let lhs = w.subrange(p.slice_offset as int, p.slice_offset + p.slice_len);
    let rhs = file.subrange(start as int, e);
    assert forall|i: int| 0 <= i < lhs.len() implies lhs[i] == rhs[i] by {
        assert(p.aligned_start + p.slice_offset + i == start + i);
        assert(start + i < e <= file.len());
    }
    assert(lhs =~= rhs);
}

/// Copies the caller-visible slice out of the physical window that the host
/// read (and, where the window ran past the end of the file, zero-padded).
pub fn take_window(buffer: &Vec<u8>, p: &ReadPlan) -> (r: Vec<u8>)
    requires
        buffer@.len() == p.aligned_len,
        p.slice_offset + p.slice_len <= p.aligned_len,
    ensures
        r@ == buffer@.subrange(p.slice_offset as int, p.slice_offset + p.slice_len),
{
    let n: usize = buffer.len();
    proof {
        assert(p.slice_offset <= n && p.slice_len <= n);
    }
    let off = p.slice_offset as usize;
    let len = p.slice_len as usize;
    let mut r: Vec<u8> = Vec::new();
    let mut i: usize = 0;
    while i < len
        invariant
            i <= len,
            off == p.slice_offset,
            len == p.slice_len,
            p.slice_offset + p.slice_len <= buffer@.len() <= usize::MAX,
            r@ == buffer@.subrange(off as int, off + i),
        decreases len - i,
    {
        r.push(buffer[off + i]);
        proof {
            assert(buffer@.subrange(off as int, off + i + 1) =~= buffer@.subrange(
                off as int,
                off + i,
            ).push(buffer@[off + i]));
        }
        i = i + 1;
    }
    r
}

} // verus!
