//! The process-wide session: at most one open file, its cached length, and
//! the tags that decorate it.
//!
//! The session never performs filesystem work itself.  The host opens the
//! file and reports its length through [`FileState::record_open`], and runs
//! the physical read that a [`ReadPlan`] from [`FileState::plan_read`]
//! prescribes; everything the session decides about a request is stated and
//! checked here.

use crate::reader::{compute_plan, plan_matches, ReadError, ReadPlan, ALIGNMENT};
use crate::tag::{overlapping_tags, tags_overlapping, Tag};
use vstd::prelude::*;

verus! {

/// The singleton session state.
///
/// Either no file is open — then the cached size is zero and no tags are
/// held — or one file is open, with its length as reported by the host and
/// an arbitrary set of externally populated tags.
pub struct FileState {
    opened: bool,
    size: u64,
    tags: Vec<Tag>,
}

impl FileState {
    /// Whether a file is currently open.
    pub closed spec fn spec_open(&self) -> bool {
        self.opened
    }

    /// The cached total byte length of the open file; zero when none is open.
    pub closed spec fn spec_size(&self) -> u64 {
        self.size
    }

    /// The tags held for the open file, in the session's internal order.
    pub closed spec fn spec_tags(&self) -> Seq<Tag> {
        self.tags@
    }

    /// A session with no open file has zero size and holds no tags.
    #[verifier::type_invariant]
    spec fn wf(&self) -> bool {
        !self.opened ==> self.size == 0 && self.tags@.len() == 0
    }

    /// The empty session: no file open, zero size, no tags.
    pub fn new() -> (s: Self)
        ensures
            !s.spec_open(),
            s.spec_size() == 0,
            s.spec_tags().len() == 0,
    {
        FileState { opened: false, size: 0, tags: Vec::new() }
    }

    /// Records a successful open: the host opened a file and determined its
    /// length.  Atomically replaces the session's file with the new one and
    /// clears all tags held for the previous file.  (When the host's open or
    /// metadata call fails instead, it never calls this, so the prior
    /// session state is left unchanged.)
    pub fn record_open(&mut self, size: u64)
        ensures
            final(self).spec_open(),
            final(self).spec_size() == size,
            final(self).spec_tags().len() == 0,
    {
        *self = FileState { opened: true, size, tags: Vec::new() };
    }

    /// External tag population: appends one tag for the open file.
    pub fn add_tag(&mut self, tag: Tag)
        requires
            old(self).spec_open(),
        ensures
            final(self).spec_open(),
            final(self).spec_size() == old(self).spec_size(),
            final(self).spec_tags() == old(self).spec_tags().push(tag),
    {
        proof {
            use_type_invariant(&*self);
        }
        let mut tags: Vec<Tag> = Vec::new();
        std::mem::swap(&mut tags, &mut self.tags);
        tags.push(tag);
        self.tags = tags;
    }

    /// The cached length of the open file; zero when none is open.
    pub fn size(&self) -> (r: u64)
        ensures
            r == self.spec_size(),
    {
        self.size
    }

    /// Whether a file is currently open.
    pub fn is_open(&self) -> (r: bool)
        ensures
            r == self.spec_open(),
    {
        self.opened
    }

    /// Validates a requested byte range `[start, end)` against the session
    /// and translates it into an aligned physical read.  Decides, in this
    /// order: an inverted or empty range is refused; a read without an open
    /// file is refused; a start at or past the end of the file is refused,
    /// reporting both offsets; otherwise the request is granted, its end
    /// clamped to the file's length, and the returned plan satisfies
    /// [`plan_matches`] exactly.  No file handle is touched: this takes the
    /// session immutably and performs no I/O.
    ///
    /// The host must not call this when the file is so large that the
    /// enclosing aligned window's end would not fit in a `u64`.
    pub fn plan_read(&self, start: u64, end: u64) -> (result: Result<ReadPlan, ReadError>)
        requires
            self.spec_size() <= u64::MAX - (ALIGNMENT - 1),
        ensures
            end <= start ==> result == Err::<ReadPlan, ReadError>(ReadError::InvalidRange),
            start < end && !self.spec_open() ==> result == Err::<ReadPlan, ReadError>(
                ReadError::NoFileOpen,
            ),
            start < end && self.spec_open() && start >= self.spec_size() ==> result == Err::<
                ReadPlan,
                ReadError,
            >((ReadError::StartBeyondEof { start, size: self.spec_size() })),
            start < end && self.spec_open() && start < self.spec_size() ==> (result matches Ok(p)
                && plan_matches(p, self.spec_size(), start, end) && p.slice_offset + p.slice_len
                <= p.aligned_len && p.aligned_start + p.slice_offset == start && p.slice_len > 0),
    {
        proof {
            use_type_invariant(&*self);
        }
        if end <= start {
            return Err(ReadError::InvalidRange);
        }
        if !self.opened {
            return Err(ReadError::NoFileOpen);
        }
        if start >= self.size {
            return Err(ReadError::StartBeyondEof { start, size: self.size });
        }
        Ok(compute_plan(self.size, start, end))
    }

    /// All tags overlapping the inclusive interval `[start, end]`, as
    /// independent copies, in the session's internal order.
    pub fn get_tags_in_range(&self, start: u64, end: u64) -> (result: Vec<Tag>)
        ensures
            result@ == overlapping_tags(self.spec_tags(), start, end),
    {
        tags_overlapping(&self.tags, start, end)
    }

    /// All tags, as independent copies, in the session's internal order.
    pub fn get_all_tags(&self) -> (result: Vec<Tag>)
        ensures
            result@ == self.spec_tags(),
    {
        let mut result: Vec<Tag> = Vec::new();
        let mut i: usize = 0;
        while i < self.tags.len()
            invariant
                i <= self.tags@.len(),
                result@ == self.tags@.subrange(0, i as int),
            decreases self.tags@.len() - i,
        {
            result.push(self.tags[i].clone());
            proof {
                assert(self.tags@.subrange(0, i + 1) =~= self.tags@.subrange(0, i as int).push(
                    self.tags@[i as int],
                ));
            }
            i = i + 1;
        }
        proof {
            assert(self.tags@.subrange(0, self.tags@.len() as int) =~= self.tags@);
        }
        result
    }
}

} // verus!
