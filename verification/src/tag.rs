//! Byte-range annotations and the interval-overlap query over them.

use vstd::prelude::*;

verus! {

/// An annotation over an inclusive byte interval `[start, end]` of the open
/// file, carrying a short identifier, a display label, and an optional color
/// that is opaque to the core.
#[derive(Debug, PartialEq)]
pub struct Tag {
    pub start: u64,
    pub end: u64,
    pub name: String,
    pub display_name: String,
    pub color: Option<String>,
}

/// A tag is well formed when its interval is not inverted.
pub open spec fn tag_wf(t: Tag) -> bool {
    t.start <= t.end
}

/// The overlap relation between the inclusive interval of `t` and the
/// inclusive query interval `[start, end]`: the two intervals share at least
/// one point, so a tag touching the query at a single boundary byte counts.
pub open spec fn tag_overlaps(t: Tag, start: u64, end: u64) -> bool {
    t.end >= start && t.start <= end
}

/// The tags of `tags` that overlap the inclusive query interval
/// `[start, end]`, in their original order.
pub open spec fn overlapping_tags(tags: Seq<Tag>, start: u64, end: u64) -> Seq<Tag> {
    tags.filter(|t: Tag| tag_overlaps(t, start, end))
}

/// Overlap symmetry: the overlapping-tags query keeps exactly the tags that
/// overlap the inclusive query interval `[start, end]`, and no others.
pub proof fn lemma_overlap_symmetry(tags: Seq<Tag>, start: u64, end: u64)
    ensures
        forall|t: Tag|
            #[trigger] overlapping_tags(tags, start, end).contains(t) <==> (tags.contains(t)
                && tag_overlaps(t, start, end)),
{
    broadcast use Seq::lemma_filter_pred, Seq::lemma_filter_contains, Seq::lemma_filter_contains_rev;

    let f = overlapping_tags(tags, start, end);
    assert forall|t: Tag| f.contains(t) implies tags.contains(t) && tag_overlaps(t, start, end) by {
        let j = choose|j: int| 0 <= j < f.len() && f[j] == t;
        assert(f[j] == t);
    }
    assert forall|t: Tag| tags.contains(t) && tag_overlaps(t, start, end) implies f.contains(t) by {
        let i = choose|i: int| 0 <= i < tags.len() && tags[i] == t;
        assert(tags[i] == t && tag_overlaps(tags[i], start, end));
    }
}

/// Overlap monotonicity: enlarging the query interval never loses a tag —
/// every tag returned for `[s1, e1]` is also returned for any containing
/// interval `[s2, e2]`.
pub proof fn lemma_overlap_monotonic(tags: Seq<Tag>, s1: u64, e1: u64, s2: u64, e2: u64)
    requires
        s2 <= s1,
        e1 <= e2,
    ensures
        forall|t: Tag|
            #[trigger] overlapping_tags(tags, s1, e1).contains(t) ==> overlapping_tags(
                tags,
                s2,
                e2,
            ).contains(t),
{
    lemma_overlap_symmetry(tags, s1, e1);
    lemma_overlap_symmetry(tags, s2, e2);
}

/// Boundary inclusion: a well-formed tag that touches the query interval at
/// a single byte — `t.end == start` or `t.start == end` — overlaps it.
pub proof fn lemma_boundary_inclusion(t: Tag, start: u64, end: u64)
    requires
        tag_wf(t),
        start <= end,
        t.end == start || t.start == end,
    ensures
        tag_overlaps(t, start, end),
{
}

impl Clone for Tag {
    fn clone(&self) -> (r: Self)
        ensures
            r == *self,
    {
        Tag {
            start: self.start,
            end: self.end,
            name: self.name.clone(),
            display_name: self.display_name.clone(),
            color: match &self.color {
                Some(c) => Some(c.clone()),
                None => None,
            },
        }
    }
}

/// All tags of `tags` that overlap the inclusive interval `[start, end]`, as
/// independent copies, in their original order.
pub fn tags_overlapping(tags: &Vec<Tag>, start: u64, end: u64) -> (result: Vec<Tag>)
    ensures
        result@ == overlapping_tags(tags@, start, end),
{
    let mut result: Vec<Tag> = Vec::new();
    let mut i: usize = 0;
    while i < tags.len()
        invariant
            i <= tags@.len(),
            result@ == overlapping_tags(tags@.subrange(0, i as int), start, end),
        decreases tags@.len() - i,
    {
        let t = &tags[i];
        if t.end >= start && t.start <= end {
            result.push(t.clone());
        }
        proof {
            broadcast use Seq::lemma_filter_push;

            assert(tags@.subrange(0, i + 1) =~= tags@.subrange(0, i as int).push(tags@[i as int]));
        }
        i = i + 1;
    }
    proof {
        assert(tags@.subrange(0, tags@.len() as int) =~= tags@);
    }
    result
}

} // verus!
