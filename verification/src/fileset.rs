//! The immutable set of servable file paths, built once at startup and
//! then shared read-only by every worker.
//!
//! A path is kept as its raw bytes.  Membership is decided by comparing
//! paths segment by segment, the way the OS's own path comparison does:
//! runs of bytes between separators are the segments, and empty runs
//! (doubled or trailing separators) and single-dot runs are dropped, so
//! `a//b`, `a/./b` and `a/b/` all name the member `a/b`.  The set also
//! carries the static root directory; a request target is resolved
//! against that root before the membership test.

use crate::bytes::{bytes_eq, copy_range, first_pos, lemma_first_pos, DOT, SLASH};
use vstd::prelude::*;

verus! {

/// A segment that the OS's path comparison keeps: nonempty and not the
/// current-directory dot.
pub open spec fn keep_segment(s: Seq<u8>) -> bool {
    s.len() > 0 && s != seq![DOT]
}

/// The kept segments of a path: the byte runs between separators, with
/// empty and single-dot runs dropped.
pub open spec fn path_segments(p: Seq<u8>) -> Seq<Seq<u8>>
    decreases p.len(),
    via path_segments_decreases
{
    let cut = first_pos(p, SLASH);
    if cut == p.len() {
        if keep_segment(p) {
            seq![p]
        } else {
            Seq::empty()
        }
    } else {
        let head = p.subrange(0, cut);
        let rest = path_segments(p.subrange(cut + 1, p.len() as int));
        if keep_segment(head) {
            seq![head] + rest
        } else {
            rest
        }
    }
}

#[via_fn]
proof fn path_segments_decreases(p: Seq<u8>) {
    lemma_first_pos(p, SLASH);
}

/// Two paths name the same file when their kept segments agree.
pub open spec fn same_path(a: Seq<u8>, b: Seq<u8>) -> bool {
    path_segments(a) == path_segments(b)
}

/// Split the path from byte `from` on and append the kept segments to
/// `out`.
fn segments_from(p: &[u8], from: usize, out: &mut Vec<Vec<u8>>)
    requires
        from <= p@.len(),
    ensures
        final(out)@.map_values(|s: Vec<u8>| s@) == old(out)@.map_values(|s: Vec<u8>| s@)
            + path_segments(p@.subrange(from as int, p@.len() as int)),
    decreases p@.len() - from,
{
    let ghost tail = p@.subrange(from as int, p@.len() as int);
    proof {
        lemma_first_pos(tail, SLASH);
    }
    let mut i: usize = from;
    while i < p.len() && p[i] != SLASH
        invariant
            from <= i <= p@.len(),
            forall|j: int| from <= j < i ==> p@[j] != SLASH,
        decreases p@.len() - i,
    {
        i = i + 1;
    }
    proof {
        assert(forall|j: int| 0 <= j < i - from ==> tail[j] == p@[j + from]);
        assert(first_pos(tail, SLASH) == i - from) by {
            if first_pos(tail, SLASH) < i - from {
                assert(tail[first_pos(tail, SLASH)] == SLASH);
            }
            if first_pos(tail, SLASH) > i - from {
                assert(i < p@.len());
                assert(tail[i - from] == SLASH);
            }
        }
    }
    let seg = copy_range(p, from, i);
    let keep = seg.len() > 0 && !(seg.len() == 1 && seg[0] == DOT);
    proof {
        assert((seg@ == seq![DOT]) == (seg@.len() == 1 && seg@[0] == DOT)) by {
            if seg@.len() == 1 && seg@[0] == DOT {
                assert(seg@ =~= seq![DOT]);
            }
        }
    }
    if keep {
        out.push(seg);
    }
    if i == p.len() {
        proof {
            assert(seg@ =~= tail);
            if keep {
                assert(out@.map_values(|s: Vec<u8>| s@) =~= old(out)@.map_values(
                    |s: Vec<u8>| s@,
                ) + path_segments(tail));
            } else {
                assert(out@.map_values(|s: Vec<u8>| s@) =~= old(out)@.map_values(
                    |s: Vec<u8>| s@,
                ) + path_segments(tail));
            }
        }
    } else {
        let ghost mid = out@.map_values(|s: Vec<u8>| s@);
        segments_from(p, i + 1, out);
        proof {
            assert(seg@ =~= tail.subrange(0, i - from));
            assert(p@.subrange(i + 1, p@.len() as int) =~= tail.subrange(
                i - from + 1,
                tail.len() as int,
            ));
            assert(out@.map_values(|s: Vec<u8>| s@) =~= old(out)@.map_values(|s: Vec<u8>| s@)
                + path_segments(tail));
        }
    }
}

/// The kept segments of `p`, each as a fresh vector.
pub fn segments_of(p: &[u8]) -> (segs: Vec<Vec<u8>>)
    ensures
        segs@.map_values(|s: Vec<u8>| s@) == path_segments(p@),
{
    let mut segs: Vec<Vec<u8>> = Vec::new();
    segments_from(p, 0, &mut segs);
    proof {
        assert(p@.subrange(0, p@.len() as int) =~= p@);
        assert(segs@.map_values(|s: Vec<u8>| s@) =~= path_segments(p@));
    }
    segs
}

/// Whether two segment lists agree.
fn seg_lists_eq(a: &Vec<Vec<u8>>, b: &Vec<Vec<u8>>) -> (r: bool)
    ensures
        r == (a@.map_values(|s: Vec<u8>| s@) == b@.map_values(|s: Vec<u8>| s@)),
{
    if a.len() != b.len() {
        proof {
            assert(a@.map_values(|s: Vec<u8>| s@).len() != b@.map_values(|s: Vec<u8>| s@).len());
        }
        return false;
    }
    let mut i: usize = 0;
    while i < a.len()
        invariant
            i <= a@.len(),
            a@.len() == b@.len(),
            forall|j: int| 0 <= j < i ==> a@[j]@ == b@[j]@,
        decreases a@.len() - i,
    {
        if !bytes_eq(a[i].as_slice(), b[i].as_slice()) {
            proof {
                assert(a@.map_values(|s: Vec<u8>| s@)[i as int] != b@.map_values(
                    |s: Vec<u8>| s@,
                )[i as int]);
            }
            return false;
        }
        i = i + 1;
    }
    proof {
        assert(a@.map_values(|s: Vec<u8>| s@) =~= b@.map_values(|s: Vec<u8>| s@));
    }
    true
}

/// Immutable set of absolute file paths under one static root.
#[derive(Clone)]
pub struct StaticFileSet {
    root: Vec<u8>,
    paths: Vec<Vec<u8>>,
}

impl StaticFileSet {
    /// The static root directory the paths live under.
    pub closed spec fn root(self) -> Seq<u8> {
        self.root@
    }

    /// The servable paths, in the order they were discovered.
    pub closed spec fn paths(self) -> Seq<Seq<u8>> {
        self.paths@.map_values(|p: Vec<u8>| p@)
    }

    /// The servable paths as a set of segment lists: what membership is
    /// decided against.
    pub open spec fn segment_set(self) -> Set<Seq<Seq<u8>>> {
        self.paths().map_values(|p: Seq<u8>| path_segments(p)).to_set()
    }

    /// Build the set from the discovered paths.  An empty set is refused:
    /// the server cannot serve an unknown file universe, so startup treats
    /// this as fatal.
    pub fn new(root: Vec<u8>, paths: Vec<Vec<u8>>) -> (r: Option<StaticFileSet>)
        ensures
            match r {
                Some(s) => paths@.len() > 0 && s.root() == root@ && s.paths() == paths@.map_values(
                    |p: Vec<u8>| p@,
                ),
                None => paths@.len() == 0,
            },
    {
        if paths.len() == 0 {
            None
        } else {
            Some(StaticFileSet { root, paths })
        }
    }

    /// Number of stored path entries.  The builder keeps the paths as
    /// given and does not collapse duplicates; the verified directory
    /// walk already yields pairwise distinct paths, so for a set built
    /// from its output this is the member count.
    pub fn len(&self) -> (n: usize)
        ensures
            n == self.paths().len(),
    {
        self.paths.len()
    }

    /// Whether `path` names a member of the set, comparing segment by
    /// segment.
    pub fn contains(&self, path: &[u8]) -> (r: bool)
        ensures
            r == self.segment_set().contains(path_segments(path@)),
    {
        let target = segments_of(path);
        let mut i: usize = 0;
        while i < self.paths.len()
            invariant
                i <= self.paths@.len(),
                target@.map_values(|s: Vec<u8>| s@) == path_segments(path@),
                forall|j: int|
                    0 <= j < i ==> path_segments(#[trigger] self.paths@[j]@) != path_segments(
                        path@,
                    ),
            decreases self.paths@.len() - i,
        {
            let member = segments_of(self.paths[i].as_slice());
            if seg_lists_eq(&member, &target) {
                proof {
                    let mapped = self.paths().map_values(|p: Seq<u8>| path_segments(p));
                    assert(mapped[i as int] == path_segments(path@));
                    assert(mapped.contains(path_segments(path@)));
                }
                return true;
            }
            i = i + 1;
        }
        proof {
            let mapped = self.paths().map_values(|p: Seq<u8>| path_segments(p));
            assert forall|j: int| 0 <= j < mapped.len() implies mapped[j] != path_segments(
                path@,
            ) by {
                assert(path_segments(self.paths@[j]@) != path_segments(path@));
            }
            assert(!mapped.contains(path_segments(path@)));
        }
        false
    }

    /// The request target resolved against the static root.
    pub fn resolve(&self, target: &[u8]) -> (p: Vec<u8>)
        ensures
            p@ == self.root() + target@,
    {
        let mut p: Vec<u8> = Vec::new();
        crate::bytes::push_bytes(&mut p, self.root.as_slice());
        crate::bytes::push_bytes(&mut p, target);
        proof {
            assert(p@ =~= self.root() + target@);
        }
        p
    }
}

} // verus!
