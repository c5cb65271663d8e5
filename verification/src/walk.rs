//! A model of the startup walk over the static-file directory tree.
//!
//! The walk itself reads the disk, so it runs outside this library and
//! hands the tree it found in as a value.  Collecting the servable paths
//! from that value is verified here: every leaf file contributes exactly
//! the path of its directory joined with its name, and — because sibling
//! names in one directory are distinct — the collected paths are
//! pairwise distinct, so their number equals the number of leaf files,
//! independent of nesting depth.

use crate::bytes::{push_bytes, SLASH};
use vstd::prelude::*;
use vstd::seq_lib::lemma_no_dup_in_concat;

verus! {

/// One entry of a directory tree, as the startup walk finds it.
pub enum DirEntry {
    /// A non-directory entry: a servable file with this name.
    File { name: Vec<u8> },
    /// A subdirectory with this name and these entries.
    Dir { name: Vec<u8>, entries: Vec<DirEntry> },
}

/// The entry's own name.
pub open spec fn entry_name(e: DirEntry) -> Seq<u8> {
    match e {
        DirEntry::File { name } => name@,
        DirEntry::Dir { name, .. } => name@,
    }
}

/// A directory path joined with an entry name.
pub open spec fn joined(prefix: Seq<u8>, name: Seq<u8>) -> Seq<u8> {
    prefix + seq![SLASH] + name
}

/// Number of leaf files in one entry.
pub open spec fn leaf_count(e: DirEntry) -> nat
    decreases e,
{
    match e {
        DirEntry::File { .. } => 1,
        DirEntry::Dir { entries, .. } => leaf_count_all(entries@),
    }
}

/// Number of leaf files under a sequence of sibling entries.
pub open spec fn leaf_count_all(es: Seq<DirEntry>) -> nat
    decreases es,
{
    if es.len() == 0 {
        0
    } else {
        leaf_count(es[0]) + leaf_count_all(es.drop_first())
    }
}

/// The full paths of the leaf files in one entry, depth first.
pub open spec fn leaf_paths(prefix: Seq<u8>, e: DirEntry) -> Seq<Seq<u8>>
    decreases e,
{
    match e {
        DirEntry::File { name } => seq![joined(prefix, name@)],
        DirEntry::Dir { name, entries } => leaf_paths_all(joined(prefix, name@), entries@),
    }
}

/// The full paths of the leaf files under sibling entries.
pub open spec fn leaf_paths_all(prefix: Seq<u8>, es: Seq<DirEntry>) -> Seq<Seq<u8>>
    decreases es,
{
    if es.len() == 0 {
        Seq::empty()
    } else {
        leaf_paths(prefix, es[0]) + leaf_paths_all(prefix, es.drop_first())
    }
}

/// Collecting distributes over splitting the siblings.
proof fn lemma_leaf_paths_all_concat(prefix: Seq<u8>, a: Seq<DirEntry>, b: Seq<DirEntry>)
    ensures
        leaf_paths_all(prefix, a + b) == leaf_paths_all(prefix, a) + leaf_paths_all(prefix, b),
    decreases a,
{
    if a.len() == 0 {
        assert(a + b =~= b);
        assert(leaf_paths_all(prefix, a) + leaf_paths_all(prefix, b) =~= leaf_paths_all(prefix, b));
    } else {
        assert((a + b)[0] == a[0]);
        assert((a + b).drop_first() =~= a.drop_first() + b);
        lemma_leaf_paths_all_concat(prefix, a.drop_first(), b);
        assert(leaf_paths_all(prefix, a + b) =~= leaf_paths_all(prefix, a) + leaf_paths_all(
            prefix,
            b,
        ));
    }
}

/// One more sibling appends exactly that sibling's paths.
proof fn lemma_leaf_paths_all_snoc(prefix: Seq<u8>, es: Seq<DirEntry>, i: int)
    requires
        0 <= i < es.len(),
    ensures
        leaf_paths_all(prefix, es.subrange(0, i + 1)) == leaf_paths_all(prefix, es.subrange(0, i))
            + leaf_paths(prefix, es[i]),
{
    assert(es.subrange(0, i + 1) =~= es.subrange(0, i) + seq![es[i]]);
    lemma_leaf_paths_all_concat(prefix, es.subrange(0, i), seq![es[i]]);
    assert(seq![es[i]].drop_first() =~= Seq::<DirEntry>::empty());
    assert(leaf_paths_all(prefix, Seq::<DirEntry>::empty()) =~= Seq::<Seq<u8>>::empty());
    assert(leaf_paths_all(prefix, seq![es[i]]) =~= leaf_paths(prefix, es[i]));
}

/// There are as many collected paths as leaf files.
pub proof fn lemma_leaf_paths_count(prefix: Seq<u8>, e: DirEntry)
    ensures
        leaf_paths(prefix, e).len() == leaf_count(e),
    decreases e,
{
    match e {
        DirEntry::File { .. } => {},
        DirEntry::Dir { name, entries } => {
            lemma_leaf_paths_all_count(joined(prefix, name@), entries@);
        },
    }
}

/// There are as many collected paths as leaf files, over siblings.
pub proof fn lemma_leaf_paths_all_count(prefix: Seq<u8>, es: Seq<DirEntry>)
    ensures
        leaf_paths_all(prefix, es).len() == leaf_count_all(es),
    decreases es,
{
    if es.len() > 0 {
        lemma_leaf_paths_count(prefix, es[0]);
        lemma_leaf_paths_all_count(prefix, es.drop_first());
    }
}

/// Append the full paths of every leaf file under `e` to `out`, depth
/// first: the verified core of the startup walk.
pub fn collect_leaf_paths(prefix: &Vec<u8>, e: &DirEntry, out: &mut Vec<Vec<u8>>)
    ensures
        final(out)@.map_values(|p: Vec<u8>| p@) == old(out)@.map_values(|p: Vec<u8>| p@)
            + leaf_paths(prefix@, *e),
    decreases *e,
{
    match e {
        DirEntry::File { name } => {
            let mut p: Vec<u8> = Vec::new();
            push_bytes(&mut p, prefix.as_slice());
            p.push(SLASH);
            push_bytes(&mut p, name.as_slice());
            proof {
                assert(p@ =~= joined(prefix@, name@));
            }
            out.push(p);
            proof {
                assert(out@.map_values(|q: Vec<u8>| q@) =~= old(out)@.map_values(|q: Vec<u8>| q@)
                    + leaf_paths(prefix@, *e));
            }
        },
        DirEntry::Dir { name, entries } => {
            let mut p: Vec<u8> = Vec::new();
            push_bytes(&mut p, prefix.as_slice());
            p.push(SLASH);
            push_bytes(&mut p, name.as_slice());
            proof {
                assert(p@ =~= joined(prefix@, name@));
                assert(*entries == e->Dir_entries);
                assert(decreases_to!(*e => e->Dir_entries));
            }
            collect_leaf_paths_all(&p, entries, out);
        },
    }
}

/// Append the full paths of every leaf file under the sibling entries
/// `es` — the entries of the directory at `prefix` — to `out`.
pub fn collect_leaf_paths_all(prefix: &Vec<u8>, es: &Vec<DirEntry>, out: &mut Vec<Vec<u8>>)
    ensures
        final(out)@.map_values(|p: Vec<u8>| p@) == old(out)@.map_values(|p: Vec<u8>| p@)
            + leaf_paths_all(prefix@, es@),
    decreases *es,
{
    let mut i: usize = 0;
    proof {
        assert(leaf_paths_all(prefix@, es@.subrange(0, 0)) =~= Seq::<Seq<u8>>::empty());
        assert(out@.map_values(|q: Vec<u8>| q@) =~= old(out)@.map_values(|q: Vec<u8>| q@)
            + leaf_paths_all(prefix@, es@.subrange(0, 0)));
    }
    while i < es.len()
        invariant
            i <= es@.len(),
            out@.map_values(|q: Vec<u8>| q@) == old(out)@.map_values(|q: Vec<u8>| q@)
                + leaf_paths_all(prefix@, es@.subrange(0, i as int)),
        decreases es@.len() - i,
    {
        collect_leaf_paths(prefix, &es[i], out);
        proof {
            lemma_leaf_paths_all_snoc(prefix@, es@, i as int);
        }
        i = i + 1;
    }
    proof {
        assert(es@.subrange(0, es@.len() as int) =~= es@);
    }
}

/// A usable entry name: nonempty and free of the path separator, as the
/// names of real directory entries are.
pub open spec fn valid_name(name: Seq<u8>) -> bool {
    name.len() > 0 && forall|i: int| 0 <= i < name.len() ==> name[i] != SLASH
}

/// A tree as a real directory walk produces it: every name is usable
/// and sibling names are pairwise distinct.
pub open spec fn well_formed(e: DirEntry) -> bool
    decreases e,
{
    match e {
        DirEntry::File { name } => valid_name(name@),
        DirEntry::Dir { name, entries } => valid_name(name@) && well_formed_all(entries@),
    }
}

/// Well-formedness of a directory's entries.
pub open spec fn well_formed_all(es: Seq<DirEntry>) -> bool
    decreases es,
{
    &&& forall|i: int| 0 <= i < es.len() ==> well_formed(#[trigger] es[i])
    &&& forall|i: int, j: int|
        0 <= i < j < es.len() ==> entry_name(es[i]) != entry_name(es[j])
}

/// The shape every leaf path under an entry has: the directory prefix,
/// a separator, the entry's name, and then either nothing at all or
/// another separator.
pub open spec fn rooted_at(prefix: Seq<u8>, name: Seq<u8>, p: Seq<u8>) -> bool {
    let pl = prefix.len() as int;
    let stem = pl + 1 + name.len() as int;
    &&& p.len() >= stem
    &&& p.subrange(0, pl) == prefix
    &&& p[pl] == SLASH
    &&& p.subrange(pl + 1, stem) == name
    &&& (p.len() == stem || p[stem] == SLASH)
}

/// A name's validity follows the entry around.
proof fn lemma_wf_valid_name(e: DirEntry)
    requires
        well_formed(e),
    ensures
        valid_name(entry_name(e)),
{
    match e {
        DirEntry::File { .. } => {},
        DirEntry::Dir { .. } => {},
    }
}

/// A path rooted below a subdirectory is rooted at that subdirectory's
/// own name one level up.
proof fn lemma_rooted_extends(prefix: Seq<u8>, name: Seq<u8>, child: Seq<u8>, p: Seq<u8>)
    requires
        rooted_at(joined(prefix, name), child, p),
    ensures
        rooted_at(prefix, name, p),
{
    let q = joined(prefix, name);
    let pl = prefix.len() as int;
    let stem = pl + 1 + name.len() as int;
    assert(q.len() == stem);
    assert(forall|k: int| 0 <= k < q.len() ==> p[k] == q[k]) by {
        assert(forall|k: int|
            0 <= k < q.len() ==> p[k] == #[trigger] p.subrange(0, q.len() as int)[k]);
    }
    assert(p.subrange(0, pl) =~= prefix);
    assert(p.subrange(pl + 1, stem) =~= name);
    assert(p.len() > stem);
    assert(p[stem] == SLASH);
}

/// One path cannot be rooted at two different names.
proof fn lemma_rooted_same_name(prefix: Seq<u8>, n1: Seq<u8>, n2: Seq<u8>, p: Seq<u8>)
    requires
        valid_name(n1),
        valid_name(n2),
        rooted_at(prefix, n1, p),
        rooted_at(prefix, n2, p),
    ensures
        n1 == n2,
{
    let pl = prefix.len() as int;
    if n1.len() < n2.len() {
        let q = pl + 1 + n1.len() as int;
        assert(p[q] == n2[n1.len() as int]) by {
            assert(p.subrange(pl + 1, pl + 1 + n2.len() as int)[n1.len() as int] == p[q]);
        }
        assert(p.len() > q);
        assert(p[q] == SLASH);
        assert(false);
    } else if n2.len() < n1.len() {
        let q = pl + 1 + n2.len() as int;
        assert(p[q] == n1[n2.len() as int]) by {
            assert(p.subrange(pl + 1, pl + 1 + n1.len() as int)[n2.len() as int] == p[q]);
        }
        assert(p.len() > q);
        assert(p[q] == SLASH);
        assert(false);
    } else {
        assert(n1 =~= n2) by {
            assert(forall|k: int|
                0 <= k < n1.len() ==> #[trigger] n1[k] == p.subrange(
                    pl + 1,
                    pl + 1 + n1.len() as int,
                )[k]);
            assert(forall|k: int|
                0 <= k < n2.len() ==> #[trigger] n2[k] == p.subrange(
                    pl + 1,
                    pl + 1 + n2.len() as int,
                )[k]);
        }
    }
}

/// Every leaf path under an entry is rooted at that entry's name.
proof fn lemma_paths_rooted(prefix: Seq<u8>, e: DirEntry)
    requires
        well_formed(e),
    ensures
        forall|k: int|
            0 <= k < leaf_paths(prefix, e).len() ==> rooted_at(
                prefix,
                entry_name(e),
                #[trigger] leaf_paths(prefix, e)[k],
            ),
    decreases e,
{
    match e {
        DirEntry::File { name } => {
            let p = joined(prefix, name@);
            let pl = prefix.len() as int;
            assert(p.subrange(0, pl) =~= prefix);
            assert(p.subrange(pl + 1, pl + 1 + name@.len() as int) =~= name@);
            assert(rooted_at(prefix, name@, p));
        },
        DirEntry::Dir { name, entries } => {
            let q = joined(prefix, name@);
            lemma_paths_all_rooted(q, entries@);
            let paths = leaf_paths_all(q, entries@);
            assert(leaf_paths(prefix, e) == paths);
            assert forall|k: int| 0 <= k < leaf_paths(prefix, e).len() implies rooted_at(
                prefix,
                entry_name(e),
                #[trigger] leaf_paths(prefix, e)[k],
            ) by {
                let p = leaf_paths(prefix, e)[k];
                assert(p == paths[k]);
                let j = choose|j: int|
                    0 <= j < entries@.len() && rooted_at(q, entry_name(entries@[j]), paths[k]);
                lemma_rooted_extends(prefix, name@, entry_name(entries@[j]), p);
            }
        },
    }
}

/// Every leaf path under sibling entries is rooted at some sibling's name.
proof fn lemma_paths_all_rooted(prefix: Seq<u8>, es: Seq<DirEntry>)
    requires
        well_formed_all(es),
    ensures
        forall|k: int|
            0 <= k < leaf_paths_all(prefix, es).len() ==> exists|j: int|
                0 <= j < es.len() && rooted_at(
                    prefix,
                    entry_name(es[j]),
                    #[trigger] leaf_paths_all(prefix, es)[k],
                ),
    decreases es,
{
    if es.len() > 0 {
        let a = leaf_paths(prefix, es[0]);
        let rest = es.drop_first();
        let b = leaf_paths_all(prefix, rest);
        lemma_paths_rooted(prefix, es[0]);
        assert(well_formed_all(rest)) by {
            assert(forall|i: int| 0 <= i < rest.len() ==> #[trigger] rest[i] == es[i + 1]);
        }
        lemma_paths_all_rooted(prefix, rest);
        assert forall|k: int| 0 <= k < leaf_paths_all(prefix, es).len() implies exists|j: int|
            0 <= j < es.len() && rooted_at(
                prefix,
                entry_name(es[j]),
                #[trigger] leaf_paths_all(prefix, es)[k],
            ) by {
            let p = leaf_paths_all(prefix, es)[k];
            if k < a.len() {
                assert(p == a[k]);
                assert(rooted_at(prefix, entry_name(es[0]), p));
            } else {
                assert(p == b[k - a.len()]);
                let j = choose|j: int|
                    0 <= j < rest.len() && rooted_at(prefix, entry_name(rest[j]), b[k - a.len()]);
                assert(rest[j] == es[j + 1]);
                assert(rooted_at(prefix, entry_name(es[j + 1]), p));
            }
        }
    }
}

/// The leaf paths under one well-formed entry are pairwise distinct.
proof fn lemma_paths_distinct(prefix: Seq<u8>, e: DirEntry)
    requires
        well_formed(e),
    ensures
        leaf_paths(prefix, e).no_duplicates(),
    decreases e,
{
    match e {
        DirEntry::File { .. } => {},
        DirEntry::Dir { name, entries } => {
            lemma_paths_all_distinct(joined(prefix, name@), entries@);
        },
    }
}

/// The leaf paths under well-formed siblings are pairwise distinct:
/// distinct sibling names make distinct paths, and within one sibling
/// the paths are distinct by induction.
proof fn lemma_paths_all_distinct(prefix: Seq<u8>, es: Seq<DirEntry>)
    requires
        well_formed_all(es),
    ensures
        leaf_paths_all(prefix, es).no_duplicates(),
    decreases es,
{
    if es.len() > 0 {
        let a = leaf_paths(prefix, es[0]);
        let rest = es.drop_first();
        let b = leaf_paths_all(prefix, rest);
        lemma_paths_distinct(prefix, es[0]);
        assert(well_formed_all(rest)) by {
            assert(forall|i: int| 0 <= i < rest.len() ==> #[trigger] rest[i] == es[i + 1]);
        }
        lemma_paths_all_distinct(prefix, rest);
        lemma_paths_rooted(prefix, es[0]);
        lemma_paths_all_rooted(prefix, rest);
        assert forall|i: int, j: int| 0 <= i < a.len() && 0 <= j < b.len() implies a[i]
            != b[j] by {
            if a[i] == b[j] {
                let p = a[i];
                assert(rooted_at(prefix, entry_name(es[0]), p));
                let j2 = choose|j2: int|
                    0 <= j2 < rest.len() && rooted_at(prefix, entry_name(rest[j2]), b[j]);
                assert(rest[j2] == es[j2 + 1]);
                lemma_wf_valid_name(es[0]);
                lemma_wf_valid_name(es[j2 + 1]);
                lemma_rooted_same_name(prefix, entry_name(es[0]), entry_name(es[j2 + 1]), p);
                assert(false);
            }
        }
        lemma_no_dup_in_concat(a, b);
    }
}

/// For any directory tree of well-formed entries, the collected paths
/// are pairwise distinct, and the set they form has exactly as many
/// members as the tree has leaf files — independent of nesting depth.
pub proof fn lemma_leaf_path_set_cardinality(prefix: Seq<u8>, es: Seq<DirEntry>)
    requires
        well_formed_all(es),
    ensures
        leaf_paths_all(prefix, es).no_duplicates(),
        leaf_paths_all(prefix, es).to_set().len() == leaf_count_all(es),
{
    lemma_paths_all_distinct(prefix, es);
    lemma_leaf_paths_all_count(prefix, es);
    leaf_paths_all(prefix, es).unique_seq_to_set();
}

} // verus!
