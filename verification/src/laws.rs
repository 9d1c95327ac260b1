//! The laws the search engine obeys, stated over the spec functions its
//! contracts use and proved once and for all: what the result set is, that
//! the empty pattern lists every regular file once, that the counters are
//! exact, and that reruns over the same snapshot agree.

use vstd::prelude::*;
use crate::matching::lemma_empty_pattern_matches;
use crate::engine::FsEntry;
use crate::engine::Search;
use crate::engine::entry_matches;
use crate::engine::matching_paths;

verus! {

/// Law: a traversal's results are exactly the paths of the visited regular
/// files whose name contains the pattern — no path appears for any other
/// reason, and none of those paths is missing.
pub proof fn lemma_matching_paths_membership(entries: Seq<FsEntry>, pat: Seq<char>, p: Seq<char>)
    ensures
        matching_paths(entries, pat).contains(p) <==> exists|i: int|
            0 <= i < entries.len() && #[trigger] entry_matches(entries[i], pat)
                && entries[i].path@ == p,
    decreases entries.len(),
{
    if entries.len() > 0 {
        let prefix = entries.drop_last();
        let n = entries.len() - 1;
        lemma_matching_paths_membership(prefix, pat, p);
        let rest = matching_paths(prefix, pat);
        assert(forall|i: int| 0 <= i < n ==> prefix[i] == entries[i]);
        if entry_matches(entries.last(), pat) {
            let mp = rest.push(entries.last().path@);
            assert(matching_paths(entries, pat) == mp);
            if mp.contains(p) {
                let j = choose|j: int| 0 <= j < mp.len() && mp[j] == p;
                if j < rest.len() {
                    assert(rest[j] == p);
                    assert(rest.contains(p));
                } else {
                    assert(p == entries.last().path@);
                    assert(entry_matches(entries[n], pat) && entries[n].path@ == p);
                }
            }
            if exists|i: int|
                0 <= i < entries.len() && #[trigger] entry_matches(entries[i], pat)
                    && entries[i].path@ == p {
                let i = choose|i: int|
                    0 <= i < entries.len() && #[trigger] entry_matches(entries[i], pat)
                        && entries[i].path@ == p;
                if i < n {
                    assert(entry_matches(prefix[i], pat) && prefix[i].path@ == p);
                    assert(rest.contains(p));
                    let j = choose|j: int| 0 <= j < rest.len() && rest[j] == p;
                    assert(mp[j] == p);
                } else {
                    assert(mp[rest.len() as int] == p);
                }
                assert(mp.contains(p));
            }
        } else {
            assert(matching_paths(entries, pat) == rest);
            if rest.contains(p) {
                let i = choose|i: int|
                    0 <= i < prefix.len() && #[trigger] entry_matches(prefix[i], pat)
                        && prefix[i].path@ == p;
                assert(entry_matches(entries[i], pat) && entries[i].path@ == p);
            }
            if exists|i: int|
                0 <= i < entries.len() && #[trigger] entry_matches(entries[i], pat)
                    && entries[i].path@ == p {
                let i = choose|i: int|
                    0 <= i < entries.len() && #[trigger] entry_matches(entries[i], pat)
                        && entries[i].path@ == p;
                assert(i < n);
                assert(entry_matches(prefix[i], pat) && prefix[i].path@ == p);
            }
        }
    }
}

/// Law: the result set of a traversal equals exactly the set of paths of
/// the visited regular files whose name contains the pattern.
pub proof fn lemma_result_set_exact(entries: Seq<FsEntry>, pat: Seq<char>)
    ensures
        matching_paths(entries, pat).to_set() == Set::new(|p: Seq<char>| exists|i: int|
            0 <= i < entries.len() && #[trigger] entry_matches(entries[i], pat)
                && entries[i].path@ == p),
{
    broadcast use vstd::set::group_set_axioms;

    let lhs = matching_paths(entries, pat).to_set();
    let rhs = Set::new(|p: Seq<char>| exists|i: int|
        0 <= i < entries.len() && #[trigger] entry_matches(entries[i], pat)
            && entries[i].path@ == p);
    assert forall|p: Seq<char>| lhs.contains(p) == rhs.contains(p) by {
        lemma_matching_paths_membership(entries, pat, p);
    }
    assert(lhs =~= rhs);
}

/// Law: every result a traversal produces is the path of some visited entry;
/// in particular a search that scans no archive — archive search disabled —
/// yields no line that the engine composed out of an archive.
pub proof fn lemma_walk_results_are_entry_paths(entries: Seq<FsEntry>, pat: Seq<char>, p: Seq<char>)
    requires
        matching_paths(entries, pat).contains(p),
    ensures
        exists|i: int| #![trigger entries[i]] 0 <= i < entries.len() && entries[i].path@ == p,
{
    lemma_matching_paths_membership(entries, pat, p);
    let i = choose|i: int|
        0 <= i < entries.len() && #[trigger] entry_matches(entries[i], pat)
            && entries[i].path@ == p;
    assert(0 <= i < entries.len() && entries[i].path@ == p);
}

/// One direction of the rerun law, shared by both applications below.
proof fn lemma_membership_carries_over(
    e1: Seq<FsEntry>,
    e2: Seq<FsEntry>,
    pat: Seq<char>,
    p: Seq<char>,
)
    requires
        e1.to_set() == e2.to_set(),
        matching_paths(e1, pat).contains(p),
    ensures
        matching_paths(e2, pat).contains(p),
{
    broadcast use vstd::set::group_set_axioms;

    lemma_matching_paths_membership(e1, pat, p);
    lemma_matching_paths_membership(e2, pat, p);
    let i = choose|i: int|
        0 <= i < e1.len() && #[trigger] entry_matches(e1[i], pat) && e1[i].path@ == p;
    let e = e1[i];
    assert(e1.contains(e));
    assert(e1.to_set().contains(e));
    assert(e2.contains(e));
    let j = choose|j: int| 0 <= j < e2.len() && e2[j] == e;
    assert(entry_matches(e2[j], pat) && e2[j].path@ == p);
}

/// Law: running the same search twice over an unchanged snapshot — the same
/// set of visited entries, in whatever order the workers race through them —
/// yields identical result sets.
pub proof fn lemma_rerun_same_result_set(e1: Seq<FsEntry>, e2: Seq<FsEntry>, pat: Seq<char>)
    requires
        e1.to_set() == e2.to_set(),
    ensures
        matching_paths(e1, pat).to_set() == matching_paths(e2, pat).to_set(),
{
    broadcast use vstd::set::group_set_axioms;

    assert forall|p: Seq<char>|
        matching_paths(e1, pat).contains(p) == matching_paths(e2, pat).contains(p) by {
        if matching_paths(e1, pat).contains(p) {
            lemma_membership_carries_over(e1, e2, pat, p);
        }
        if matching_paths(e2, pat).contains(p) {
            lemma_membership_carries_over(e2, e1, pat, p);
        }
    }
    assert(matching_paths(e1, pat).to_set() =~= matching_paths(e2, pat).to_set());
}

/// How often a path occurs among the produced results.
pub open spec fn occurrence_count(s: Seq<Seq<char>>, x: Seq<char>) -> nat
    decreases s.len(),
{
    if s.len() == 0 {
        0
    } else {
        occurrence_count(s.drop_last(), x) + if s.last() == x {
            1nat
        } else {
            0nat
        }
    }
}

/// A path carried by none of the visited entries is never produced.
proof fn lemma_absent_path_not_counted(entries: Seq<FsEntry>, pat: Seq<char>, p: Seq<char>)
    requires
        forall|i: int| 0 <= i < entries.len() ==> (#[trigger] entries[i]).path@ != p,
    ensures
        occurrence_count(matching_paths(entries, pat), p) == 0,
    decreases entries.len(),
{
    if entries.len() > 0 {
        let prefix = entries.drop_last();
        assert(forall|i: int| 0 <= i < prefix.len() ==> prefix[i] == entries[i]);
        lemma_absent_path_not_counted(prefix, pat, p);
        let rest = matching_paths(prefix, pat);
        if entry_matches(entries.last(), pat) {
            let mp = rest.push(entries.last().path@);
            assert(mp.drop_last() =~= rest);
            assert(mp.last() != p);
        }
    }
}

/// Law: with an empty pattern, and a snapshot whose entries carry pairwise
/// distinct paths, every regular file's path is produced exactly once.
pub proof fn lemma_empty_pattern_exactly_once(entries: Seq<FsEntry>, pat: Seq<char>, k: int)
    requires
        pat.len() == 0,
        forall|i: int, j: int| 0 <= i < j < entries.len()
            ==> (#[trigger] entries[i]).path@ != (#[trigger] entries[j]).path@,
        0 <= k < entries.len(),
        entries[k].is_file,
        entries[k].name is Some,
    ensures
        occurrence_count(matching_paths(entries, pat), entries[k].path@) == 1,
    decreases entries.len(),
{
    let n = entries.len() - 1;
    let prefix = entries.drop_last();
    let rest = matching_paths(prefix, pat);
    let p = entries[k].path@;
    assert(forall|i: int| 0 <= i < prefix.len() ==> prefix[i] == entries[i]);
    if k == n {
        lemma_empty_pattern_matches((entries[k].name->0)@, pat);
        assert(entry_matches(entries.last(), pat));
        let mp = rest.push(p);
        assert(mp.drop_last() =~= rest);
        assert(mp.last() == p);
        assert(forall|i: int| 0 <= i < prefix.len() ==> (#[trigger] prefix[i]).path@ != p);
        lemma_absent_path_not_counted(prefix, pat, p);
    } else {
        lemma_empty_pattern_exactly_once(prefix, pat, k);
        if entry_matches(entries.last(), pat) {
            let mp = rest.push(entries.last().path@);
            assert(mp.drop_last() =~= rest);
            assert(mp.last() != p);
        }
    }
}

/// How many of the visited entries are regular files.
pub open spec fn regular_file_count(entries: Seq<FsEntry>) -> nat
    decreases entries.len(),
{
    if entries.len() == 0 {
        0
    } else {
        regular_file_count(entries.drop_last()) + if entries.last().is_file {
            1nat
        } else {
            0nat
        }
    }
}

/// Law: a traversal counts one processed entry per visit, so the processed
/// counter it adds dominates the number of regular files visited; the
/// counter is read-only afterwards, so rereading it after the drain yields
/// the same value.
pub proof fn lemma_processed_covers_regular_files(entries: Seq<FsEntry>)
    ensures
        regular_file_count(entries) <= entries.len(),
    decreases entries.len(),
{
    if entries.len() > 0 {
        lemma_processed_covers_regular_files(entries.drop_last());
    }
}

/// Law: the match counter counts each produced match exactly once, so once
/// the sequence is drained it equals the number of results the consumer
/// took — no double counting at the consumer.
pub proof fn lemma_drained_match_count(s: Search)
    requires
        s.wf(),
        s.drained(),
    ensures
        s.num_results == s.cursor,
        s.num_results == s.produced().len(),
{
}

} // verus!
