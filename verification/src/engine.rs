//! The search engine's state and its per-event transitions: a traversal
//! (run by the caller, one worker or many) hands the engine one filesystem
//! entry at a time; the engine classifies it, matches its name, records the
//! match, and keeps the two shared counters exact. The caller drains the
//! recorded matches as a forward-only sequence.

use vstd::prelude::*;
use vstd::string::StringExecFns;
use crate::matching::contains_pattern;
use crate::matching::name_contains;

verus! {

/// One filesystem entry handed to the engine by a directory traversal:
/// its displayable path, whether it is a regular file, and its final
/// path component, absent for paths that end in no name.
pub struct FsEntry {
    pub path: String,
    pub is_file: bool,
    pub name: Option<String>,
}

/// The entry is a regular file whose name contains the pattern.
pub open spec fn entry_matches(e: FsEntry, pat: Seq<char>) -> bool {
    e.is_file && match e.name {
        Some(n) => contains_pattern(n@, pat),
        None => false,
    }
}

/// The paths of the matching entries, in traversal order.
pub open spec fn matching_paths(entries: Seq<FsEntry>, pat: Seq<char>) -> Seq<Seq<char>>
    decreases entries.len(),
{
    if entries.len() == 0 {
        Seq::empty()
    } else {
        let rest = matching_paths(entries.drop_last(), pat);
        if entry_matches(entries.last(), pat) {
            rest.push(entries.last().path@)
        } else {
            rest
        }
    }
}

/// A traversal yields at most one match per entry visited.
pub proof fn lemma_matching_paths_len(entries: Seq<FsEntry>, pat: Seq<char>)
    ensures
        matching_paths(entries, pat).len() <= entries.len(),
    decreases entries.len(),
{
    if entries.len() > 0 {
        lemma_matching_paths_len(entries.drop_last(), pat);
    }
}

/// The pattern a search runs with: the given string, or match-all when none
/// is given.
pub open spec fn pattern_of(search_input: Option<&str>) -> Seq<char> {
    match search_input {
        Some(p) => p@,
        None => Seq::empty(),
    }
}

/// One search: the immutable request, the matches produced so far, the
/// consumer's position in them, and the two counters every producer feeds.
pub struct Search {
    /// The pattern each name is matched against; empty means match-all.
    pub pattern: String,
    /// Whether entries inside archive files are searched as well.
    pub include_archives: bool,
    /// Every match produced so far, in production order.
    pub results: Vec<String>,
    /// How many results the consumer has already taken.
    pub cursor: usize,
    /// Matches produced, counted exactly once, at production time.
    pub num_results: usize,
    /// Entries processed: one per visited filesystem entry, one per archive entry.
    pub num_files_processed: usize,
}

impl Search {
    /// The engine's invariant: every match produced was counted exactly once,
    /// and the consumer never runs ahead of production.
    pub open spec fn wf(self) -> bool {
        &&& self.num_results == self.results@.len()
        &&& self.cursor <= self.results@.len()
    }

    /// The matches produced so far, as character sequences.
    pub open spec fn produced(self) -> Seq<Seq<char>> {
        self.results.deep_view()
    }

    /// Every producer has been drained: the consumer has taken every match.
    pub open spec fn drained(self) -> bool {
        self.cursor == self.results@.len()
    }

    /// A fresh search for the given pattern (`None` matches everything),
    /// with nothing produced and both counters at zero.
    pub fn new(search_input: Option<&str>, search_zip: bool) -> (s: Search)
        ensures
            s.wf(),
            s.pattern@ == pattern_of(search_input),
            s.include_archives == search_zip,
            s.produced() == Seq::<Seq<char>>::empty(),
            s.results@.len() == 0,
            s.cursor == 0,
            s.num_results == 0,
            s.num_files_processed == 0,
    {
        let pattern = match search_input {
            Some(p) => String::from_str(p),
            None => String::new(),
        };
        let s = Search {
            pattern,
            include_archives: search_zip,
            results: Vec::new(),
            cursor: 0,
            num_results: 0,
            num_files_processed: 0,
        };
        proof {
            assert(s.produced() =~= Seq::<Seq<char>>::empty());
        }
        s
    }

    /// Process one visited entry: count it, and if it is a regular file whose
    /// name contains the pattern, record its path as a match and count that
    /// once. Directories and nameless paths are counted but never match.
    pub fn visit_entry(&mut self, entry: FsEntry) -> (matched: bool)
        requires
            old(self).wf(),
            old(self).num_files_processed < usize::MAX,
            old(self).num_results < usize::MAX,
        ensures
            final(self).wf(),
            final(self).pattern == old(self).pattern,
            final(self).include_archives == old(self).include_archives,
            final(self).cursor == old(self).cursor,
            final(self).num_files_processed == old(self).num_files_processed + 1,
            matched == entry_matches(entry, old(self).pattern@),
            matched ==> final(self).produced() == old(self).produced().push(entry.path@)
                && final(self).num_results == old(self).num_results + 1,
            !matched ==> final(self).results == old(self).results
                && final(self).num_results == old(self).num_results,
    {
        self.num_files_processed = self.num_files_processed + 1;
        let matched = if entry.is_file {
            match &entry.name {
                Some(n) => name_contains(n.as_str(), self.pattern.as_str()),
                None => false,
            }
        } else {
            false
        };
        if matched {
            let ghost before = self.results.deep_view();
            self.results.push(entry.path);
            self.num_results = self.num_results + 1;
            proof {
                assert(self.results.deep_view() =~= before.push(self.results@.last()@));
            }
        }
        matched
    }

    /// Process a whole traversal's worth of entries, in the order given:
    /// the counters grow by one per entry and one per match, and exactly the
    /// matching entries' paths are appended to the produced matches.
    pub fn run_entries(&mut self, entries: &Vec<FsEntry>)
        requires
            old(self).wf(),
            old(self).num_files_processed + entries@.len() <= usize::MAX,
            old(self).num_results + entries@.len() <= usize::MAX,
        ensures
            final(self).wf(),
            final(self).pattern == old(self).pattern,
            final(self).include_archives == old(self).include_archives,
            final(self).cursor == old(self).cursor,
            final(self).num_files_processed == old(self).num_files_processed + entries@.len(),
            final(self).produced() == old(self).produced()
                + matching_paths(entries@, old(self).pattern@),
            final(self).num_results == old(self).num_results
                + matching_paths(entries@, old(self).pattern@).len(),
    {
        let ghost initial = *self;
        let mut i: usize = 0;
        while i < entries.len()
            invariant
                self.wf(),
                initial.wf(),
                0 <= i <= entries@.len(),
                self.pattern == initial.pattern,
                self.include_archives == initial.include_archives,
                self.cursor == initial.cursor,
                initial.num_files_processed + entries@.len() <= usize::MAX,
                initial.num_results + entries@.len() <= usize::MAX,
                self.num_files_processed == initial.num_files_processed + i,
                self.produced() == initial.produced()
                    + matching_paths(entries@.take(i as int), initial.pattern@),
                self.num_results == initial.num_results
                    + matching_paths(entries@.take(i as int), initial.pattern@).len(),
            decreases entries@.len() - i,
        {
            proof {
                lemma_matching_paths_len(entries@.take(i as int), initial.pattern@);
            }
            let e = &entries[i];
            let entry = FsEntry {
                path: e.path.clone(),
                is_file: e.is_file,
                name: match &e.name {
                    Some(n) => Some(n.clone()),
                    None => None,
                },
            };
            proof {
                assert(entry == entries@[i as int]);
                assert(entries@.take(i + 1).drop_last() =~= entries@.take(i as int));
                assert(entries@.take(i + 1).last() == entries@[i as int]);
            }
            let ghost prefix = matching_paths(entries@.take(i as int), initial.pattern@);
            self.visit_entry(entry);
            proof {
                if entry_matches(entries@[i as int], initial.pattern@) {
                    assert(matching_paths(entries@.take(i + 1), initial.pattern@)
                        == prefix.push(entries@[i as int].path@));
                    assert(self.produced() =~= initial.produced()
                        + matching_paths(entries@.take(i + 1), initial.pattern@));
                } else {
                    assert(matching_paths(entries@.take(i + 1), initial.pattern@) == prefix);
                }
            }
            i = i + 1;
        }
        proof {
            assert(entries@.take(entries@.len() as int) =~= entries@);
        }
    }

    /// Take the next match, in production order; `None` once every recorded
    /// match has been taken. Taking a match never changes either counter.
    pub fn next(&mut self) -> (r: Option<String>)
        requires
            old(self).wf(),
        ensures
            final(self).wf(),
            final(self).pattern == old(self).pattern,
            final(self).include_archives == old(self).include_archives,
            final(self).results == old(self).results,
            final(self).num_results == old(self).num_results,
            final(self).num_files_processed == old(self).num_files_processed,
            old(self).cursor < old(self).results@.len() ==> {
                &&& final(self).cursor == old(self).cursor + 1
                &&& r == Some(old(self).results@[old(self).cursor as int])
            },
            old(self).cursor >= old(self).results@.len() ==> {
                &&& final(self).cursor == old(self).cursor
                &&& r is None
            },
    {
        if self.cursor < self.results.len() {
            let item = self.results[self.cursor].clone();
            self.cursor = self.cursor + 1;
            Some(item)
        } else {
            None
        }
    }
}

} // verus!
