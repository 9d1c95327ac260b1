//! Archive scanning: list the entry names of one zip archive held in memory
//! and run the same substring match over them, recording composite
//! `<entry name> in <archive path>` lines. A failure to read one archive is
//! confined to that archive: the search goes on and the engine's state is
//! left exactly as it was.

use vstd::prelude::*;
use vstd::string::StringExecFns;
use crate::matching::contains_pattern;
use crate::matching::name_contains;
use crate::engine::Search;

verus! {

/// The entry names the archive reader lists for a zip file held in memory,
/// in central-directory order, or `None` where the bytes cannot be read as
/// an archive. A function of the bytes alone.
pub uninterp spec fn archive_entry_names(bytes: Seq<u8>) -> Option<Seq<Seq<char>>>;

/// Relies on zip::ZipArchive (new, len, name_for_index): parsing the central
/// directory out of the given bytes and listing the entry names in order.
/// The outcome depends on the bytes alone; the error string is a diagnostic
/// with no promised content.
#[verifier::external_body]
fn read_archive_entry_names(bytes: &Vec<u8>) -> (r: Result<Vec<String>, String>)
    ensures
        r matches Ok(names) ==> archive_entry_names(bytes@) == Some(names.deep_view()),
        r is Err ==> archive_entry_names(bytes@) is None,
{
    let cursor = std::io::Cursor::new(bytes.as_slice());
    let archive = match zip::ZipArchive::new(cursor) {
        Ok(a) => a,
        Err(e) => return Err(format!("{:?}", e)),
    };
    let mut names = Vec::new();
    for i in 0..archive.len() {
        if let Some(name) = archive.name_for_index(i) {
            names.push(name.to_string());
        }
    }
    Ok(names)
}

/// Whether a visited entry is an archive that a search should scan: archive
/// search must be on, and the entry's extension must be exactly `zip`.
pub fn archive_candidate(search_zip: bool, extension: Option<&str>) -> (r: bool)
    ensures
        r == (search_zip && match extension {
            Some(e) => e@ == "zip"@,
            None => false,
        }),
{
    if !search_zip {
        return false;
    }
    match extension {
        Some(e) => crate::matching::str_equal(e, "zip"),
        None => false,
    }
}

/// The composite line recorded for a matching archive entry.
pub open spec fn composite_line(name: Seq<char>, archive_path: Seq<char>) -> Seq<char> {
    name + " in "@ + archive_path
}

/// The composite lines of the matching entry names, in listing order.
pub open spec fn archive_match_lines(
    names: Seq<Seq<char>>,
    archive_path: Seq<char>,
    pat: Seq<char>,
) -> Seq<Seq<char>>
    decreases names.len(),
{
    if names.len() == 0 {
        Seq::empty()
    } else {
        let rest = archive_match_lines(names.drop_last(), archive_path, pat);
        if contains_pattern(names.last(), pat) {
            rest.push(composite_line(names.last(), archive_path))
        } else {
            rest
        }
    }
}

/// An archive yields at most one match per entry listed.
pub proof fn lemma_archive_match_lines_len(
    names: Seq<Seq<char>>,
    archive_path: Seq<char>,
    pat: Seq<char>,
)
    ensures
        archive_match_lines(names, archive_path, pat).len() <= names.len(),
    decreases names.len(),
{
    if names.len() > 0 {
        lemma_archive_match_lines_len(names.drop_last(), archive_path, pat);
    }
}

/// What scanning one archive did to the search.
pub enum ArchiveOutcome {
    /// The archive was read; this many entries were listed and counted.
    Scanned { entries: usize },
    /// Archive search is off for this search; nothing was read or counted.
    Disabled,
    /// The archive could not be read; the diagnostic says why, and the
    /// archive contributed nothing.
    Unreadable { diagnostic: String },
    /// Counting the listed entries would overflow a counter; nothing was
    /// recorded.
    Saturated,
}

impl Search {
    /// Record one readable archive's listed entry names: count every entry,
    /// and for each name that contains the pattern (an empty pattern matches
    /// every name) record the composite line `<name> in <archive path>` and
    /// count the match once.
    pub fn record_archive_entries(&mut self, archive_path: &str, names: &Vec<String>)
        requires
            old(self).wf(),
            old(self).include_archives,
            old(self).num_files_processed + names@.len() <= usize::MAX,
            old(self).num_results + names@.len() <= usize::MAX,
        ensures
            final(self).wf(),
            final(self).pattern == old(self).pattern,
            final(self).include_archives == old(self).include_archives,
            final(self).cursor == old(self).cursor,
            final(self).num_files_processed == old(self).num_files_processed + names@.len(),
            final(self).produced() == old(self).produced()
                + archive_match_lines(names.deep_view(), archive_path@, old(self).pattern@),
            final(self).num_results == old(self).num_results
                + archive_match_lines(names.deep_view(), archive_path@, old(self).pattern@).len(),
    {
        let ghost initial = *self;
        let ghost dv = names.deep_view();
        let mut i: usize = 0;
        while i < names.len()
            invariant
                self.wf(),
                initial.wf(),
                dv == names.deep_view(),
                dv.len() == names@.len(),
                0 <= i <= names@.len(),
                self.pattern == initial.pattern,
                self.include_archives == initial.include_archives,
                self.cursor == initial.cursor,
                initial.num_files_processed + names@.len() <= usize::MAX,
                initial.num_results + names@.len() <= usize::MAX,
                self.num_files_processed == initial.num_files_processed + i,
                self.produced() == initial.produced()
                    + archive_match_lines(dv.take(i as int), archive_path@, initial.pattern@),
                self.num_results == initial.num_results
                    + archive_match_lines(dv.take(i as int), archive_path@, initial.pattern@).len(),
            decreases names@.len() - i,
        {
            proof {
                lemma_archive_match_lines_len(dv.take(i as int), archive_path@, initial.pattern@);
                assert(dv.take(i + 1).drop_last() =~= dv.take(i as int));
                assert(dv.take(i + 1).last() == dv[i as int]);
                assert(dv[i as int] == names@[i as int]@);
            }
            let ghost prefix = archive_match_lines(dv.take(i as int), archive_path@, initial.pattern@);
            let name = &names[i];
            let matched = name_contains(name.as_str(), self.pattern.as_str());
            self.num_files_processed = self.num_files_processed + 1;
            if matched {
                let mut line = name.clone();
                line.append(" in ");
                line.append(archive_path);
                proof {
                    assert(line@ == composite_line(dv[i as int], archive_path@));
                }
                let ghost before = self.results.deep_view();
                self.results.push(line);
                self.num_results = self.num_results + 1;
                proof {
                    assert(self.results.deep_view() =~= before.push(self.results@.last()@));
                    assert(archive_match_lines(dv.take(i + 1), archive_path@, initial.pattern@)
                        == prefix.push(composite_line(dv[i as int], archive_path@)));
                    assert(self.produced() =~= initial.produced()
                        + archive_match_lines(dv.take(i + 1), archive_path@, initial.pattern@));
                }
            } else {
                proof {
                    assert(archive_match_lines(dv.take(i + 1), archive_path@, initial.pattern@)
                        == prefix);
                }
            }
            i = i + 1;
        }
        proof {
            assert(dv.take(dv.len() as int) =~= dv);
        }
    }

    /// Scan one archive file from its bytes, isolating failure to this
    /// archive alone: when archive search is on and the bytes parse, every
    /// listed entry is counted and the matching ones are recorded; when it
    /// is off nothing is read; when the bytes cannot be parsed the search
    /// state is left untouched and a diagnostic is handed back for the
    /// caller to log.
    pub fn scan_archive(&mut self, archive_path: &str, bytes: &Vec<u8>) -> (r: ArchiveOutcome)
        requires
            old(self).wf(),
        ensures
            final(self).wf(),
            final(self).pattern == old(self).pattern,
            final(self).include_archives == old(self).include_archives,
            final(self).cursor == old(self).cursor,
            match r {
                ArchiveOutcome::Scanned { entries } => {
                    &&& old(self).include_archives
                    &&& archive_entry_names(bytes@) matches Some(names)
                        && entries == names.len()
                        && final(self).num_files_processed
                            == old(self).num_files_processed + names.len()
                        && final(self).produced() == old(self).produced()
                            + archive_match_lines(names, archive_path@, old(self).pattern@)
                        && final(self).num_results == old(self).num_results
                            + archive_match_lines(names, archive_path@, old(self).pattern@).len()
                },
                ArchiveOutcome::Disabled => {
                    &&& !old(self).include_archives
                    &&& *final(self) == *old(self)
                },
                ArchiveOutcome::Unreadable { .. } => {
                    &&& old(self).include_archives
                    &&& archive_entry_names(bytes@) is None
                    &&& *final(self) == *old(self)
                },
                ArchiveOutcome::Saturated => {
                    &&& old(self).include_archives
                    &&& archive_entry_names(bytes@) matches Some(names)
                        && (old(self).num_files_processed + names.len() > usize::MAX
                            || old(self).num_results + names.len() > usize::MAX)
                    &&& *final(self) == *old(self)
                },
            },
    {
        if !self.include_archives {
            return ArchiveOutcome::Disabled;
        }
        match read_archive_entry_names(bytes) {
            Err(diagnostic) => ArchiveOutcome::Unreadable { diagnostic },
            Ok(names) => {
                let n = names.len();
                if n > usize::MAX - self.num_files_processed || n > usize::MAX - self.num_results {
                    return ArchiveOutcome::Saturated;
                }
                self.record_archive_entries(archive_path, &names);
                ArchiveOutcome::Scanned { entries: n }
            },
        }
    }
}

} // verus!
