//! The record of what the user asked to have ignored: paths named one by
//! one, and patterns.

use crate::lists::{
    add_new,
    all_distinct,
    lemma_with_added,
    lemma_with_removed,
    lemma_without_empty,
    none_empty,
    remove_empty,
    remove_listed,
    with_added,
    with_removed,
    without_empty,
};
use crate::text::{contains_str, join, joined, seq_contains, views};
use crate::utils::json_utils::{json_well_formed, validate_json_text};
use vstd::prelude::*;

verus! {

/// Calls `chrono::Utc::now` and takes the time as milliseconds since the
/// Unix epoch. The clock decides, so nothing is claimed of the result. The
/// call does not return where the clock stands before the epoch.
#[verifier::external_body]
fn now_millis() -> (t: i64) {
    chrono::Utc::now().timestamp_millis()
}

/// What was found where the record is kept.
#[derive(Debug, Clone, PartialEq, Eq)]
pub enum StateFile {
    /// No record has been written yet.
    Missing,
    /// There is a file, but it does not hold a record.
    Corrupted,
    /// A record, as it was read.
    Parsed { marked_files: Vec<String>, patterns: Vec<String>, last_updated: i64 },
}

/// A change to the record.
#[derive(Debug, Clone, Copy, PartialEq, Eq, Structural)]
pub enum RecordChange {
    /// Paths are marked.
    AddFiles,
    /// Patterns are given.
    AddPatterns,
    /// Paths are no longer marked.
    RemoveFiles,
    /// Patterns are withdrawn.
    RemovePatterns,
}

/// The record of what the user asked to have ignored.
#[derive(Debug, Clone, PartialEq, Eq)]
pub struct TrackedFiles {
    /// The paths that the user marked, each once, in the order in which
    /// they were first marked.
    pub marked_files: Vec<String>,
    /// The patterns that the user gave, in the order in which they were
    /// given. The order decides which pattern prevails.
    pub patterns: Vec<String>,
    /// When the record was last changed, in milliseconds since the Unix
    /// epoch.
    pub last_updated: i64,
}

impl Default for TrackedFiles {
    /// The empty record.
    fn default() -> (t: TrackedFiles)
        ensures
            t.marked_files@.len() == 0,
            t.patterns@.len() == 0,
            t.last_updated == 0,
            t.wf(),
    {
        TrackedFiles { marked_files: Vec::new(), patterns: Vec::new(), last_updated: 0 }
    }
}

impl TrackedFiles {
    /// The paths that are marked.
    pub open spec fn files(&self) -> Seq<Seq<char>> {
        views(self.marked_files@)
    }

    /// The patterns, in their order.
    pub open spec fn rules(&self) -> Seq<Seq<char>> {
        views(self.patterns@)
    }

    /// Whether the record is well formed: no path is kept twice, and no
    /// path and no pattern is empty.
    pub open spec fn wf(&self) -> bool {
        &&& all_distinct(self.files())
        &&& none_empty(self.files())
        &&& none_empty(self.rules())
    }

    /// The record that `state` stands for. Where there is no file, or none
    /// that can be read as a record, it is the empty record. Otherwise it
    /// holds what was read, without empty paths and patterns and with each
    /// path once.
    pub fn load(state: StateFile) -> (t: TrackedFiles)
        ensures
            t.wf(),
            match state {
                StateFile::Parsed { marked_files, patterns, last_updated } => {
                    &&& t.files() == with_added(Seq::empty(), views(marked_files@))
                    &&& t.rules() == without_empty(views(patterns@))
                    &&& t.last_updated == last_updated
                },
                _ => t.files().len() == 0 && t.rules().len() == 0 && t.last_updated == 0,
            },
    {
        match state {
            StateFile::Parsed { marked_files, patterns, last_updated } => {
                let mut files: Vec<String> = Vec::new();
                add_new(&mut files, marked_files.as_slice());
                let rules = remove_empty(patterns.as_slice());
                proof {
                    assert(views(Seq::<String>::empty()) =~= Seq::<Seq<char>>::empty());
                    lemma_with_added(Seq::empty(), views(marked_files@));
                    lemma_without_empty(views(patterns@));
                }
                TrackedFiles { marked_files: files, patterns: rules, last_updated }
            },
            _ => TrackedFiles::default(),
        }
    }

    /// The record that the text of a state file stands for. `contents` is
    /// the text, if there is a file; `parsed` is what the caller made of
    /// the text. Where there is no file the record is empty. So it is
    /// where the text is no JSON document, whatever `parsed` says.
    /// Otherwise the record is that of `load` for `parsed`.
    pub fn load_text(contents: Option<&str>, parsed: StateFile) -> (t: TrackedFiles)
        ensures
            t.wf(),
            (contents matches Some(text) && json_well_formed(text@)) ==> match parsed {
                StateFile::Parsed { marked_files, patterns, last_updated } => {
                    &&& t.files() == with_added(Seq::empty(), views(marked_files@))
                    &&& t.rules() == without_empty(views(patterns@))
                    &&& t.last_updated == last_updated
                },
                _ => t.files().len() == 0 && t.rules().len() == 0 && t.last_updated == 0,
            },
            !(contents matches Some(text) && json_well_formed(text@)) ==> t.files().len() == 0
                && t.rules().len() == 0 && t.last_updated == 0,
    {
        match contents {
            None => TrackedFiles::load(StateFile::Missing),
            Some(text) => match validate_json_text(text) {
                Ok(()) => TrackedFiles::load(parsed),
                Err(_) => TrackedFiles::load(StateFile::Corrupted),
            },
        }
    }

    /// The marked paths after the change `change` with `items`.
    pub open spec fn files_after(&self, change: RecordChange, items: Seq<Seq<char>>) -> Seq<
        Seq<char>,
    > {
        match change {
            RecordChange::AddFiles => with_added(self.files(), items),
            RecordChange::RemoveFiles => with_removed(self.files(), items),
            _ => self.files(),
        }
    }

    /// The patterns after the change `change` with `items`.
    pub open spec fn rules_after(&self, change: RecordChange, items: Seq<Seq<char>>) -> Seq<
        Seq<char>,
    > {
        match change {
            RecordChange::AddPatterns => with_added(self.rules(), items),
            RecordChange::RemovePatterns => with_removed(self.rules(), items),
            _ => self.rules(),
        }
    }

    /// Changes the record at the time `now`. Adding appends those of
    /// `items` that are not empty and not in the record yet, each once;
    /// removing takes every one of `items` out. What the change does not
    /// speak of stays as it is, and `now` becomes the time of the last
    /// change.
    pub fn update(&mut self, change: RecordChange, items: &[String], now: i64)
        ensures
            final(self).files() == old(self).files_after(change, views(items@)),
            final(self).rules() == old(self).rules_after(change, views(items@)),
            final(self).last_updated == now,
            old(self).wf() ==> final(self).wf(),
    {
        proof {
            lemma_with_added(self.files(), views(items@));
            lemma_with_added(self.rules(), views(items@));
            lemma_with_removed(self.files(), views(items@));
            lemma_with_removed(self.rules(), views(items@));
        }
        match change {
            RecordChange::AddFiles => {
                add_new(&mut self.marked_files, items);
            },
            RecordChange::AddPatterns => {
                add_new(&mut self.patterns, items);
            },
            RecordChange::RemoveFiles => {
                self.marked_files = remove_listed(self.marked_files.as_slice(), items);
            },
            RecordChange::RemovePatterns => {
                self.patterns = remove_listed(self.patterns.as_slice(), items);
            },
        }
        self.last_updated = now;
    }

    /// Adds `files` to the marked paths: those that are not empty and not
    /// marked yet, each once. The time of the last change is set from the
    /// clock.
    pub fn add_files(&mut self, files: &[String])
        ensures
            final(self).files() == with_added(old(self).files(), views(files@)),
            final(self).rules() == old(self).rules(),
            old(self).wf() ==> final(self).wf(),
    {
        let now = now_millis();
        self.update(RecordChange::AddFiles, files, now);
    }

    /// Adds `patterns` behind the patterns kept so far: those that are not
    /// empty and not kept yet, each once. The time of the last change is
    /// set from the clock.
    pub fn add_patterns(&mut self, patterns: &[String])
        ensures
            final(self).rules() == with_added(old(self).rules(), views(patterns@)),
            final(self).files() == old(self).files(),
            old(self).wf() ==> final(self).wf(),
    {
        let now = now_millis();
        self.update(RecordChange::AddPatterns, patterns, now);
    }

    /// Takes `files` out of the marked paths. The time of the last change
    /// is set from the clock.
    pub fn remove_files(&mut self, files: &[String])
        ensures
            final(self).files() == with_removed(old(self).files(), views(files@)),
            final(self).rules() == old(self).rules(),
            old(self).wf() ==> final(self).wf(),
    {
        let now = now_millis();
        self.update(RecordChange::RemoveFiles, files, now);
    }

    /// Takes `patterns` out of the patterns. The time of the last change is
    /// set from the clock.
    pub fn remove_patterns(&mut self, patterns: &[String])
        ensures
            final(self).rules() == with_removed(old(self).rules(), views(patterns@)),
            final(self).files() == old(self).files(),
            old(self).wf() ==> final(self).wf(),
    {
        let now = now_millis();
        self.update(RecordChange::RemovePatterns, patterns, now);
    }

    /// Whether `file` is among the marked paths.
    pub fn is_tracked(&self, file: &str) -> (r: bool)
        ensures
            r == seq_contains(self.files(), file@),
    {
        contains_str(self.marked_files.as_slice(), file)
    }

    /// Where the record of the repository at `repo_path` is kept.
    pub fn state_file_path(repo_path: &str) -> (r: String)
        ensures
            r@ == joined(
                joined(repo_path@, ".dbx-ignore"@),
                "tracked_files.json"@,
            ),
    {
        let dir = join(repo_path, ".dbx-ignore");
        join(dir.as_str(), "tracked_files.json")
    }
}

} // verus!
