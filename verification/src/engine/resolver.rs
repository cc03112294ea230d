//! The desired paths: what should carry a marker, under each of the three
//! modes, given what the caller found in the repository.

use crate::engine::tracked_files::TrackedFiles;
use crate::engine::watch::WatchMode;
use crate::lists::{
    add_new,
    keep_listed,
    only_listed,
    remove_listed,
    with_added,
    with_removed,
};
use crate::text::views;
use crate::utils::pattern_matcher::{
    all_accepted,
    first_rejected,
    lemma_rejected_not_all,
    list_compiles,
    matching_files,
    PatternError,
    PatternMatcher,
    WalkEntry,
};
use vstd::prelude::*;

verus! {

/// An ignore-rule file: the directory it lies in, from which its rules
/// apply, and its lines.
#[derive(Debug, Clone, PartialEq, Eq)]
pub struct RuleFile {
    pub directory: String,
    pub lines: Vec<String>,
}

/// What the caller found in and around the directory that is watched.
#[derive(Debug, Clone, PartialEq, Eq)]
pub struct Survey {
    /// The directory that is watched.
    pub root: String,
    /// Whether it lies in a repository.
    pub repository: bool,
    /// The directory tree below it, without version control's metadata
    /// directory.
    pub entries: Vec<WalkEntry>,
    /// The ignore-rule files in that tree.
    pub rule_files: Vec<RuleFile>,
    /// The files that are under version control. Such a file is never
    /// ignored, whatever the rules say.
    pub versioned: Vec<String>,
    /// Those of the paths that the user marked that still exist.
    pub existing: Vec<String>,
}

/// Why the desired paths could not be worked out.
#[derive(Debug, Clone, PartialEq, Eq)]
pub enum ResolveError {
    /// The directory is not inside a repository.
    NotAGitRepository,
    /// A pattern or rule does not parse.
    InvalidPattern { pattern: String },
    /// The patterns or rules parse, but do not compile.
    CompileFailed,
}

/// Whether the lines of a rule file compile.
pub open spec fn rule_file_ok(f: RuleFile) -> bool {
    all_accepted(views(f.lines@)) && list_compiles(views(f.lines@))
}

/// Whether the lines of each rule file compile.
pub open spec fn rule_files_ok(files: Seq<RuleFile>) -> bool {
    forall|k: int| 0 <= k < files.len() ==> rule_file_ok(#[trigger] files[k])
}

/// The files among `entries` that some rule file ignores, each once: the
/// rules of each file are applied from its directory, and what they ignore
/// is put together.
pub open spec fn ignored_by_rules(files: Seq<RuleFile>, entries: Seq<WalkEntry>) -> Seq<Seq<char>>
    decreases files.len(),
{
    if files.len() == 0 {
        Seq::empty()
    } else {
        with_added(
            ignored_by_rules(files.drop_last(), entries),
            matching_files(files.last().directory@, views(files.last().lines@), entries),
        )
    }
}

/// The desired paths under the ignore rules of version control: what the
/// rule files ignore, without the files that are under version control.
pub open spec fn desired_by_rules(survey: Survey) -> Seq<Seq<char>> {
    with_removed(ignored_by_rules(survey.rule_files@, survey.entries@), views(survey.versioned@))
}

/// The desired paths under `mode`. Under patterns they are the files that
/// the patterns, applied from the root, ignore. Under the ignore rules
/// they are `desired_by_rules`. Under marked paths they are the marked
/// paths that still exist and that the ignore rules ignore as well.
pub open spec fn desired_paths(mode: WatchMode, record: TrackedFiles, survey: Survey) -> Seq<
    Seq<char>,
> {
    match mode {
        WatchMode::Patterns(patterns) => matching_files(
            survey.root@,
            views(patterns@),
            survey.entries@,
        ),
        WatchMode::GitIgnore => desired_by_rules(survey),
        WatchMode::TrackedFiles => only_listed(
            only_listed(record.files(), views(survey.existing@)),
            desired_by_rules(survey),
        ),
    }
}

/// Whether the desired paths under `mode` can be worked out: the patterns
/// compile, or there is a repository and the lines of its rule files
/// compile.
pub open spec fn resolvable(mode: WatchMode, survey: Survey) -> bool {
    match mode {
        WatchMode::Patterns(patterns) => all_accepted(views(patterns@)) && list_compiles(
            views(patterns@),
        ),
        _ => survey.repository && rule_files_ok(survey.rule_files@),
    }
}

/// Whether `e` says what is wrong with `lines`: it names the first line
/// that is not accepted, or says that the lines, all of them accepted, do
/// not compile.
pub open spec fn explains(lines: Seq<Seq<char>>, e: ResolveError) -> bool {
    match e {
        ResolveError::InvalidPattern { pattern } => exists|i: int|
            first_rejected(lines, i) && pattern@ == lines[i],
        ResolveError::CompileFailed => all_accepted(lines) && !list_compiles(lines),
        ResolveError::NotAGitRepository => false,
    }
}

/// Whether `files[k]` is the first rule file whose lines do not compile.
pub open spec fn first_bad_rule_file(files: Seq<RuleFile>, k: int) -> bool {
    &&& 0 <= k < files.len()
    &&& !rule_file_ok(files[k])
    &&& rule_files_ok(files.take(k))
}

/// The error that says what is wrong with patterns, as an error of
/// resolving.
pub fn pattern_error(e: PatternError) -> (r: ResolveError)
    ensures
        e matches PatternError::InvalidPattern { pattern } ==> (
        r matches ResolveError::InvalidPattern { pattern: p } && p@ == pattern@),
        e is CompileFailed ==> r is CompileFailed,
{
    match e {
        PatternError::InvalidPattern { pattern } => ResolveError::InvalidPattern { pattern },
        PatternError::CompileFailed => ResolveError::CompileFailed,
    }
}

/// The desired paths under the ignore rules of version control. Fails
/// with `NotAGitRepository` where there is no repository, and otherwise
/// with the error of the first rule file whose lines do not compile.
pub fn resolve_by_rules(survey: &Survey) -> (r: Result<Vec<String>, ResolveError>)
    ensures
        r is Ok == (survey.repository && rule_files_ok(survey.rule_files@)),
        r matches Ok(paths) ==> views(paths@) == desired_by_rules(*survey),
        r matches Err(e) ==> (e is NotAGitRepository <==> !survey.repository),
        survey.repository ==> (r matches Err(e) ==> exists|k: int|
            first_bad_rule_file(survey.rule_files@, k) && explains(
                views(survey.rule_files@[k].lines@),
                e,
            )),
{
    if !survey.repository {
        return Err(ResolveError::NotAGitRepository);
    }
    let mut found: Vec<String> = Vec::new();
    let mut k: usize = 0;
    assert(survey.rule_files@.take(0) =~= Seq::<RuleFile>::empty());
    assert(views(found@) =~= Seq::<Seq<char>>::empty());
    while k < survey.rule_files.len()
        invariant
            k <= survey.rule_files.len(),
            survey.repository,
            rule_files_ok(survey.rule_files@.take(k as int)),
            views(found@) == ignored_by_rules(survey.rule_files@.take(k as int), survey.entries@),
        decreases survey.rule_files.len() - k,
    {
        let file = &survey.rule_files[k];
        proof {
            assert(survey.rule_files@.take(k + 1).drop_last() =~= survey.rule_files@.take(
                k as int,
            ));
            assert(survey.rule_files@.take(k + 1).last() == *file);
        }
        let matcher = match PatternMatcher::new(file.directory.as_str(), file.lines.as_slice()) {
            Ok(matcher) => matcher,
            Err(e) => {
                let error = pattern_error(e);
                proof {
                    lemma_rejected_not_all(views(file.lines@));
                    assert(!rule_file_ok(survey.rule_files@[k as int]));
                    assert(first_bad_rule_file(survey.rule_files@, k as int));
                    assert(explains(views(survey.rule_files@[k as int].lines@), error));
                }
                return Err(error);
            },
        };
        let files = matcher.find_matching_files(survey.entries.as_slice());
        add_new(&mut found, files.as_slice());
        proof {
            let upto = survey.rule_files@.take(k + 1);
            assert forall|j: int| 0 <= j < upto.len() implies rule_file_ok(#[trigger] upto[j]) by {
                if j < k {
                    assert(survey.rule_files@.take(k as int)[j] == upto[j]);
                }
            }
        }
        k += 1;
    }
    assert(survey.rule_files@.take(survey.rule_files@.len() as int) =~= survey.rule_files@);
    Ok(remove_listed(found.as_slice(), survey.versioned.as_slice()))
}

/// The paths that should carry a marker under `mode`. Fails where they
/// cannot be worked out: with `NotAGitRepository` where the mode needs a
/// repository and there is none, and otherwise with the error of the
/// patterns or of the first rule file that do not compile.
pub fn resolve_desired_set(mode: &WatchMode, record: &TrackedFiles, survey: &Survey) -> (r: Result<
    Vec<String>,
    ResolveError,
>)
    ensures
        r is Ok == resolvable(*mode, *survey),
        r matches Ok(paths) ==> views(paths@) == desired_paths(*mode, *record, *survey),
        r matches Err(e) ==> (e is NotAGitRepository <==> (!(mode is Patterns)
            && !survey.repository)),
        r matches Err(e) ==> match *mode {
            WatchMode::Patterns(patterns) => explains(views(patterns@), e),
            _ => !survey.repository || exists|k: int|
                first_bad_rule_file(survey.rule_files@, k) && explains(
                    views(survey.rule_files@[k].lines@),
                    e,
                ),
        },
{
    match mode {
        WatchMode::Patterns(patterns) => {
            match PatternMatcher::new(survey.root.as_str(), patterns.as_slice()) {
                Ok(matcher) => Ok(matcher.find_matching_files(survey.entries.as_slice())),
                Err(e) => {
                    let error = pattern_error(e);
                    proof {
                        lemma_rejected_not_all(views(patterns@));
                        assert(explains(views(patterns@), error));
                    }
                    Err(error)
                },
            }
        },
        WatchMode::GitIgnore => resolve_by_rules(survey),
        WatchMode::TrackedFiles => {
            match resolve_by_rules(survey) {
                Ok(ignored) => {
                    let present = keep_listed(
                        record.marked_files.as_slice(),
                        survey.existing.as_slice(),
                    );
                    Ok(keep_listed(present.as_slice(), ignored.as_slice()))
                },
                Err(e) => Err(e),
            }
        },
    }
}

/// The marked paths that no longer exist: they are to be taken out of the
/// record.
pub fn missing_paths(record: &TrackedFiles, survey: &Survey) -> (missing: Vec<String>)
    ensures
        views(missing@) == with_removed(record.files(), views(survey.existing@)),
{
    remove_listed(record.marked_files.as_slice(), survey.existing.as_slice())
}

/// Under patterns the desired paths depend on the root, the patterns and
/// the tree alone: they are the same inside and outside a repository,
/// whatever its rule files say and whatever is under version control.
pub proof fn lemma_patterns_need_no_repository(
    patterns: Vec<String>,
    record: TrackedFiles,
    other_record: TrackedFiles,
    survey: Survey,
    other: Survey,
)
    requires
        survey.root@ == other.root@,
        survey.entries@ == other.entries@,
    ensures
        desired_paths(WatchMode::Patterns(patterns), record, survey) == desired_paths(
            WatchMode::Patterns(patterns),
            other_record,
            other,
        ),
        resolvable(WatchMode::Patterns(patterns), survey) == resolvable(
            WatchMode::Patterns(patterns),
            other,
        ),
{
}

} // verus!
