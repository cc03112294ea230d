//! The files that version control ignores, worked out from two walks of a
//! directory tree: one that sees every file, and one that leaves out what
//! the ignore rules exclude.

use crate::text::{
    ascending,
    contains_str,
    insert_ascending,
    is_under,
    parent,
    parent_of,
    path_has_segment,
    path_is_under,
    seq_contains,
    str_eq,
    views,
};
use crate::utils::pattern_matcher;
use crate::utils::pattern_matcher::{
    all_accepted,
    first_rejected,
    in_metadata,
    kept_lines,
    list_compiles,
    matching_files,
    EntryKind,
    PatternError,
    WalkEntry,
};
use vstd::prelude::*;

verus! {

/// Why the ignored files could not be listed.
#[derive(Debug, Clone, Copy, PartialEq, Eq, Structural)]
pub enum GitError {
    /// The directory is not inside a repository.
    NotAGitRepository,
    /// The rule file has no directory above it.
    NoParentDirectory,
}

/// Whether a walk found a file at `p` that is no part of the repository's
/// own metadata: no segment of `p` is `.git`.
pub open spec fn lists_file(entries: Seq<WalkEntry>, p: Seq<char>) -> bool {
    !in_metadata(p) && exists|i: int|
        0 <= i < entries.len() && (#[trigger] entries[i]).path@ == p && entries[i].kind is File
}

/// Whether `p` is a file of `all` that the walk `kept` left out.
pub open spec fn left_out(all: Seq<WalkEntry>, kept: Seq<WalkEntry>, p: Seq<char>) -> bool {
    lists_file(all, p) && !lists_file(kept, p)
}

/// Whether `p` is ignored: a file of `all` that the walk `kept` left out
/// and that is not under version control. A file under version control is
/// never ignored, whatever the rules say.
pub open spec fn is_ignored_file(
    all: Seq<WalkEntry>,
    kept: Seq<WalkEntry>,
    versioned: Seq<Seq<char>>,
    p: Seq<char>,
) -> bool {
    left_out(all, kept, p) && !seq_contains(versioned, p)
}

fn lists(entries: &[WalkEntry], path: &str) -> (r: bool)
    ensures
        r == lists_file(entries@, path@),
{
    if path_has_segment(path, ".git") {
        return false;
    }
    let mut i: usize = 0;
    while i < entries.len()
        invariant
            i <= entries.len(),
            !in_metadata(path@),
            forall|k: int|
                0 <= k < i ==> !((#[trigger] entries@[k]).path@ == path@ && entries@[k].kind is File),
        decreases entries.len() - i,
    {
        let is_file = match entries[i].kind {
            EntryKind::File => true,
            _ => false,
        };
        if is_file && str_eq(entries[i].path.as_str(), path) {
            return true;
        }
        i += 1;
    }
    false
}

/// The files under a directory that version control ignores: the files
/// that the walk `all` found and the walk `kept`, which leaves out what
/// the ignore rules exclude, did not, but for the files `versioned`, which
/// are under version control. Each is listed once, in ascending path
/// order. Fails where the directory is not inside a repository.
pub fn get_git_ignored_files_in_path(
    in_repository: bool,
    all: &[WalkEntry],
    kept: &[WalkEntry],
    versioned: &[String],
) -> (r: Result<Vec<String>, GitError>)
    ensures
        !in_repository ==> r == Err::<Vec<String>, GitError>(GitError::NotAGitRepository),
        in_repository ==> r is Ok,
        r matches Ok(files) ==> ascending(views(files@)) && forall|p: Seq<char>|
            seq_contains(views(files@), p) <==> (left_out(all@, kept@, p) && !seq_contains(
                views(versioned@),
                p,
            )),
{
    if !in_repository {
        return Err(GitError::NotAGitRepository);
    }
    let mut files: Vec<String> = Vec::new();
    let mut i: usize = 0;
    while i < all.len()
        invariant
            i <= all.len(),
            ascending(views(files@)),
            forall|p: Seq<char>|
                seq_contains(views(files@), p) <==> is_ignored_file(
                    all@.take(i as int),
                    kept@,
                    views(versioned@),
                    p,
                ),
        decreases all.len() - i,
    {
        let ghost before = views(files@);
        let path = all[i].path.as_str();
        let is_file = match all[i].kind {
            EntryKind::File => true,
            _ => false,
        };
        let take = is_file && !path_has_segment(path, ".git") && !lists(kept, path)
            && !contains_str(versioned, path);
        if take {
            insert_ascending(&mut files, path);
        }
        proof {
            let a0 = all@.take(i as int);
            let a1 = all@.take(i + 1);
            assert forall|p: Seq<char>| seq_contains(views(files@), p) <==> is_ignored_file(
                a1,
                kept@,
                views(versioned@),
                p,
            ) by {
                if lists_file(a0, p) {
                    let k = choose|k: int|
                        0 <= k < a0.len() && (#[trigger] a0[k]).path@ == p && a0[k].kind is File;
                    assert(a1[k] == a0[k]);
                }
                if lists_file(a1, p) {
                    let k = choose|k: int|
                        0 <= k < a1.len() && (#[trigger] a1[k]).path@ == p && a1[k].kind is File;
                    if k < i {
                        assert(a0[k] == a1[k]);
                    }
                }
                if take && p == path@ {
                    assert(a1[i as int].path@ == p);
                }
            }
        }
        i += 1;
    }
    assert(all@.take(all@.len() as int) =~= all@);
    Ok(files)
}

/// Whether `p` is one of the first `i` members of `src`.
pub open spec fn found_before(src: Seq<Seq<char>>, i: int, p: Seq<char>) -> bool {
    exists|j: int| 0 <= j < i && j < src.len() && #[trigger] src[j] == p
}

/// The ignored files that lie under the directory of a rule file: of
/// `get_git_ignored_files_in_path` on the two walks, those under the
/// directory part of `gitignore_path`, in the same order. Fails where the
/// path has no directory part, or as `get_git_ignored_files_in_path` does.
pub fn get_git_ignored_files_from_gitignore(
    gitignore_path: &str,
    in_repository: bool,
    all: &[WalkEntry],
    kept: &[WalkEntry],
    versioned: &[String],
) -> (r: Result<Vec<String>, GitError>)
    ensures
        parent(gitignore_path@) is None ==> r == Err::<Vec<String>, GitError>(
            GitError::NoParentDirectory,
        ),
        parent(gitignore_path@) is Some && !in_repository ==> r == Err::<Vec<String>, GitError>(
            GitError::NotAGitRepository,
        ),
        parent(gitignore_path@) is Some && in_repository ==> r is Ok,
        r matches Ok(files) ==> {
            &&& ascending(views(files@))
            &&& forall|p: Seq<char>|
                seq_contains(views(files@), p) <==> (is_ignored_file(
                    all@,
                    kept@,
                    views(versioned@),
                    p,
                ) && is_under(p, parent(gitignore_path@)->0))
        },
{
    let dir = match parent_of(gitignore_path) {
        Some(dir) => dir,
        None => {
            return Err(GitError::NoParentDirectory);
        },
    };
    let ignored = match get_git_ignored_files_in_path(in_repository, all, kept, versioned) {
        Ok(ignored) => ignored,
        Err(e) => {
            return Err(e);
        },
    };
    let mut files: Vec<String> = Vec::new();
    let mut i: usize = 0;
    let ghost src = views(ignored@);
    while i < ignored.len()
        invariant
            i <= ignored.len(),
            src == views(ignored@),
            ascending(src),
            forall|p: Seq<char>|
                seq_contains(src, p) <==> is_ignored_file(all@, kept@, views(versioned@), p),
            dir@ == parent(gitignore_path@)->0,
            files@.len() <= i,
            ascending(views(files@)),
            forall|k: int|
                0 <= k < files@.len() ==> found_before(src, i as int, #[trigger] views(files@)[k]),
            forall|p: Seq<char>|
                seq_contains(views(files@), p) <==> (seq_contains(src.take(i as int), p)
                    && is_under(p, dir@)),
        decreases ignored.len() - i,
    {
        let ghost before = views(files@);
        let take = path_is_under(ignored[i].as_str(), dir.as_str());
        if take {
            files.push(ignored[i].clone());
        }
        proof {
            let after = views(files@);
            let s0 = src.take(i as int);
            let s1 = src.take(i + 1);
            if take {
                assert(after =~= before.push(src[i as int]));
                assert forall|a: int, b: int| 0 <= a < b < after.len() implies crate::text::path_lt(
                    after[a],
                    after[b],
                ) by {
                    if b == before.len() {
                        assert(found_before(src, i as int, before[a]));
                        let j = choose|j: int| 0 <= j < i && #[trigger] src[j] == before[a];
                        assert(crate::text::path_lt(src[j], src[i as int]));
                    } else {
                        assert(crate::text::path_lt(before[a], before[b]));
                    }
                }
            } else {
                assert(after =~= before);
            }
            assert forall|k: int| 0 <= k < after.len() implies found_before(
                src,
                i + 1,
                #[trigger] after[k],
            ) by {
                if k < before.len() {
                    assert(after[k] == before[k]);
                    assert(found_before(src, i as int, before[k]));
                    let j = choose|j: int| 0 <= j < i && #[trigger] src[j] == before[k];
                    assert(src[j] == after[k]);
                } else {
                    assert(src[i as int] == after[k]);
                }
            }
            assert forall|p: Seq<char>| seq_contains(after, p) <==> (seq_contains(s1, p)
                && is_under(p, dir@)) by {
                if seq_contains(s0, p) {
                    let k = choose|k: int| 0 <= k < s0.len() && s0[k] == p;
                    assert(s1[k] == p);
                }
                if seq_contains(s1, p) {
                    let k = choose|k: int| 0 <= k < s1.len() && s1[k] == p;
                    if k < i {
                        assert(s0[k] == p);
                    }
                }
                if seq_contains(before, p) {
                    let k = choose|k: int| 0 <= k < before.len() && before[k] == p;
                    assert(after[k] == p);
                }
                if seq_contains(after, p) {
                    let k = choose|k: int| 0 <= k < after.len() && after[k] == p;
                    if k < before.len() {
                        assert(before[k] == p);
                    }
                }
                if take && p == src[i as int] {
                    assert(after[after.len() - 1] == p);
                    assert(s1[i as int] == p);
                }
            }
        }
        i += 1;
    }
    proof {
        assert(src.take(ignored@.len() as int) =~= src);
        assert forall|p: Seq<char>|
            seq_contains(views(files@), p) <==> (is_ignored_file(
                all@,
                kept@,
                views(versioned@),
                p,
            ) && is_under(p, parent(gitignore_path@)->0)) by {
            assert(seq_contains(views(files@), p) <==> (seq_contains(src, p) && is_under(p, dir@)));
        }
    }
    Ok(files)
}

/// The paths of the files among `entries` that `patterns`, applied from
/// `base_path`, ignore: the same as
/// `pattern_matcher::find_files_matching_patterns`.
pub fn find_files_matching_patterns(
    base_path: &str,
    patterns: &[String],
    entries: &[WalkEntry],
) -> (r: Result<Vec<String>, PatternError>)
    ensures
        r is Ok == (all_accepted(views(patterns@)) && list_compiles(views(patterns@))),
        r matches Ok(files) ==> views(files@) == matching_files(
            base_path@,
            views(patterns@),
            entries@,
        ),
        kept_lines(views(patterns@)).len() == 0 ==> (r matches Ok(files) && files@.len() == 0),
        r matches Err(PatternError::InvalidPattern { pattern }) ==> exists|i: int|
            first_rejected(views(patterns@), i) && pattern@ == patterns@[i]@,
        r matches Err(PatternError::CompileFailed) ==> all_accepted(views(patterns@)),
{
    pattern_matcher::find_files_matching_patterns(base_path, patterns, entries)
}

} // verus!
