//! Matching paths against patterns in the syntax of ignore-rule files.
//!
//! The patterns are compiled and applied by the `ignore` crate. What it
//! decides is named here, not restated: `rules_ignore` is its verdict on
//! one path, `line_accepted` and `lines_compile` say whether it takes a
//! line and whether the lines it keeps compile. Everything around these calls, the
//! handling of paths and the selection of files, is this crate's own.

use crate::text::{
    below,
    trim_end,
    has_segment,
    is_absolute,
    is_under,
    path_has_segment,
    path_is_absolute,
    seq_contains,
    strip_base,
    views,
};
use ignore::gitignore::{Gitignore, GitignoreBuilder};
use vstd::prelude::*;

verus! {

/// A compiled list of patterns of the `ignore` crate.
#[verifier::external_type_specification]
#[verifier::external_body]
pub struct ExGitignore(Gitignore);

/// The builder of a `Gitignore`.
#[verifier::external_type_specification]
#[verifier::external_body]
pub struct ExGitignoreBuilder(GitignoreBuilder);

/// The error type of the `ignore` crate.
#[verifier::external_type_specification]
#[verifier::external_body]
pub struct ExIgnoreError(ignore::Error);

/// The directory that a builder holds as its root.
pub uninterp spec fn builder_root(b: GitignoreBuilder) -> Seq<char>;

/// The patterns that a builder holds, each as it was kept, in the order in
/// which they were added.
pub uninterp spec fn builder_lines(b: GitignoreBuilder) -> Seq<Seq<char>>;

/// The directory that a compiled matcher is rooted at.
pub uninterp spec fn matcher_root(g: Gitignore) -> Seq<char>;

/// The lines that a compiled matcher was built from.
pub uninterp spec fn matcher_lines(g: Gitignore) -> Seq<Seq<char>>;

/// Whether `GitignoreBuilder::add_line` takes `line`: it is a comment or a
/// blank line, or parses as a pattern.
pub uninterp spec fn line_accepted(line: Seq<char>) -> bool;

/// Whether `GitignoreBuilder::build` succeeds on a builder that holds the
/// patterns `lines`.
pub uninterp spec fn lines_compile(lines: Seq<Seq<char>>) -> bool;

/// The verdict of `Gitignore::matched`: whether a matcher rooted at `root`
/// that holds the patterns `lines` reports `path` as ignored, `is_dir`
/// telling whether the path is a directory. Of the patterns that match the
/// path the last decides, and a negated one among them means "not
/// ignored". The name stands for the verdict on Unix paths.
pub uninterp spec fn rules_ignore(
    root: Seq<char>,
    lines: Seq<Seq<char>>,
    path: Seq<char>,
    is_dir: bool,
) -> bool;

/// A root without the `./` that it may begin with.
pub open spec fn without_dot_slash(root: Seq<char>) -> Seq<char> {
    if root.len() >= 2 && root[0] == '.' && root[1] == '/' {
        root.skip(2)
    } else {
        root
    }
}

/// Whether a line ends in a backslash and a space: the space is then part
/// of the pattern.
pub open spec fn ends_escaped(line: Seq<char>) -> bool {
    line.len() >= 2 && line[line.len() - 2] == '\\' && line[line.len() - 1] == ' '
}

/// What is kept of a line: nothing of a comment, which begins with `#`,
/// and nothing of a blank line; of any other line the line itself, without
/// the white space at its end unless that is escaped.
pub open spec fn kept(line: Seq<char>) -> Seq<Seq<char>> {
    let pattern = if ends_escaped(line) {
        line
    } else {
        trim_end(line)
    };
    if (line.len() > 0 && line[0] == '#') || pattern.len() == 0 {
        Seq::empty()
    } else {
        seq![pattern]
    }
}

/// What is kept of a list of lines, in their order.
pub open spec fn kept_lines(lines: Seq<Seq<char>>) -> Seq<Seq<char>>
    decreases lines.len(),
{
    if lines.len() == 0 {
        Seq::empty()
    } else {
        kept_lines(lines.drop_last()) + kept(lines.last())
    }
}

/// Nothing is kept of a list exactly where nothing is kept of any of its
/// lines.
pub proof fn lemma_nothing_kept(lines: Seq<Seq<char>>)
    ensures
        kept_lines(lines).len() == 0 <==> forall|k: int|
            0 <= k < lines.len() ==> kept(#[trigger] lines[k]).len() == 0,
    decreases lines.len(),
{
    if lines.len() > 0 {
        let front = lines.drop_last();
        lemma_nothing_kept(front);
        assert(lines.last() == lines[lines.len() - 1]);
        if kept_lines(lines).len() == 0 {
            assert forall|k: int| 0 <= k < lines.len() implies kept(#[trigger] lines[k]).len()
                == 0 by {
                if k < front.len() {
                    assert(front[k] == lines[k]);
                }
            }
        }
        if forall|k: int| 0 <= k < lines.len() ==> kept(#[trigger] lines[k]).len() == 0 {
            assert forall|k: int| 0 <= k < front.len() implies kept(#[trigger] front[k]).len()
                == 0 by {
                assert(front[k] == lines[k]);
            }
        }
    }
}

/// Whether what is kept of `lines` compiles.
pub open spec fn list_compiles(lines: Seq<Seq<char>>) -> bool {
    lines_compile(kept_lines(lines))
}

/// Calls `GitignoreBuilder::new`: a builder that holds no pattern yet, for
/// the directory `root`, which it keeps without a leading `./`.
#[verifier::external_body]
fn builder_new(root: &str) -> (b: GitignoreBuilder)
    ensures
        builder_root(b) == without_dot_slash(root@),
        builder_lines(b) == Seq::<Seq<char>>::empty(),
{
    GitignoreBuilder::new(root)
}

/// Calls `GitignoreBuilder::add_line` with no source file. The call
/// succeeds exactly on the lines that the crate accepts, a comment and a
/// blank line among them. The builder then holds what is kept of the line
/// behind what it held, and is unchanged where the call fails.
#[verifier::external_body]
fn builder_add_line(builder: &mut GitignoreBuilder, line: &str) -> (r: Result<(), ignore::Error>)
    ensures
        r is Ok == line_accepted(line@),
        kept(line@).len() == 0 ==> r is Ok,
        builder_root(*final(builder)) == builder_root(*old(builder)),
        r is Ok ==> builder_lines(*final(builder)) == builder_lines(*old(builder)) + kept(line@),
        r is Err ==> builder_lines(*final(builder)) == builder_lines(*old(builder)),
{
    builder.add_line(None, line).map(|_| ())
}

/// Calls `GitignoreBuilder::build`. Whether it succeeds depends on the
/// patterns alone, and it does where there is none; the matcher has the
/// builder's root and patterns.
#[verifier::external_body]
fn builder_build(builder: &GitignoreBuilder) -> (r: Result<Gitignore, ignore::Error>)
    ensures
        r is Ok == lines_compile(builder_lines(*builder)),
        builder_lines(*builder).len() == 0 ==> r is Ok,
        r matches Ok(g) ==> matcher_root(g) == builder_root(*builder) && matcher_lines(g)
            == builder_lines(*builder),
{
    builder.build()
}

/// Calls `Gitignore::matched` and tells whether the match is an "ignore".
/// A matcher without patterns ignores nothing.
#[verifier::external_body]
fn matcher_ignores(g: &Gitignore, path: &str, is_dir: bool) -> (r: bool)
    ensures
        r == rules_ignore(matcher_root(*g), matcher_lines(*g), path@, is_dir),
        matcher_lines(*g).len() == 0 ==> !r,
{
    g.matched(path, is_dir).is_ignore()
}

/// Why a list of patterns could not be compiled.
#[derive(Debug, Clone, PartialEq, Eq)]
pub enum PatternError {
    /// A pattern does not parse; it is the first such in the list.
    InvalidPattern { pattern: String },
    /// Every pattern parses, but the list as a whole does not compile.
    CompileFailed,
}

/// What a walk of a directory tree found at a path.
#[derive(Debug, Clone, Copy, PartialEq, Eq, Structural)]
pub enum EntryKind {
    /// A regular file.
    File,
    /// A directory.
    Directory,
    /// Anything else, such as a dangling link.
    Other,
}

/// One entry of a walk of a directory tree.
#[derive(Debug, Clone, PartialEq, Eq)]
pub struct WalkEntry {
    /// The entry's path.
    pub path: String,
    /// What the walk found there.
    pub kind: EntryKind,
}

/// Whether the lines `lines`, applied from the directory `base`, ignore
/// `path`. An absolute path is taken relative to `base`, and is not
/// ignored where it lies outside of it; a relative path is taken as it is.
/// The verdict is that of the patterns kept of the lines, rooted at `base`
/// without a leading `./`.
pub open spec fn ignores(
    base: Seq<char>,
    lines: Seq<Seq<char>>,
    path: Seq<char>,
    is_dir: bool,
) -> bool {
    if is_absolute(path) {
        is_under(path, base) && rules_ignore(
            without_dot_slash(base),
            kept_lines(lines),
            below(path, base),
            is_dir,
        )
    } else {
        rules_ignore(without_dot_slash(base), kept_lines(lines), path, is_dir)
    }
}

/// Whether a path lies in version control's metadata directory, or is that
/// directory: one of its segments is `.git`.
pub open spec fn in_metadata(path: Seq<char>) -> bool {
    has_segment(path, ".git"@)
}

/// Whether an entry is a file outside version control's metadata that the
/// patterns ignore.
pub open spec fn is_match(base: Seq<char>, lines: Seq<Seq<char>>, e: WalkEntry) -> bool {
    e.kind is File && !in_metadata(e.path@) && ignores(base, lines, e.path@, false)
}

/// The paths of the files among `entries` that the patterns ignore, in the
/// order of the entries. Directories are never among them, nor is anything
/// inside version control's metadata directory.
pub open spec fn matching_files(
    base: Seq<char>,
    lines: Seq<Seq<char>>,
    entries: Seq<WalkEntry>,
) -> Seq<Seq<char>>
    decreases entries.len(),
{
    if entries.len() == 0 {
        Seq::empty()
    } else {
        let rest = matching_files(base, lines, entries.drop_last());
        let e = entries.last();
        if is_match(base, lines, e) {
            rest.push(e.path@)
        } else {
            rest
        }
    }
}

/// Whether `line_accepted` holds of every line.
pub open spec fn all_accepted(lines: Seq<Seq<char>>) -> bool {
    forall|i: int| 0 <= i < lines.len() ==> line_accepted(#[trigger] lines[i])
}

/// Whether `lines[i]` is the first line that is not accepted.
pub open spec fn first_rejected(lines: Seq<Seq<char>>, i: int) -> bool {
    &&& 0 <= i < lines.len()
    &&& !line_accepted(lines[i])
    &&& all_accepted(lines.take(i))
}

/// A list of patterns, compiled for the directory that they apply from.
pub struct PatternMatcher {
    gitignore: Gitignore,
    base_path: String,
    lines: Ghost<Seq<Seq<char>>>,
}

impl PatternMatcher {
    #[verifier::type_invariant]
    spec fn compiled(&self) -> bool {
        &&& matcher_root(self.gitignore) == without_dot_slash(self.base_path@)
        &&& matcher_lines(self.gitignore) == kept_lines(self.lines@)
    }

    /// The directory that the patterns apply from.
    pub closed spec fn base(&self) -> Seq<char> {
        self.base_path@
    }

    /// The lines that the matcher was compiled from, in their order.
    pub closed spec fn patterns(&self) -> Seq<Seq<char>> {
        self.lines@
    }

    /// Whether the matcher ignores `path`; `is_dir` tells whether the path
    /// is a directory.
    pub open spec fn spec_is_ignored(&self, path: Seq<char>, is_dir: bool) -> bool {
        ignores(self.base(), self.patterns(), path, is_dir)
    }

    /// Compiles `patterns` for the directory `base_path`. This succeeds
    /// where every line is accepted and what is kept of the lines
    /// compiles, as it does where nothing is kept; otherwise the error
    /// names the first line that is not accepted, or says that the list
    /// does not compile.
    pub fn new(base_path: &str, patterns: &[String]) -> (r: Result<PatternMatcher, PatternError>)
        ensures
            kept_lines(views(patterns@)).len() == 0 ==> r is Ok,
            match r {
                Ok(m) => {
                    &&& m.base() == base_path@
                    &&& m.patterns() == views(patterns@)
                    &&& all_accepted(views(patterns@))
                    &&& list_compiles(views(patterns@))
                },
                Err(PatternError::InvalidPattern { pattern }) => exists|i: int|
                    first_rejected(views(patterns@), i) && pattern@ == patterns@[i]@,
                Err(PatternError::CompileFailed) => {
                    &&& all_accepted(views(patterns@))
                    &&& !list_compiles(views(patterns@))
                },
            },
    {
        let mut builder = builder_new(base_path);
        let mut i: usize = 0;
        proof {
            lemma_nothing_kept(views(patterns@));
            assert(views(patterns@).take(0) =~= Seq::<Seq<char>>::empty());
        }
        while i < patterns.len()
            invariant
                i <= patterns.len(),
                builder_root(builder) == without_dot_slash(base_path@),
                builder_lines(builder) == kept_lines(views(patterns@).take(i as int)),
                kept_lines(views(patterns@)).len() == 0 ==> forall|k: int|
                    0 <= k < patterns@.len() ==> kept(#[trigger] views(patterns@)[k]).len() == 0,
                all_accepted(views(patterns@).take(i as int)),
            decreases patterns.len() - i,
        {
            let ghost before = builder_lines(builder);
            match builder_add_line(&mut builder, patterns[i].as_str()) {
                Ok(()) => {},
                Err(_) => {
                    assert(first_rejected(views(patterns@), i as int));
                    return Err(PatternError::InvalidPattern { pattern: patterns[i].clone() });
                },
            }
            assert(views(patterns@).take(i + 1).drop_last() =~= views(patterns@).take(i as int));
            assert(views(patterns@).take(i + 1).last() == patterns@[i as int]@);
            i += 1;
        }
        assert(views(patterns@).take(patterns@.len() as int) =~= views(patterns@));
        match builder_build(&builder) {
            Ok(gitignore) => Ok(
                PatternMatcher {
                    gitignore,
                    base_path: base_path.to_owned(),
                    lines: Ghost(views(patterns@)),
                },
            ),
            Err(_) => Err(PatternError::CompileFailed),
        }
    }

    /// Whether the matcher ignores `path`; `is_dir` tells whether the path
    /// is a directory. A matcher that keeps no pattern ignores nothing.
    pub fn is_ignored(&self, path: &str, is_dir: bool) -> (r: bool)
        ensures
            r == self.spec_is_ignored(path@, is_dir),
            kept_lines(self.patterns()).len() == 0 ==> !r,
    {
        proof {
            use_type_invariant(self);
        }
        if path_is_absolute(path) {
            match strip_base(path, self.base_path.as_str()) {
                Some(relative) => matcher_ignores(&self.gitignore, relative.as_str(), is_dir),
                None => false,
            }
        } else {
            matcher_ignores(&self.gitignore, path, is_dir)
        }
    }

    /// The paths of the files among `entries` that the matcher ignores, in
    /// the order of the entries. Directories are walked through but not
    /// listed, and version control's metadata directory is passed over. A
    /// matcher that keeps no pattern finds nothing.
    pub fn find_matching_files(&self, entries: &[WalkEntry]) -> (files: Vec<String>)
        ensures
            views(files@) == matching_files(self.base(), self.patterns(), entries@),
            kept_lines(self.patterns()).len() == 0 ==> files@.len() == 0,
    {
        let mut files: Vec<String> = Vec::new();
        let mut i: usize = 0;
        assert(entries@.take(0) =~= Seq::<WalkEntry>::empty());
        while i < entries.len()
            invariant
                i <= entries.len(),
                kept_lines(self.patterns()).len() == 0 ==> files@.len() == 0,
                views(files@) =~= matching_files(
                    self.base(),
                    self.patterns(),
                    entries@.take(i as int),
                ),
            decreases entries.len() - i,
        {
            let ghost before = views(files@);
            assert(entries@.take(i + 1).drop_last() =~= entries@.take(i as int));
            assert(entries@.take(i + 1).last() == entries@[i as int]);
            let is_file = match entries[i].kind {
                EntryKind::File => true,
                _ => false,
            };
            if is_file && !path_has_segment(entries[i].path.as_str(), ".git") && self.is_ignored(
                entries[i].path.as_str(),
                false,
            ) {
                files.push(entries[i].path.clone());
                assert(views(files@) =~= before.push(entries@[i as int].path@));
            }
            i += 1;
        }
        assert(entries@.take(entries@.len() as int) =~= entries@);
        files
    }
}

/// The paths of the files among `entries` that `patterns`, applied from
/// `base_path`, ignore: none where nothing is kept of the patterns. Fails
/// as `PatternMatcher::new` does.
pub fn find_files_matching_patterns(
    base_path: &str,
    patterns: &[String],
    entries: &[WalkEntry],
) -> (r: Result<Vec<String>, PatternError>)
    ensures
        r is Ok == (all_accepted(views(patterns@)) && list_compiles(views(patterns@))),
        r matches Ok(files) ==> views(files@) == matching_files(
            base_path@,
            views(patterns@),
            entries@,
        ),
        kept_lines(views(patterns@)).len() == 0 ==> (r matches Ok(files) && files@.len() == 0),
        r matches Err(PatternError::InvalidPattern { pattern }) ==> exists|i: int|
            first_rejected(views(patterns@), i) && pattern@ == patterns@[i]@,
        r matches Err(PatternError::CompileFailed) ==> all_accepted(views(patterns@)),
{
    match PatternMatcher::new(base_path, patterns) {
        Ok(matcher) => Ok(matcher.find_matching_files(entries)),
        Err(e) => {
            proof {
                lemma_rejected_not_all(views(patterns@));
            }
            Err(e)
        },
    }
}

/// Whether `patterns`, applied from `base_path`, ignore `file_path`;
/// `is_dir` tells whether the path is a directory. Where nothing is kept
/// of the patterns, no path is ignored. Fails as `PatternMatcher::new`
/// does.
pub fn matches_patterns(base_path: &str, file_path: &str, is_dir: bool, patterns: &[String]) -> (r:
    Result<bool, PatternError>)
    ensures
        r is Ok == (all_accepted(views(patterns@)) && list_compiles(views(patterns@))),
        r matches Ok(b) ==> b == ignores(base_path@, views(patterns@), file_path@, is_dir),
        kept_lines(views(patterns@)).len() == 0 ==> r == Ok::<bool, PatternError>(false),
        r matches Err(PatternError::InvalidPattern { pattern }) ==> exists|i: int|
            first_rejected(views(patterns@), i) && pattern@ == patterns@[i]@,
        r matches Err(PatternError::CompileFailed) ==> all_accepted(views(patterns@)),
{
    match PatternMatcher::new(base_path, patterns) {
        Ok(matcher) => Ok(matcher.is_ignored(file_path, is_dir)),
        Err(e) => {
            proof {
                lemma_rejected_not_all(views(patterns@));
            }
            Err(e)
        },
    }
}

/// A list with a first rejected line is not accepted as a whole.
pub proof fn lemma_rejected_not_all(lines: Seq<Seq<char>>)
    ensures
        (exists|i: int| first_rejected(lines, i)) ==> !all_accepted(lines),
{
    if exists|i: int| first_rejected(lines, i) {
        let i = choose|i: int| first_rejected(lines, i);
        assert(!line_accepted(lines[i]));
    }
}

/// Whether `p` is the path of a file among `entries`.
pub open spec fn is_file_entry(entries: Seq<WalkEntry>, p: Seq<char>) -> bool {
    exists|i: int| 0 <= i < entries.len() && (#[trigger] entries[i]).path@ == p && entries[i].kind is File
}

/// The files found are exactly the files of the walk, outside version
/// control's metadata directory, that the patterns ignore: no directory is
/// among them, and no ignored file is left out.
pub proof fn lemma_matching_files(base: Seq<char>, lines: Seq<Seq<char>>, entries: Seq<WalkEntry>)
    ensures
        forall|p: Seq<char>|
            #![trigger seq_contains(matching_files(base, lines, entries), p)]
            #![trigger is_file_entry(entries, p)]
            seq_contains(matching_files(base, lines, entries), p) <==> (is_file_entry(entries, p)
                && !in_metadata(p) && ignores(base, lines, p, false)),
    decreases entries.len(),
{
    let out = matching_files(base, lines, entries);
    if entries.len() > 0 {
        let front = entries.drop_last();
        let rest = matching_files(base, lines, front);
        let e = entries.last();
        let n = entries.len() - 1;
        lemma_matching_files(base, lines, front);
        assert forall|p: Seq<char>| #[trigger]
            seq_contains(out, p) implies is_file_entry(entries, p) && !in_metadata(p) && ignores(
            base,
            lines,
            p,
            false,
        ) by {
            let i = choose|i: int| 0 <= i < out.len() && out[i] == p;
            if i < rest.len() {
                assert(rest[i] == p);
                assert(seq_contains(rest, p));
                assert(is_file_entry(front, p));
                let j = choose|j: int|
                    0 <= j < front.len() && (#[trigger] front[j]).path@ == p && front[j].kind is File;
                assert(entries[j] == front[j]);
            } else {
                assert(is_match(base, lines, e));
                assert(entries[n] == e);
            }
        }
        assert forall|p: Seq<char>| #[trigger]
            is_file_entry(entries, p) && !in_metadata(p) && ignores(
                base,
                lines,
                p,
                false,
            ) implies seq_contains(out, p) by {
            let j = choose|j: int|
                0 <= j < entries.len() && (#[trigger] entries[j]).path@ == p
                    && entries[j].kind is File;
            if j < n {
                assert(front[j] == entries[j]);
                assert(is_file_entry(front, p));
                assert(seq_contains(rest, p));
                let i = choose|i: int| 0 <= i < rest.len() && rest[i] == p;
                assert(out[i] == p);
            } else {
                assert(entries[n] == e);
                assert(is_match(base, lines, e));
                assert(out[out.len() - 1] == p);
            }
        }
    }
}

} // verus!
