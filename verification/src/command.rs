//! The commands: what the user asks for, and the rules by which a request
//! is turned into work on paths.

use crate::engine::tracked_files::TrackedFiles;
use crate::lists::{with_added, with_removed};
use crate::text::{
    chars_of,
    contains_char,
    file_name,
    file_name_index,
    seq_contains,
    str_eq,
    views,
};
use crate::traits::{AttributeError, PlatformHandler};
use crate::utils::platform_utils::{
    add_ignore_attributes,
    counted_answer,
    error_among,
    is_tally,
    remove_ignore_attributes,
    settled_addition,
    settled_removal,
};
use vstd::prelude::*;

verus! {

/// What the user asks for.
#[derive(Debug, Clone, Copy, PartialEq, Eq, Structural)]
pub enum Action {
    /// Mark paths as ignored.
    Ignore,
    /// Take the markers off paths.
    Reset,
    /// Start watching.
    Watch,
    /// Stop watching.
    Unwatch,
}

/// A word that names no action.
#[derive(Debug, Clone, PartialEq, Eq)]
pub struct InvalidAction {
    /// The word as it was given.
    pub input: String,
}

/// A character with an upper-case letter of ASCII folded onto its
/// lower-case twin.
pub open spec fn folded(c: char) -> int {
    if 'A' <= c <= 'Z' {
        c as int + 32
    } else {
        c as int
    }
}

/// Whether `a` and `b` are the same up to the case of ASCII letters.
pub open spec fn same_word(a: Seq<char>, b: Seq<char>) -> bool {
    a.len() == b.len() && forall|i: int| 0 <= i < a.len() ==> folded(a[i]) == folded(b[i])
}

/// The action that a word names, in any mix of upper and lower case.
pub open spec fn named_action(s: Seq<char>) -> Option<Action> {
    if same_word(s, "ignore"@) {
        Some(Action::Ignore)
    } else if same_word(s, "reset"@) {
        Some(Action::Reset)
    } else if same_word(s, "watch"@) {
        Some(Action::Watch)
    } else if same_word(s, "unwatch"@) {
        Some(Action::Unwatch)
    } else {
        None
    }
}

fn fold(c: char) -> (r: u32)
    ensures
        r == folded(c),
{
    if 'A' <= c && c <= 'Z' {
        c as u32 + 32
    } else {
        c as u32
    }
}

fn is_word(s: &str, word: &str) -> (r: bool)
    ensures
        r == same_word(s@, word@),
{
    let a = chars_of(s);
    let b = chars_of(word);
    if a.len() != b.len() {
        return false;
    }
    let mut i: usize = 0;
    while i < a.len()
        invariant
            i <= a.len(),
            a.len() == b.len(),
            a@ == s@,
            b@ == word@,
            forall|k: int| 0 <= k < i ==> folded(a@[k]) == folded(b@[k]),
        decreases a.len() - i,
    {
        if fold(a[i]) != fold(b[i]) {
            return false;
        }
        i += 1;
    }
    true
}

impl Action {
    /// The word for the action.
    pub open spec fn word(self) -> Seq<char> {
        match self {
            Action::Ignore => "ignore"@,
            Action::Reset => "reset"@,
            Action::Watch => "watch"@,
            Action::Unwatch => "unwatch"@,
        }
    }

    /// The word for the action, in lower case.
    pub fn as_str(&self) -> (s: &'static str)
        ensures
            s@ == self.word(),
    {
        match self {
            Action::Ignore => "ignore",
            Action::Reset => "reset",
            Action::Watch => "watch",
            Action::Unwatch => "unwatch",
        }
    }

    /// The word for the action, in lower case.
    pub fn to_string(&self) -> (s: String)
        ensures
            s@ == self.word(),
    {
        self.as_str().to_owned()
    }

    /// The action that `s` names, in any mix of upper and lower case.
    /// Fails, with the word as given, where it names none.
    pub fn parse(s: &str) -> (r: Result<Action, InvalidAction>)
        ensures
            named_action(s@) matches Some(a) ==> r == Ok::<Action, InvalidAction>(a),
            named_action(s@) is None ==> (r matches Err(e) && e.input@ == s@),
    {
        if is_word(s, "ignore") {
            Ok(Action::Ignore)
        } else if is_word(s, "reset") {
            Ok(Action::Reset)
        } else if is_word(s, "watch") {
            Ok(Action::Watch)
        } else if is_word(s, "unwatch") {
            Ok(Action::Unwatch)
        } else {
            Err(InvalidAction { input: s.to_owned() })
        }
    }

    /// What the action does to paths, as the start of a sentence.
    pub fn description(&self) -> (s: &'static str)
        ensures
            s@ == match *self {
                Action::Ignore => "Adding ignore markers to"@,
                Action::Reset => "Removing ignore markers from"@,
                Action::Watch => "Setting up monitoring for"@,
                Action::Unwatch => "Stopping monitoring for"@,
            },
    {
        match self {
            Action::Ignore => "Adding ignore markers to",
            Action::Reset => "Removing ignore markers from",
            Action::Watch => "Setting up monitoring for",
            Action::Unwatch => "Stopping monitoring for",
        }
    }

    /// What was done to a path on which the action changed something.
    pub fn operation_message(&self) -> (s: &'static str)
        ensures
            s@ == match *self {
                Action::Ignore => "ignore markers added"@,
                Action::Reset => "ignore markers removed"@,
                Action::Watch => "monitoring set up"@,
                Action::Unwatch => "monitoring stopped"@,
            },
    {
        match self {
            Action::Ignore => "ignore markers added",
            Action::Reset => "ignore markers removed",
            Action::Watch => "monitoring set up",
            Action::Unwatch => "monitoring stopped",
        }
    }

    /// What is said of a path on which the action found nothing to do.
    pub fn status_message(&self) -> (s: &'static str)
        ensures
            s@ == match *self {
                Action::Ignore => "already ignored"@,
                Action::Reset => "no markers to remove"@,
                Action::Watch => "already monitored"@,
                Action::Unwatch => "not monitored"@,
            },
    {
        match self {
            Action::Ignore => "already ignored",
            Action::Reset => "no markers to remove",
            Action::Watch => "already monitored",
            Action::Unwatch => "not monitored",
        }
    }

    /// What the action did in all, for the closing line.
    pub fn operation_description(&self) -> (s: &'static str)
        ensures
            s@ == match *self {
                Action::Ignore => "ignore markers added"@,
                Action::Reset => "ignore markers removed"@,
                Action::Watch => "items set up for monitoring"@,
                Action::Unwatch => "monitoring stopped"@,
            },
    {
        match self {
            Action::Ignore => "ignore markers added",
            Action::Reset => "ignore markers removed",
            Action::Watch => "items set up for monitoring",
            Action::Unwatch => "monitoring stopped",
        }
    }
}

impl std::str::FromStr for Action {
    type Err = InvalidAction;

    /// The action that `s` names, as `Action::parse` gives it.
    fn from_str(s: &str) -> (r: Result<Action, InvalidAction>)
        ensures
            named_action(s@) matches Some(a) ==> r == Ok::<Action, InvalidAction>(a),
            named_action(s@) is None ==> (r matches Err(e) && e.input@ == s@),
    {
        Action::parse(s)
    }
}

/// A request.
#[derive(Debug, Clone, PartialEq, Eq)]
pub struct Config {
    /// What to do.
    pub action: Action,
    /// Whether to say what would be done, and do nothing.
    pub dry_run: bool,
    /// Whether to report on every path.
    pub verbose: bool,
    /// Whether to report nothing.
    pub quiet: bool,
    /// The paths and patterns that the user named.
    pub files: Vec<String>,
    /// Those of them that are patterns.
    pub patterns: Vec<String>,
    /// Whether the user asked for what version control ignores.
    pub git_mode: bool,
    /// Whether this process is the watcher itself.
    pub daemon_mode: bool,
}

/// Whether a string holds one of the characters that make a glob pattern:
/// `*`, `?` or `[`.
pub open spec fn glob_like(s: Seq<char>) -> bool {
    s.contains('*') || s.contains('?') || s.contains('[')
}

/// Whether `path_str` is a glob pattern rather than a plain path.
pub fn is_glob_pattern(path_str: &str) -> (r: bool)
    ensures
        r == glob_like(path_str@),
{
    contains_char(path_str, '*') || contains_char(path_str, '?') || contains_char(path_str, '[')
}

/// The ways in which a named path is handled.
#[derive(Debug, Clone, Copy, PartialEq, Eq, Structural)]
pub enum PathType {
    /// The current directory: its entries are meant, hidden ones apart.
    CurrentDirectory,
    /// An ignore-rule file: the files it ignores are meant.
    GitIgnoreFile,
    /// Any other path: the path itself is meant.
    Regular,
}

/// How a path is handled: `.` is the current directory, a path whose last
/// segment is `.gitignore` is a rule file, and every other path is
/// regular.
pub open spec fn path_type(p: Seq<char>) -> PathType {
    if p == "."@ {
        PathType::CurrentDirectory
    } else if file_name(p) == ".gitignore"@ {
        PathType::GitIgnoreFile
    } else {
        PathType::Regular
    }
}

/// How `path` is handled.
pub fn classify_path(path: &str) -> (t: PathType)
    ensures
        t == path_type(path@),
{
    if str_eq(path, ".") {
        PathType::CurrentDirectory
    } else if crate::text::file_name_is(path, ".gitignore") {
        PathType::GitIgnoreFile
    } else {
        PathType::Regular
    }
}

/// Whether a path names a hidden entry: its last segment begins with `.`
/// and is neither `.` nor `..`.
pub open spec fn hidden(p: Seq<char>) -> bool {
    let name = file_name(p);
    name.len() > 0 && name[0] == '.' && name != "."@ && name != ".."@
}

/// Whether `path` names a hidden entry.
pub fn is_hidden_file(path: &str) -> (r: bool)
    ensures
        r == hidden(path@),
{
    let v = chars_of(path);
    let k = file_name_index(&v);
    proof {
        reveal_strlit(".");
        reveal_strlit("..");
        assert(file_name(v@).len() == v@.len() - k);
        if k < v@.len() {
            assert(file_name(v@)[0] == v@[k as int]);
        }
        if k + 1 < v@.len() {
            assert(file_name(v@)[1] == v@[k + 1]);
        }
    }
    if k >= v.len() || v[k] != '.' {
        return false;
    }
    let n = v.len() - k;
    if n == 1 {
        assert(file_name(v@) =~= "."@);
        return false;
    }
    if n == 2 && v[k + 1] == '.' {
        assert(file_name(v@) =~= ".."@);
        return false;
    }
    proof {
        if file_name(v@) == ".."@ {
            assert(".."@[1] == '.');
        }
    }
    true
}

/// How many of the attributes `attrs` from the `i`-th on are set, for
/// `wanted`, or not set, with `count` counted so far, where the handler's
/// answers are settled. `None` where an answer that is needed is the
/// system's to give.
pub open spec fn settled_count<P: PlatformHandler>(
    h: P,
    path: Seq<char>,
    attrs: Seq<Seq<char>>,
    wanted: bool,
    i: int,
    count: nat,
) -> Option<nat>
    decreases attrs.len() - i,
{
    if i < 0 || i >= attrs.len() {
        Some(count)
    } else {
        match h.settled_check(path, attrs[i]) {
            None => None,
            Some(present) => settled_count(
                h,
                path,
                attrs,
                wanted,
                i + 1,
                if present == wanted {
                    count + 1
                } else {
                    count
                },
            ),
        }
    }
}

/// What the work on `path` comes to where the handler's answers are
/// settled: a dry run counts the attributes that are missing, for
/// `Ignore`, or set, for `Reset`; otherwise the missing attributes are
/// set, or the set ones removed. `None` where an answer that is needed is
/// the system's to give.
pub open spec fn settled_process<P: PlatformHandler>(h: P, path: Seq<char>, config: Config) -> Option<
    Option<nat>,
> {
    let attrs = h.target_attributes();
    let wanted = !(config.action is Ignore);
    if config.dry_run {
        match settled_count(h, path, attrs, wanted, 0, 0) {
            Some(n) => Some(Some(n)),
            None => None,
        }
    } else if wanted {
        settled_removal(h, path, attrs, 0, 0)
    } else {
        settled_addition(h, path, attrs, true, 0, 0)
    }
}

/// How many of the platform's marker attributes the action would change
/// on `path`, or has changed. With `dry_run` nothing is changed: the count
/// is of the attributes that are missing, for `Ignore`, or set, for
/// `Reset`. Otherwise the missing attributes are set, or the set ones
/// removed, and counted. The first failure ends the work with its error.
/// Where the handler's answers are settled, the result is what follows
/// from them.
pub fn process_path<P: PlatformHandler>(platform: &P, path: &str, config: &Config) -> (r: Result<
    usize,
    AttributeError,
>)
    requires
        config.action is Ignore || config.action is Reset,
    ensures
        r matches Ok(n) ==> n <= platform.target_attributes().len(),
        r matches Err(e) ==> error_among(e, platform.target_attributes()),
        r is Err ==> platform.target_attributes().len() > 0,
        config.dry_run ==> (r matches Err(e) ==> e is CheckFailed),
        settled_process(*platform, path@, *config) matches Some(t) ==> is_tally(r, t),
{
    let wanted = match config.action {
        Action::Ignore => false,
        _ => true,
    };
    if !config.dry_run {
        return if wanted {
            remove_ignore_attributes(platform, path)
        } else {
            add_ignore_attributes(platform, path, true)
        };
    }
    let attrs = platform.get_target_attributes();
    let ghost names = platform.target_attributes();
    let ghost all = settled_count(*platform, path@, names, wanted, 0, 0);
    let mut count: usize = 0;
    let mut i: usize = 0;
    while i < attrs.len()
        invariant
            i <= attrs.len(),
            count <= i,
            names == platform.target_attributes(),
            attrs@.len() == platform.target_attributes().len(),
            forall|k: int| 0 <= k < attrs@.len() ==> attrs@[k]@ == platform.target_attributes()[k],
            config.dry_run,
            wanted == !(config.action is Ignore),
            all == settled_count(*platform, path@, names, wanted, 0, 0),
            all is Some ==> all == settled_count(
                *platform,
                path@,
                names,
                wanted,
                i as int,
                count as nat,
            ),
        decreases attrs.len() - i,
    {
        assert(names[i as int] == attrs@[i as int]@);
        match counted_answer(count, platform.has_attribute(path, attrs[i]), wanted) {
            Ok(n) => {
                count = n;
            },
            Err(e) => {
                return Err(e);
            },
        }
        i += 1;
    }
    Ok(count)
}

/// What the caller found when it looked a named path up.
#[derive(Debug, Clone, PartialEq, Eq)]
pub enum Lookup {
    /// The look-up failed; the text says how.
    Failed(String),
    /// There is no such path.
    Missing,
    /// What the path stands for: the existing paths that a pattern
    /// matches, the entries of the current directory, or the files that a
    /// rule file ignores. For a regular path that exists the list is not
    /// read.
    Found(Vec<String>),
}

/// A path or pattern that the user named, with what came of looking it
/// up.
#[derive(Debug, Clone, PartialEq, Eq)]
pub struct PathQuery {
    pub path: String,
    pub lookup: Lookup,
}

/// Why the named paths give no list of paths to work on.
#[derive(Debug, Clone, PartialEq, Eq)]
pub enum PathsError {
    /// Looking `path` up failed.
    LookupFailed { path: String, message: String },
    /// These patterns match nothing.
    NoMatches { patterns: Vec<String> },
    /// There is no such path.
    NotFound { path: String },
}

/// Whether the query is a pattern whose look-up failed.
pub open spec fn glob_failed(q: PathQuery) -> bool {
    glob_like(q.path@) && q.lookup is Failed
}

/// Whether the query is a pattern that matches nothing.
pub open spec fn glob_empty(q: PathQuery) -> bool {
    glob_like(q.path@) && match q.lookup {
        Lookup::Failed(_) => false,
        Lookup::Missing => true,
        Lookup::Found(v) => v@.len() == 0,
    }
}

/// Whether the query is a plain path that was not found.
pub open spec fn plain_bad(q: PathQuery) -> bool {
    !glob_like(q.path@) && !(q.lookup is Found)
}

/// What a pattern contributes: the paths it matches.
pub open spec fn glob_part(q: PathQuery) -> Seq<Seq<char>> {
    match q.lookup {
        Lookup::Found(v) if glob_like(q.path@) => views(v@),
        _ => Seq::empty(),
    }
}

/// The members of `paths` that are not hidden, in their order.
pub open spec fn visible(paths: Seq<Seq<char>>) -> Seq<Seq<char>>
    decreases paths.len(),
{
    if paths.len() == 0 {
        paths
    } else if hidden(paths.last()) {
        visible(paths.drop_last())
    } else {
        visible(paths.drop_last()).push(paths.last())
    }
}

/// What a plain path contributes: the visible entries of the current
/// directory, the files that a rule file ignores, or the path itself.
pub open spec fn plain_part(q: PathQuery) -> Seq<Seq<char>> {
    match q.lookup {
        Lookup::Found(v) if !glob_like(q.path@) => match path_type(q.path@) {
            PathType::CurrentDirectory => visible(views(v@)),
            PathType::GitIgnoreFile => views(v@),
            PathType::Regular => seq![q.path@],
        },
        _ => Seq::empty(),
    }
}

/// What the patterns among the queries contribute, in their order.
pub open spec fn glob_items(qs: Seq<PathQuery>) -> Seq<Seq<char>>
    decreases qs.len(),
{
    if qs.len() == 0 {
        Seq::empty()
    } else {
        glob_items(qs.drop_last()) + glob_part(qs.last())
    }
}

/// What the plain paths among the queries contribute, in their order.
pub open spec fn plain_items(qs: Seq<PathQuery>) -> Seq<Seq<char>>
    decreases qs.len(),
{
    if qs.len() == 0 {
        Seq::empty()
    } else {
        plain_items(qs.drop_last()) + plain_part(qs.last())
    }
}

/// The patterns among the queries that match nothing, in their order.
pub open spec fn empty_patterns(qs: Seq<PathQuery>) -> Seq<Seq<char>>
    decreases qs.len(),
{
    if qs.len() == 0 {
        Seq::empty()
    } else if glob_empty(qs.last()) {
        empty_patterns(qs.drop_last()).push(qs.last().path@)
    } else {
        empty_patterns(qs.drop_last())
    }
}

/// What can be wrong with a query.
#[derive(Debug, Clone, Copy, PartialEq, Eq, Structural)]
pub enum Fault {
    /// It is a pattern whose look-up failed.
    GlobFailed,
    /// It is a pattern that matches nothing.
    GlobEmpty,
    /// It is a plain path that was not found.
    PlainBad,
}

/// Whether `f` is wrong with `q`.
pub open spec fn faulty(q: PathQuery, f: Fault) -> bool {
    match f {
        Fault::GlobFailed => glob_failed(q),
        Fault::GlobEmpty => glob_empty(q),
        Fault::PlainBad => plain_bad(q),
    }
}

/// Whether `i` is the first position at which `f` is wrong.
pub open spec fn first_at(qs: Seq<PathQuery>, f: Fault, i: int) -> bool {
    &&& 0 <= i < qs.len()
    &&& faulty(qs[i], f)
    &&& forall|j: int| 0 <= j < i ==> !faulty(#[trigger] qs[j], f)
}

/// Whether `f` is wrong at no position.
pub open spec fn nowhere(qs: Seq<PathQuery>, f: Fault) -> bool {
    forall|j: int| 0 <= j < qs.len() ==> !faulty(#[trigger] qs[j], f)
}

fn push_all(items: &mut Vec<String>, more: &[String])
    ensures
        views(final(items)@) == views(old(items)@) + views(more@),
{
    let mut i: usize = 0;
    while i < more.len()
        invariant
            i <= more.len(),
            views(items@) =~= views(old(items)@) + views(more@).take(i as int),
        decreases more.len() - i,
    {
        let ghost before = views(items@);
        items.push(more[i].clone());
        assert(views(items@) =~= before.push(more@[i as int]@));
        assert(views(more@).take(i + 1) =~= views(more@).take(i as int).push(more@[i as int]@));
        i += 1;
    }
    assert(views(more@).take(more@.len() as int) =~= views(more@));
}

fn push_visible(items: &mut Vec<String>, more: &[String])
    ensures
        views(final(items)@) == views(old(items)@) + visible(views(more@)),
{
    let mut i: usize = 0;
    assert(views(more@).take(0) =~= Seq::<Seq<char>>::empty());
    while i < more.len()
        invariant
            i <= more.len(),
            views(items@) =~= views(old(items)@) + visible(views(more@).take(i as int)),
        decreases more.len() - i,
    {
        assert(views(more@).take(i + 1).drop_last() =~= views(more@).take(i as int));
        assert(views(more@).take(i + 1).last() == more@[i as int]@);
        let ghost before = views(items@);
        if !is_hidden_file(more[i].as_str()) {
            items.push(more[i].clone());
            assert(views(items@) =~= before.push(more@[i as int]@));
        }
        i += 1;
    }
    assert(views(more@).take(more@.len() as int) =~= views(more@));
}

/// The paths to work on, from the paths and patterns that the user named.
///
/// Patterns come first. A pattern whose look-up failed ends the work with
/// that failure. Otherwise, if any pattern matches nothing, the work ends
/// with the list of such patterns. Then the plain paths are taken in
/// their order: one that does not exist, or whose look-up failed, ends the
/// work. Where all is well the result holds what the patterns match,
/// followed by what the plain paths stand for: the visible entries of the
/// current directory, the files that a rule file ignores, or the path
/// itself.
pub fn get_files_from_paths(queries: &[PathQuery]) -> (r: Result<Vec<String>, PathsError>)
    ensures
        r is Ok == (nowhere(queries@, Fault::GlobFailed) && nowhere(queries@, Fault::GlobEmpty)
            && nowhere(queries@, Fault::PlainBad)),
        r matches Ok(items) ==> views(items@) == glob_items(queries@) + plain_items(queries@),
        !nowhere(queries@, Fault::GlobFailed) ==> (r matches Err(
            PathsError::LookupFailed { path, message },
        ) && exists|i: int| #[trigger]
            first_at(queries@, Fault::GlobFailed, i) && path@ == queries@[i].path@ && (
            queries@[i].lookup matches Lookup::Failed(m) && m@ == message@)),
        (nowhere(queries@, Fault::GlobFailed) && !nowhere(queries@, Fault::GlobEmpty)) ==> (
        r matches Err(PathsError::NoMatches { patterns }) && views(patterns@) == empty_patterns(
            queries@,
        )),
        (nowhere(queries@, Fault::GlobFailed) && nowhere(queries@, Fault::GlobEmpty) && !nowhere(
            queries@,
            Fault::PlainBad,
        )) ==> exists|i: int| #[trigger]
            first_at(queries@, Fault::PlainBad, i) && match queries@[i].lookup {
                Lookup::Missing => (r matches Err(PathsError::NotFound { path }) && path@
                    == queries@[i].path@),
                Lookup::Failed(m) => (r matches Err(PathsError::LookupFailed { path, message })
                    && path@ == queries@[i].path@ && message@ == m@),
                Lookup::Found(_) => false,
            },
{
    let mut items: Vec<String> = Vec::new();
    let mut unmatched: Vec<String> = Vec::new();
    let mut i: usize = 0;
    assert(queries@.take(0) =~= Seq::<PathQuery>::empty());
    assert(views(items@) =~= Seq::<Seq<char>>::empty());
    assert(views(unmatched@) =~= Seq::<Seq<char>>::empty());
    while i < queries.len()
        invariant
            i <= queries.len(),
            forall|j: int| 0 <= j < i ==> !faulty(#[trigger] queries@[j], Fault::GlobFailed),
            views(items@) == glob_items(queries@.take(i as int)),
            views(unmatched@) == empty_patterns(queries@.take(i as int)),
            unmatched@.len() == 0 <==> forall|j: int|
                0 <= j < i ==> !faulty(#[trigger] queries@[j], Fault::GlobEmpty),
        decreases queries.len() - i,
    {
        let q = &queries[i];
        let ghost before = views(unmatched@);
        proof {
            assert(queries@.take(i + 1).drop_last() =~= queries@.take(i as int));
            assert(queries@.take(i + 1).last() == *q);
        }
        if is_glob_pattern(q.path.as_str()) {
            match &q.lookup {
                Lookup::Failed(message) => {
                    assert(first_at(queries@, Fault::GlobFailed, i as int));
                    return Err(
                        PathsError::LookupFailed { path: q.path.clone(), message: message.clone() },
                    );
                },
                Lookup::Missing => {
                    unmatched.push(q.path.clone());
                    assert(views(unmatched@) =~= before.push(q.path@));
                    assert(views(items@) + Seq::<Seq<char>>::empty() =~= views(items@));
                },
                Lookup::Found(found) => {
                    if found.len() == 0 {
                        unmatched.push(q.path.clone());
                        assert(views(unmatched@) =~= before.push(q.path@));
                        assert(views(found@) =~= Seq::<Seq<char>>::empty());
                    }
                    push_all(&mut items, found.as_slice());
                },
            }
        } else {
            assert(views(items@) + Seq::<Seq<char>>::empty() =~= views(items@));
        }
        i += 1;
    }
    assert(queries@.take(queries@.len() as int) =~= queries@);
    if unmatched.len() > 0 {
        return Err(PathsError::NoMatches { patterns: unmatched });
    }
    let ghost globbed = views(items@);
    let mut k: usize = 0;
    assert(globbed + Seq::<Seq<char>>::empty() =~= globbed);
    while k < queries.len()
        invariant
            k <= queries.len(),
            globbed == glob_items(queries@),
            nowhere(queries@, Fault::GlobFailed),
            nowhere(queries@, Fault::GlobEmpty),
            forall|j: int| 0 <= j < k ==> !faulty(#[trigger] queries@[j], Fault::PlainBad),
            views(items@) == globbed + plain_items(queries@.take(k as int)),
        decreases queries.len() - k,
    {
        let q = &queries[k];
        let ghost before = plain_items(queries@.take(k as int));
        proof {
            assert(queries@.take(k + 1).drop_last() =~= queries@.take(k as int));
            assert(queries@.take(k + 1).last() == *q);
        }
        if !is_glob_pattern(q.path.as_str()) {
            match &q.lookup {
                Lookup::Failed(message) => {
                    assert(first_at(queries@, Fault::PlainBad, k as int));
                    return Err(
                        PathsError::LookupFailed { path: q.path.clone(), message: message.clone() },
                    );
                },
                Lookup::Missing => {
                    assert(first_at(queries@, Fault::PlainBad, k as int));
                    return Err(PathsError::NotFound { path: q.path.clone() });
                },
                Lookup::Found(found) => {
                    match classify_path(q.path.as_str()) {
                        PathType::CurrentDirectory => {
                            push_visible(&mut items, found.as_slice());
                        },
                        PathType::GitIgnoreFile => {
                            push_all(&mut items, found.as_slice());
                        },
                        PathType::Regular => {
                            items.push(q.path.clone());
                            assert(views(items@) =~= (globbed + before).push(q.path@));
                        },
                    }
                    assert(views(items@) =~= globbed + (before + plain_part(*q)));
                },
            }
        } else {
            assert(before + Seq::<Seq<char>>::empty() =~= before);
        }
        k += 1;
    }
    assert(queries@.take(queries@.len() as int) =~= queries@);
    Ok(items)
}

/// Where the paths to work on come from.
#[derive(Debug, Clone, Copy, PartialEq, Eq, Structural)]
pub enum FileSource {
    /// From what version control ignores.
    GitIgnored,
    /// From the paths and patterns that the user named.
    NamedPaths,
}

/// Where the paths of a request come from: from version control where the
/// user asked for that and named no path, else from the paths named.
pub fn file_source(config: &Config) -> (s: FileSource)
    ensures
        s == if config.git_mode && config.files@.len() == 0 {
            FileSource::GitIgnored
        } else {
            FileSource::NamedPaths
        },
{
    if config.git_mode && config.files.len() == 0 {
        FileSource::GitIgnored
    } else {
        FileSource::NamedPaths
    }
}

/// What came of the work on one path.
#[derive(Debug, PartialEq, Eq)]
pub struct PathResult {
    /// The path.
    pub path: String,
    /// How many marker attributes were changed, or would be, or why the
    /// work failed.
    pub outcome: Result<usize, AttributeError>,
}

/// The account of a request.
#[derive(Debug, Clone, PartialEq, Eq)]
pub struct ProcessSummary {
    /// How many paths were worked on without failure.
    pub processed: usize,
    /// How many marker attributes were changed in all, or would be. The
    /// count stops at the largest number that fits.
    pub operations: usize,
    /// The paths on which something was changed, where the record is to
    /// be brought up to date with them.
    pub changed: Vec<String>,
    /// Whether the record was brought up to date and is to be saved.
    pub save: bool,
}

/// How many of `results` are no failures.
pub open spec fn processed_count(results: Seq<PathResult>) -> nat
    decreases results.len(),
{
    if results.len() == 0 {
        0
    } else {
        processed_count(results.drop_last()) + if results.last().outcome is Ok {
            1nat
        } else {
            0nat
        }
    }
}

/// The sum of the counts in `results`.
pub open spec fn operation_count(results: Seq<PathResult>) -> nat
    decreases results.len(),
{
    if results.len() == 0 {
        0
    } else {
        operation_count(results.drop_last()) + match results.last().outcome {
            Ok(n) => n as nat,
            Err(_) => 0nat,
        }
    }
}

/// The paths of `results` on which something was changed, in their order.
pub open spec fn changed_paths(results: Seq<PathResult>) -> Seq<Seq<char>>
    decreases results.len(),
{
    if results.len() == 0 {
        Seq::empty()
    } else {
        let rest = changed_paths(results.drop_last());
        match results.last().outcome {
            Ok(n) if n > 0 => rest.push(results.last().path@),
            _ => rest,
        }
    }
}

/// Whether a request changes the record: it is no dry run, and it marks
/// or resets.
pub open spec fn updates_record(config: Config) -> bool {
    !config.dry_run && (config.action is Ignore || config.action is Reset)
}

/// The marked paths of the record after a request.
pub open spec fn files_after(config: Config, before: Seq<Seq<char>>, results: Seq<PathResult>) -> Seq<
    Seq<char>,
> {
    if !updates_record(config) {
        before
    } else if config.action is Ignore {
        with_added(before, changed_paths(results))
    } else {
        with_removed(before, changed_paths(results))
    }
}

/// The patterns of the record after a request.
pub open spec fn rules_after(config: Config, before: Seq<Seq<char>>) -> Seq<Seq<char>> {
    if !updates_record(config) {
        before
    } else if config.action is Ignore {
        with_added(before, views(config.patterns@))
    } else {
        with_removed(before, views(config.patterns@))
    }
}

/// `processed_count` is at most the number of results.
pub proof fn lemma_processed_bound(results: Seq<PathResult>)
    ensures
        processed_count(results) <= results.len(),
    decreases results.len(),
{
    if results.len() > 0 {
        lemma_processed_bound(results.drop_last());
    }
}

/// Closes a request once every path has been worked on: counts what was
/// done, and brings the record up to date. Unless the request is a dry
/// run, marking adds the paths on which markers were set, and the
/// patterns of the request, to the record; resetting takes the paths from
/// which markers were removed, and the patterns, out of it. A failure on
/// one path leaves the others as they are.
pub fn process_files_and_patterns(
    config: &Config,
    record: &mut TrackedFiles,
    results: &[PathResult],
) -> (s: ProcessSummary)
    ensures
        s.processed == processed_count(results@),
        s.operations == if operation_count(results@) <= usize::MAX {
            operation_count(results@)
        } else {
            usize::MAX as nat
        },
        s.save == updates_record(*config),
        views(s.changed@) == if updates_record(*config) {
            changed_paths(results@)
        } else {
            Seq::empty()
        },
        final(record).files() == files_after(*config, old(record).files(), results@),
        final(record).rules() == rules_after(*config, old(record).rules()),
        !updates_record(*config) ==> *final(record) == *old(record),
        old(record).wf() ==> final(record).wf(),
{
    let mut processed: usize = 0;
    let mut operations: usize = 0;
    let mut changed: Vec<String> = Vec::new();
    let mut i: usize = 0;
    assert(results@.take(0) =~= Seq::<PathResult>::empty());
    assert(views(changed@) =~= Seq::<Seq<char>>::empty());
    while i < results.len()
        invariant
            i <= results.len(),
            processed == processed_count(results@.take(i as int)),
            operations == if operation_count(results@.take(i as int)) <= usize::MAX {
                operation_count(results@.take(i as int))
            } else {
                usize::MAX as nat
            },
            views(changed@) == changed_paths(results@.take(i as int)),
        decreases results.len() - i,
    {
        let ghost before = views(changed@);
        proof {
            assert(results@.take(i + 1).drop_last() =~= results@.take(i as int));
            assert(results@.take(i + 1).last() == results@[i as int]);
            lemma_processed_bound(results@.take(i + 1));
        }
        match &results[i].outcome {
            Ok(n) => {
                processed += 1;
                operations = operations.saturating_add(*n);
                if *n > 0 {
                    changed.push(results[i].path.clone());
                    assert(views(changed@) =~= before.push(results@[i as int].path@));
                }
            },
            Err(_) => {},
        }
        i += 1;
    }
    assert(results@.take(results@.len() as int) =~= results@);
    let update = !config.dry_run && match config.action {
        Action::Ignore | Action::Reset => true,
        _ => false,
    };
    if !update {
        let nothing: Vec<String> = Vec::new();
        assert(views(nothing@) =~= Seq::<Seq<char>>::empty());
        return ProcessSummary { processed, operations, changed: nothing, save: false };
    }
    match config.action {
        Action::Ignore => {
            if changed.len() > 0 {
                record.add_files(changed.as_slice());
            }
            if config.patterns.len() > 0 {
                record.add_patterns(config.patterns.as_slice());
            }
        },
        _ => {
            if changed.len() > 0 {
                record.remove_files(changed.as_slice());
            }
            if config.patterns.len() > 0 {
                record.remove_patterns(config.patterns.as_slice());
            }
        },
    }
    proof {
        crate::lists::lemma_nothing_to_do(old(record).files());
        crate::lists::lemma_nothing_to_do(old(record).rules());
        if changed@.len() == 0 {
            assert(views(changed@) =~= Seq::<Seq<char>>::empty());
        }
        if config.patterns@.len() == 0 {
            assert(views(config.patterns@) =~= Seq::<Seq<char>>::empty());
        }
    }
    ProcessSummary { processed, operations, changed, save: true }
}

/// What a request comes to, given the state it meets.
#[derive(Debug, Clone, Copy, PartialEq, Eq, Structural)]
pub enum RunPlan {
    /// The platform cannot mark paths: say so, and do nothing.
    Unsupported,
    /// A watcher is running already, as the process given: say so.
    AlreadyWatching(u32),
    /// Be the watcher: write the session record, watch, and remove the
    /// record at the end.
    RunWatcher,
    /// Start a watcher in the background; where `mark_first` is set, mark
    /// the named paths before.
    SpawnWatcher { mark_first: bool },
    /// Stop the watcher, which runs as the process given, and remove its
    /// record.
    StopWatcher(u32),
    /// No watcher is running: say so.
    NoWatcher,
    /// Work on paths.
    Process,
}

/// What a request comes to. `supported` tells whether the platform can
/// mark paths, `watcher` is the process of the watcher that is running for
/// the directory, if one is.
pub open spec fn planned(config: Config, supported: bool, watcher: Option<u32>) -> RunPlan {
    if !supported {
        RunPlan::Unsupported
    } else {
        match config.action {
            Action::Watch => match watcher {
                Some(pid) => RunPlan::AlreadyWatching(pid),
                None => if config.daemon_mode {
                    RunPlan::RunWatcher
                } else {
                    RunPlan::SpawnWatcher { mark_first: config.files@.len() > 0 }
                },
            },
            Action::Unwatch => match watcher {
                Some(pid) => RunPlan::StopWatcher(pid),
                None => RunPlan::NoWatcher,
            },
            _ => RunPlan::Process,
        }
    }
}

/// What a request comes to.
pub fn plan_run(config: &Config, supported: bool, watcher: Option<u32>) -> (plan: RunPlan)
    ensures
        plan == planned(*config, supported, watcher),
{
    if !supported {
        return RunPlan::Unsupported;
    }
    match config.action {
        Action::Watch => match watcher {
            Some(pid) => RunPlan::AlreadyWatching(pid),
            None => if config.daemon_mode {
                RunPlan::RunWatcher
            } else {
                RunPlan::SpawnWatcher { mark_first: config.files.len() > 0 }
            },
        },
        Action::Unwatch => match watcher {
            Some(pid) => RunPlan::StopWatcher(pid),
            None => RunPlan::NoWatcher,
        },
        _ => RunPlan::Process,
    }
}

/// Why a request is refused before any work is done.
#[derive(Debug, Clone, Copy, PartialEq, Eq, Structural)]
pub enum RequestError {
    /// Resetting was asked for together with watching or unwatching.
    ResetWithWatch,
    /// Watching and unwatching were asked for together.
    WatchWithUnwatch,
    /// A verbose and a quiet report were asked for together.
    VerboseWithQuiet,
    /// A whole directory is to be marked where no ignore rules say what
    /// in it is meant.
    WholeDirectoryWithoutRules,
}

/// The action that the flags of a request ask for. Resetting goes before
/// watching, watching before unwatching, and marking is meant where none
/// is set; flags that exclude each other are refused.
pub fn action_from_flags(reset: bool, watch: bool, unwatch: bool) -> (r: Result<
    Action,
    RequestError,
>)
    ensures
        r == if reset {
            if watch || unwatch {
                Err::<Action, RequestError>(RequestError::ResetWithWatch)
            } else {
                Ok::<Action, RequestError>(Action::Reset)
            }
        } else if watch {
            if unwatch {
                Err::<Action, RequestError>(RequestError::WatchWithUnwatch)
            } else {
                Ok::<Action, RequestError>(Action::Watch)
            }
        } else if unwatch {
            Ok::<Action, RequestError>(Action::Unwatch)
        } else {
            Ok::<Action, RequestError>(Action::Ignore)
        },
{
    if reset {
        if watch || unwatch {
            Err(RequestError::ResetWithWatch)
        } else {
            Ok(Action::Reset)
        }
    } else if watch {
        if unwatch {
            Err(RequestError::WatchWithUnwatch)
        } else {
            Ok(Action::Watch)
        }
    } else if unwatch {
        Ok(Action::Unwatch)
    } else {
        Ok(Action::Ignore)
    }
}

/// Whether one of the named paths stands for everything in the current
/// directory: `.`, `./`, `*` or `./*`.
pub open spec fn names_everything(files: Seq<Seq<char>>) -> bool {
    seq_contains(files, "."@) || seq_contains(files, "./"@) || seq_contains(files, "*"@)
        || seq_contains(files, "./*"@)
}

/// Whether a request is refused. A request for both a verbose and a quiet
/// report is. So is one to mark everything in the current directory,
/// unless the directory lies in a repository and holds an ignore-rule
/// file: what is to be marked is then taken from the rules.
pub open spec fn refusal(config: Config, has_gitignore: bool, in_repository: bool) -> Option<
    RequestError,
> {
    if config.action is Ignore && names_everything(views(config.files@)) && !(has_gitignore
        && in_repository) {
        Some(RequestError::WholeDirectoryWithoutRules)
    } else if config.verbose && config.quiet {
        Some(RequestError::VerboseWithQuiet)
    } else {
        None
    }
}

/// Checks a request before any work is done. `has_gitignore` tells whether
/// the current directory holds an ignore-rule file, `in_repository`
/// whether it lies in a repository.
pub fn check_request(config: &Config, has_gitignore: bool, in_repository: bool) -> (r: Result<
    (),
    RequestError,
>)
    ensures
        r == match refusal(*config, has_gitignore, in_repository) {
            Some(e) => Err::<(), RequestError>(e),
            None => Ok::<(), RequestError>(()),
        },
{
    let marking = match config.action {
        Action::Ignore => true,
        _ => false,
    };
    let files = config.files.as_slice();
    if marking && (crate::text::contains_str(files, ".") || crate::text::contains_str(files, "./")
        || crate::text::contains_str(files, "*") || crate::text::contains_str(files, "./*")) && !(
    has_gitignore && in_repository) {
        return Err(RequestError::WholeDirectoryWithoutRules);
    }
    if config.verbose && config.quiet {
        return Err(RequestError::VerboseWithQuiet);
    }
    Ok(())
}

/// Whether a request takes its paths from version control: the user asked
/// for that, or named no path at all.
pub fn git_mode_for(git_flag: bool, files: &[String]) -> (r: bool)
    ensures
        r == (git_flag || files@.len() == 0),
{
    git_flag || files.len() == 0
}

} // verus!
