//! The watcher: which source of desired paths a session follows, which
//! file-system events matter to it, and the states it moves through.

use crate::engine::reconcile::{
    all_carried_out,
    apply_decisions,
    closing_lines,
    decided,
    entry_among,
    entry_views,
    find_marked_files,
    item_lines,
    marked_of,
    paths_of,
    reconcile,
    reconciled,
    report,
    settled_marked,
    tally,
    AppliedDecision,
    MarkedPath,
    ScanReport,
    Tally,
};
use crate::engine::resolver::{
    desired_by_rules,
    desired_paths,
    explains,
    first_bad_rule_file,
    missing_paths,
    pattern_error,
    resolvable,
    resolve_by_rules,
    resolve_desired_set,
    ResolveError,
    Survey,
};
use crate::engine::tracked_files::TrackedFiles;
use crate::lists::{keep_listed, lemma_nothing_to_do, only_listed, with_removed};
use crate::text::{
    clone_strings,
    file_name,
    file_name_is,
    has_segment,
    path_has_segment,
    seq_contains,
    views,
};
use crate::traits::PlatformHandler;
use crate::utils::pattern_matcher::{
    all_accepted,
    ignores,
    in_metadata,
    lemma_rejected_not_all,
    list_compiles,
    matching_files,
    EntryKind,
    PatternMatcher,
    WalkEntry,
};
use vstd::prelude::*;

verus! {

/// The length of the quiet period after an event, in milliseconds.
pub const DEFAULT_DEBOUNCE_MS: u64 = 500;

/// Where a session takes the desired paths from.
#[derive(Debug, Clone, PartialEq, Eq)]
pub enum WatchMode {
    /// From the paths that the user marked.
    TrackedFiles,
    /// From the ignore rules of version control.
    GitIgnore,
    /// From these patterns, in their order.
    Patterns(Vec<String>),
}

impl WatchMode {
    /// The mode that a record calls for: its patterns where it has any,
    /// else its marked paths where it has any, else the ignore rules of
    /// version control.
    pub fn for_record(record: &TrackedFiles) -> (mode: WatchMode)
        ensures
            record.rules().len() > 0 ==> (mode matches WatchMode::Patterns(p) && views(p@)
                == record.rules()),
            record.rules().len() == 0 && record.files().len() > 0 ==> mode is TrackedFiles,
            record.rules().len() == 0 && record.files().len() == 0 ==> mode is GitIgnore,
    {
        if record.patterns.len() > 0 {
            WatchMode::Patterns(clone_strings(record.patterns.as_slice()))
        } else if record.marked_files.len() > 0 {
            WatchMode::TrackedFiles
        } else {
            WatchMode::GitIgnore
        }
    }
}

/// What a session is set up with.
#[derive(Debug, Clone, PartialEq, Eq)]
pub struct WatchConfig {
    /// The directory to watch.
    pub repo_path: String,
    /// The length of the quiet period after an event, in milliseconds.
    pub debounce_ms: u64,
}

impl WatchConfig {
    /// The configuration for `repo_path`, with the default quiet period.
    pub fn new(repo_path: String) -> (c: WatchConfig)
        ensures
            c.repo_path == repo_path,
            c.debounce_ms == DEFAULT_DEBOUNCE_MS,
    {
        WatchConfig { repo_path, debounce_ms: DEFAULT_DEBOUNCE_MS }
    }
}

/// What happened to a path, as the file-system watcher reports it.
#[derive(Debug, Clone, Copy, PartialEq, Eq, Structural)]
pub enum EventKind {
    /// Something was created.
    Create,
    /// Contents or metadata changed.
    Modify,
    /// Something was removed.
    Remove,
    /// Something was read or opened.
    Access,
    /// Anything else.
    Other,
}

/// One report of the file-system watcher.
#[derive(Debug, Clone, PartialEq, Eq)]
pub struct FsEvent {
    /// What happened.
    pub kind: EventKind,
    /// The paths it happened to.
    pub paths: Vec<String>,
}

/// Whether a path belongs to version control's own files: it is an
/// ignore-rule file, or lies in the metadata directory.
pub open spec fn is_vcs_path(p: Seq<char>) -> bool {
    file_name(p) == ".gitignore"@ || has_segment(p, ".git"@)
}

/// Whether an event of kind `kind` on `paths` can change the desired
/// paths. Under patterns, what exists decides, so creations and removals
/// matter. Otherwise the ignore rules decide, so creations, changes and
/// removals of version control's own files matter.
pub open spec fn triggers_rescan(kind: EventKind, paths: Seq<Seq<char>>, patterns: bool) -> bool {
    if patterns {
        kind is Create || kind is Remove
    } else {
        (kind is Create || kind is Modify || kind is Remove) && exists|i: int|
            0 <= i < paths.len() && is_vcs_path(#[trigger] paths[i])
    }
}

/// Whether `event` calls for a new scan under `watch_mode`.
pub fn should_trigger_rescan(event: &FsEvent, watch_mode: &WatchMode) -> (r: bool)
    ensures
        r == triggers_rescan(event.kind, views(event.paths@), watch_mode is Patterns),
{
    let change = match event.kind {
        EventKind::Create | EventKind::Modify | EventKind::Remove => true,
        _ => false,
    };
    if !change {
        return false;
    }
    match watch_mode {
        WatchMode::Patterns(_) => match event.kind {
            EventKind::Create | EventKind::Remove => true,
            _ => false,
        },
        _ => {
            let mut i: usize = 0;
            while i < event.paths.len()
                invariant
                    i <= event.paths.len(),
                    event.kind is Create || event.kind is Modify || event.kind is Remove,
                    !(watch_mode is Patterns),
                    forall|k: int| 0 <= k < i ==> !is_vcs_path(event.paths@[k]@),
                decreases event.paths.len() - i,
            {
                let path = event.paths[i].as_str();
                if file_name_is(path, ".gitignore") || path_has_segment(path, ".git") {
                    assert(views(event.paths@)[i as int] == path@);
                    return true;
                }
                i += 1;
            }
            assert forall|k: int| 0 <= k < views(event.paths@).len() implies !is_vcs_path(
                #[trigger] views(event.paths@)[k],
            ) by {
                assert(views(event.paths@)[k] == event.paths@[k]@);
            }
            false
        },
    }
}

/// The states of a session.
#[derive(Debug, Clone, Copy, PartialEq, Eq, Structural)]
pub enum SessionState {
    /// The repository is being found and the mode derived.
    Initializing,
    /// A pass of resolving and reconciling is running.
    Scanning,
    /// The session waits for an event.
    Idle,
    /// An event has come, and the quiet period after it is running.
    Debouncing,
    /// The session has ended, or is ending. No state follows.
    ShuttingDown,
}

/// Where a session stands: its state, whether it has been asked to stop,
/// and whether its first pass has gone well. A session that is asked to
/// stop while a quiet period or a pass is running lets them end first. A
/// session is ready once its first pass has gone well; until then a pass
/// that fails ends it.
#[derive(Debug, Clone, Copy, PartialEq, Eq, Structural)]
pub struct Phase {
    pub state: SessionState,
    pub stopping: bool,
    pub ready: bool,
}

/// What can happen to a session.
#[derive(Debug, Clone, Copy, PartialEq, Eq, Structural)]
pub enum Stimulus {
    /// The repository was found and the mode derived.
    Initialized,
    /// No repository was found.
    NoRepository,
    /// The running pass has ended well.
    ScanFinished,
    /// The running pass has failed.
    ScanFailed,
    /// An event that calls for a new scan.
    RelevantChange,
    /// An event that does not.
    IrrelevantChange,
    /// The quiet period has passed without a further event.
    DebounceElapsed,
    /// The session was asked to stop.
    ShutdownRequested,
}

/// What the caller does next.
#[derive(Debug, Clone, Copy, PartialEq, Eq, Structural)]
pub enum SessionAction {
    /// Run a pass, then report `ScanFinished` or `ScanFailed`.
    RunScan,
    /// Start the quiet period anew, then report `DebounceElapsed` unless an
    /// event comes first.
    StartDebounce,
    /// Go on waiting.
    Wait,
    /// Stop watching and end.
    Stop,
    /// End with an error: there is no repository, or the first pass has
    /// failed.
    Abort,
}

/// The state that follows, and what the caller does next. The first pass
/// has to go well: a session whose first pass fails ends with an error. A
/// later pass that fails is passed over, and the session waits on.
pub open spec fn next(p: Phase, s: Stimulus) -> (Phase, SessionAction) {
    match p.state {
        SessionState::Initializing => match s {
            Stimulus::Initialized => if p.stopping {
                (Phase { state: SessionState::ShuttingDown, ..p }, SessionAction::Stop)
            } else {
                (Phase { state: SessionState::Scanning, ..p }, SessionAction::RunScan)
            },
            Stimulus::NoRepository => (
                Phase { state: SessionState::ShuttingDown, ..p },
                SessionAction::Abort,
            ),
            Stimulus::ShutdownRequested => (Phase { stopping: true, ..p }, SessionAction::Wait),
            _ => (p, SessionAction::Wait),
        },
        SessionState::Scanning => match s {
            Stimulus::ScanFailed if !p.ready => (
                Phase { state: SessionState::ShuttingDown, ..p },
                SessionAction::Abort,
            ),
            Stimulus::ScanFinished | Stimulus::ScanFailed => if p.stopping {
                (Phase { state: SessionState::ShuttingDown, ..p }, SessionAction::Stop)
            } else {
                (Phase { state: SessionState::Idle, ready: true, ..p }, SessionAction::Wait)
            },
            Stimulus::ShutdownRequested => (Phase { stopping: true, ..p }, SessionAction::Wait),
            _ => (p, SessionAction::Wait),
        },
        SessionState::Idle => match s {
            Stimulus::RelevantChange => (
                Phase { state: SessionState::Debouncing, ..p },
                SessionAction::StartDebounce,
            ),
            Stimulus::ShutdownRequested => (
                Phase { state: SessionState::ShuttingDown, stopping: true, ..p },
                SessionAction::Stop,
            ),
            _ => (p, SessionAction::Wait),
        },
        SessionState::Debouncing => match s {
            Stimulus::RelevantChange => (p, SessionAction::StartDebounce),
            Stimulus::DebounceElapsed => (
                Phase { state: SessionState::Scanning, ..p },
                SessionAction::RunScan,
            ),
            Stimulus::ShutdownRequested => (Phase { stopping: true, ..p }, SessionAction::Wait),
            _ => (p, SessionAction::Wait),
        },
        SessionState::ShuttingDown => (p, SessionAction::Wait),
    }
}

/// Moves a session on by one stimulus.
pub fn step(p: Phase, s: Stimulus) -> (r: (Phase, SessionAction))
    ensures
        r == next(p, s),
{
    match p.state {
        SessionState::Initializing => match s {
            Stimulus::Initialized => if p.stopping {
                (Phase { state: SessionState::ShuttingDown, ..p }, SessionAction::Stop)
            } else {
                (Phase { state: SessionState::Scanning, ..p }, SessionAction::RunScan)
            },
            Stimulus::NoRepository => (
                Phase { state: SessionState::ShuttingDown, ..p },
                SessionAction::Abort,
            ),
            Stimulus::ShutdownRequested => (Phase { stopping: true, ..p }, SessionAction::Wait),
            _ => (p, SessionAction::Wait),
        },
        SessionState::Scanning => match s {
            Stimulus::ScanFailed if !p.ready => (
                Phase { state: SessionState::ShuttingDown, ..p },
                SessionAction::Abort,
            ),
            Stimulus::ScanFinished | Stimulus::ScanFailed => if p.stopping {
                (Phase { state: SessionState::ShuttingDown, ..p }, SessionAction::Stop)
            } else {
                (Phase { state: SessionState::Idle, ready: true, ..p }, SessionAction::Wait)
            },
            Stimulus::ShutdownRequested => (Phase { stopping: true, ..p }, SessionAction::Wait),
            _ => (p, SessionAction::Wait),
        },
        SessionState::Idle => match s {
            Stimulus::RelevantChange => (
                Phase { state: SessionState::Debouncing, ..p },
                SessionAction::StartDebounce,
            ),
            Stimulus::ShutdownRequested => (
                Phase { state: SessionState::ShuttingDown, stopping: true, ..p },
                SessionAction::Stop,
            ),
            _ => (p, SessionAction::Wait),
        },
        SessionState::Debouncing => match s {
            Stimulus::RelevantChange => (p, SessionAction::StartDebounce),
            Stimulus::DebounceElapsed => (
                Phase { state: SessionState::Scanning, ..p },
                SessionAction::RunScan,
            ),
            Stimulus::ShutdownRequested => (Phase { stopping: true, ..p }, SessionAction::Wait),
            _ => (p, SessionAction::Wait),
        },
        SessionState::ShuttingDown => (p, SessionAction::Wait),
    }
}

/// Where a session stands after a sequence of stimuli.
pub open spec fn after(p: Phase, stimuli: Seq<Stimulus>) -> Phase
    decreases stimuli.len(),
{
    if stimuli.len() == 0 {
        p
    } else {
        next(after(p, stimuli.drop_last()), stimuli.last()).0
    }
}

/// How many passes a sequence of stimuli sets off.
pub open spec fn scans(p: Phase, stimuli: Seq<Stimulus>) -> nat
    decreases stimuli.len(),
{
    if stimuli.len() == 0 {
        0
    } else {
        let before = stimuli.drop_last();
        scans(p, before) + if next(after(p, before), stimuli.last()).1 is RunScan {
            1nat
        } else {
            0nat
        }
    }
}

/// A burst of events sets off no pass while it lasts, and leaves the
/// session in its quiet period.
pub proof fn lemma_burst_collapses(p: Phase, burst: Seq<Stimulus>)
    requires
        p.state is Idle || p.state is Debouncing,
        forall|i: int| 0 <= i < burst.len() ==> burst[i] is RelevantChange,
    ensures
        scans(p, burst) == 0,
        burst.len() == 0 ==> after(p, burst) == p,
        burst.len() > 0 ==> after(p, burst) == (Phase { state: SessionState::Debouncing, ..p }),
    decreases burst.len(),
{
    if burst.len() > 0 {
        let before = burst.drop_last();
        assert(burst.last() == burst[burst.len() - 1]);
        assert forall|i: int| 0 <= i < before.len() implies before[i] is RelevantChange by {
            assert(before[i] == burst[i]);
        }
        lemma_burst_collapses(p, before);
    }
}

/// However many events arrive within one quiet period, exactly one pass
/// follows: a burst of one or more relevant events and the end of the
/// quiet period after it set off one pass, not one per event.
pub proof fn lemma_debounce_one_pass(p: Phase, burst: Seq<Stimulus>)
    requires
        p.state is Idle,
        burst.len() > 0,
        forall|i: int| 0 <= i < burst.len() ==> burst[i] is RelevantChange,
    ensures
        scans(p, burst.push(Stimulus::DebounceElapsed)) == 1,
        after(p, burst.push(Stimulus::DebounceElapsed)) == (Phase {
            state: SessionState::Scanning,
            ..p
        }),
{
    let all = burst.push(Stimulus::DebounceElapsed);
    assert(all.drop_last() =~= burst);
    assert(all.last() == Stimulus::DebounceElapsed);
    lemma_burst_collapses(p, burst);
}

/// The last state is never left. A session that has been asked to stop
/// stays so, and does not come to rest again: it does not enter `Idle`.
pub proof fn lemma_shutdown_is_final(p: Phase, s: Stimulus)
    ensures
        p.state is ShuttingDown ==> next(p, s).0 == p,
        p.stopping ==> next(p, s).0.stopping,
        p.stopping && next(p, s).0.state is Idle ==> p.state is Idle,
{
}

/// A session comes to rest in `Idle` for the first time only after a pass
/// that went well: a first pass that fails ends the session with an error,
/// and no event is waited for before.
pub proof fn lemma_first_pass_decides(p: Phase, s: Stimulus)
    requires
        !p.ready,
    ensures
        next(p, s).0.state is Idle && !(p.state is Idle) ==> s is ScanFinished && p.state is Scanning,
        p.state is Scanning && s is ScanFailed ==> next(p, s) == (
            Phase { state: SessionState::ShuttingDown, ..p },
            SessionAction::Abort,
        ),
        next(p, s).0.ready ==> s is ScanFinished && p.state is Scanning && !p.stopping,
{
}

/// A running session: its mode, which is fixed when the session starts,
/// and where it stands.
#[derive(Debug, Clone, PartialEq, Eq)]
pub struct WatchSession {
    /// Where the desired paths come from.
    pub mode: WatchMode,
    /// Where the session stands.
    pub phase: Phase,
}

/// What reaches a session from outside.
#[derive(Debug, Clone, PartialEq, Eq)]
pub enum SessionEvent {
    /// The running pass has ended well.
    ScanFinished,
    /// The running pass has failed.
    ScanFailed,
    /// The file-system watcher reports something.
    FileSystem(FsEvent),
    /// The quiet period has passed without a further event.
    DebounceElapsed,
    /// The session was asked to stop.
    ShutdownRequested,
}

/// The stimulus that an event is to a session in mode `mode`.
pub open spec fn stimulus_of(event: SessionEvent, mode: WatchMode) -> Stimulus {
    match event {
        SessionEvent::ScanFinished => Stimulus::ScanFinished,
        SessionEvent::ScanFailed => Stimulus::ScanFailed,
        SessionEvent::FileSystem(e) => if triggers_rescan(
            e.kind,
            views(e.paths@),
            mode is Patterns,
        ) {
            Stimulus::RelevantChange
        } else {
            Stimulus::IrrelevantChange
        },
        SessionEvent::DebounceElapsed => Stimulus::DebounceElapsed,
        SessionEvent::ShutdownRequested => Stimulus::ShutdownRequested,
    }
}

/// Why a session did not start.
#[derive(Debug, Clone, Copy, PartialEq, Eq, Structural)]
pub enum WatchError {
    /// The directory is not inside a repository.
    NotAGitRepository,
}

impl WatchSession {
    /// Starts a session. `repository` tells whether the directory to
    /// watch lies in a repository; without one the session does not start.
    /// The mode is derived from `record`, and the session begins with its
    /// first pass, which has to go well before the session waits for any
    /// event.
    pub fn start(repository: bool, record: &TrackedFiles) -> (r: Result<WatchSession, WatchError>)
        ensures
            !repository ==> r == Err::<WatchSession, WatchError>(WatchError::NotAGitRepository),
            repository ==> (r matches Ok(session) && {
                &&& session.phase == next(
                    Phase { state: SessionState::Initializing, stopping: false, ready: false },
                    Stimulus::Initialized,
                ).0
                &&& session.phase.state is Scanning
                &&& !session.phase.ready
                &&& record.rules().len() > 0 ==> (session.mode matches WatchMode::Patterns(p)
                    && views(p@) == record.rules())
                &&& record.rules().len() == 0 && record.files().len() > 0
                    ==> session.mode is TrackedFiles
                &&& record.rules().len() == 0 && record.files().len() == 0
                    ==> session.mode is GitIgnore
            }),
    {
        let begin = Phase { state: SessionState::Initializing, stopping: false, ready: false };
        if !repository {
            return Err(WatchError::NotAGitRepository);
        }
        let (phase, _) = step(begin, Stimulus::Initialized);
        Ok(WatchSession { mode: WatchMode::for_record(record), phase })
    }

    /// Takes one event and says what to do next. The mode stays what it
    /// was.
    pub fn handle(&mut self, event: &SessionEvent) -> (action: SessionAction)
        ensures
            final(self).mode == old(self).mode,
            (final(self).phase, action) == next(
                old(self).phase,
                stimulus_of(*event, old(self).mode),
            ),
    {
        let stimulus = match event {
            SessionEvent::ScanFinished => Stimulus::ScanFinished,
            SessionEvent::ScanFailed => Stimulus::ScanFailed,
            SessionEvent::FileSystem(e) => if should_trigger_rescan(e, &self.mode) {
                Stimulus::RelevantChange
            } else {
                Stimulus::IrrelevantChange
            },
            SessionEvent::DebounceElapsed => Stimulus::DebounceElapsed,
            SessionEvent::ShutdownRequested => Stimulus::ShutdownRequested,
        };
        let (phase, action) = step(self.phase, stimulus);
        self.phase = phase;
        action
    }
}

/// The paths among `entries` that are ignore-rule files: those outside
/// version control's metadata directory whose last segment is
/// `.gitignore`, in the order of the entries.
pub open spec fn rule_file_paths(entries: Seq<WalkEntry>) -> Seq<Seq<char>>
    decreases entries.len(),
{
    if entries.len() == 0 {
        Seq::empty()
    } else {
        let rest = rule_file_paths(entries.drop_last());
        if file_name(entries.last().path@) == ".gitignore"@ && !in_metadata(entries.last().path@) {
            rest.push(entries.last().path@)
        } else {
            rest
        }
    }
}

/// The ignore-rule files among `entries`. A session watches each of them
/// besides the directory tree as a whole.
pub fn find_gitignore_files(entries: &[WalkEntry]) -> (files: Vec<String>)
    ensures
        views(files@) == rule_file_paths(entries@),
{
    let mut files: Vec<String> = Vec::new();
    let mut i: usize = 0;
    assert(entries@.take(0) =~= Seq::<WalkEntry>::empty());
    assert(views(files@) =~= Seq::<Seq<char>>::empty());
    while i < entries.len()
        invariant
            i <= entries.len(),
            views(files@) == rule_file_paths(entries@.take(i as int)),
        decreases entries.len() - i,
    {
        let ghost before = views(files@);
        assert(entries@.take(i + 1).drop_last() =~= entries@.take(i as int));
        assert(entries@.take(i + 1).last() == entries@[i as int]);
        if file_name_is(entries[i].path.as_str(), ".gitignore") && !path_has_segment(
            entries[i].path.as_str(),
            ".git",
        ) {
            files.push(entries[i].path.clone());
            assert(views(files@) =~= before.push(entries@[i as int].path@));
        }
        i += 1;
    }
    assert(entries@.take(entries@.len() as int) =~= entries@);
    files
}

/// One pass of a session: what was found marked, the decisions with what
/// came of them, the account, and the paths that were taken out of the
/// record because they no longer exist.
#[derive(Debug, Clone, PartialEq, Eq)]
pub struct ScanPass {
    /// The paths that carried a marker when the pass began.
    pub marked: Vec<MarkedPath>,
    /// The decisions, each with its outcome.
    pub done: Vec<AppliedDecision>,
    /// The account of the pass.
    pub report: ScanReport,
    /// The paths that were taken out of the record.
    pub untracked: Vec<String>,
    /// Whether the record is to be written: the pass went by a record that
    /// holds marked paths.
    pub save: bool,
}

impl ScanPass {
    /// Whether the pass is one over `desired`: its decisions are those that
    /// reconcile `desired` with what was found marked, none of them to
    /// leave a path alone has changed anything, and the account is that of
    /// the decisions.
    pub open spec fn is_pass_over(&self, desired: Seq<Seq<char>>) -> bool {
        &&& decided(self.done@) == reconciled(desired, marked_of(self.marked@))
        &&& forall|i: int|
            0 <= i < self.done@.len() && (#[trigger] self.done@[i]).decision.action is Keep
                ==> self.done@[i].outcome is Unchanged
        &&& self.report.summary.added == tally(self.done@, Tally::Added)
        &&& self.report.summary.removed == tally(self.done@, Tally::Removed)
        &&& self.report.summary.errors == tally(self.done@, Tally::Failed)
        &&& self.report.lines@ == item_lines(self.done@, self.done@.len() as int) + closing_lines(
            self.report.summary,
        )
    }
}

/// The paths of a sequence of marked paths.
pub open spec fn marked_paths(marked: Seq<MarkedPath>) -> Seq<Seq<char>> {
    Seq::new(marked.len(), |i: int| marked[i].path@)
}

/// The paths `paths` as entries of no particular kind.
pub open spec fn as_entries(paths: Seq<Seq<char>>) -> Seq<(Seq<char>, EntryKind)> {
    Seq::new(paths.len(), |i: int| (paths[i], EntryKind::Other))
}

/// Whether `marked` is what the platform `h` reports as marked among the
/// entries `among`: no path is reported on a platform without attributes,
/// and where the handler's answers are settled, the paths are those that
/// follow from them, in the order of the entries.
pub open spec fn marked_by<P: PlatformHandler>(
    h: P,
    among: Seq<(Seq<char>, EntryKind)>,
    marked: Seq<MarkedPath>,
) -> bool {
    &&& h.target_attributes().len() == 0 ==> marked.len() == 0
    &&& settled_marked(h, among, 0, Seq::empty()) matches Some(found) ==> marked_paths(marked)
        == paths_of(found)
}

/// Whether none of `marked` lies inside version control's metadata
/// directory.
pub open spec fn outside_metadata(marked: Seq<MarkedPath>) -> bool {
    forall|i: int| 0 <= i < marked.len() ==> !in_metadata((#[trigger] marked[i]).path@)
}

/// Whether each of `marked` is one of `entries`, and removable unless
/// `protect` holds of it.
pub open spec fn marked_among(
    marked: Seq<MarkedPath>,
    entries: Seq<WalkEntry>,
    protect: spec_fn(WalkEntry) -> bool,
) -> bool {
    forall|i: int|
        0 <= i < marked.len() ==> exists|j: int|
            0 <= j < entries.len() && entries[j].path@ == (#[trigger] marked[i]).path@
                && marked[i].removable == !protect(entries[j])
}

fn run_pass<P: PlatformHandler>(
    platform: &P,
    desired: &[String],
    marked: Vec<MarkedPath>,
    untracked: Vec<String>,
    save: bool,
) -> (pass: ScanPass)
    ensures
        pass.is_pass_over(views(desired@)),
        all_carried_out(*platform, pass.done@),
        pass.marked == marked,
        pass.untracked == untracked,
        pass.save == save,
{
    let decisions = reconcile(desired, marked.as_slice());
    let done = apply_decisions(platform, decisions.as_slice());
    let report = report(done.as_slice());
    proof {
        assert(decided(done@) =~= crate::engine::reconcile::decisions_of(decisions@));
    }
    ScanPass { marked, done, report, untracked, save }
}

fn entries_of(paths: &[String]) -> (entries: Vec<WalkEntry>)
    ensures
        entries@.len() == paths@.len(),
        forall|i: int|
            0 <= i < paths@.len() ==> (#[trigger] entries@[i]).path@ == paths@[i]@
                && entries@[i].kind is Other,
{
    let mut entries: Vec<WalkEntry> = Vec::new();
    let mut i: usize = 0;
    while i < paths.len()
        invariant
            i <= paths.len(),
            entries@.len() == i,
            forall|k: int|
                0 <= k < i ==> (#[trigger] entries@[k]).path@ == paths@[k]@
                    && entries@[k].kind is Other,
        decreases paths.len() - i,
    {
        entries.push(WalkEntry { path: paths[i].clone(), kind: EntryKind::Other });
        i += 1;
    }
    entries
}

/// A pass under the ignore rules of version control. Every marker found
/// in the tree is removable: where the rules do not ignore a marked path
/// any more, its marker is taken off. Fails as `resolve_desired_set` does
/// under this mode, before anything is touched.
pub fn perform_gitignore_scan<P: PlatformHandler>(platform: &P, survey: &Survey) -> (r: Result<
    ScanPass,
    ResolveError,
>)
    ensures
        r is Ok == resolvable(WatchMode::GitIgnore, *survey),
        r matches Err(e) ==> (e is NotAGitRepository <==> !survey.repository),
        survey.repository ==> (r matches Err(e) ==> exists|k: int|
            first_bad_rule_file(survey.rule_files@, k) && explains(
                views(survey.rule_files@[k].lines@),
                e,
            )),
        r matches Ok(pass) ==> {
            &&& pass.is_pass_over(desired_by_rules(*survey))
            &&& all_carried_out(*platform, pass.done@)
            &&& marked_by(*platform, entry_views(survey.entries@), pass.marked@)
            &&& marked_among(pass.marked@, survey.entries@, |e: WalkEntry| false)
            &&& outside_metadata(pass.marked@)
            &&& pass.untracked@.len() == 0
            &&& !pass.save
        },
{
    let desired = match resolve_by_rules(survey) {
        Ok(desired) => desired,
        Err(e) => {
            return Err(e);
        },
    };
    let found = find_marked_files(platform, survey.entries.as_slice());
    let mut marked: Vec<MarkedPath> = Vec::new();
    let mut i: usize = 0;
    while i < found.len()
        invariant
            i <= found.len(),
            marked@.len() == i,
            forall|k: int|
                0 <= k < i ==> (#[trigger] marked@[k]).path@ == found@[k].path@
                    && marked@[k].removable,
        decreases found.len() - i,
    {
        marked.push(MarkedPath { path: found[i].path.clone(), removable: true });
        i += 1;
    }
    proof {
        assert(marked_paths(marked@) =~= paths_of(entry_views(found@)));
        assert forall|i: int| 0 <= i < marked@.len() implies !in_metadata(
            (#[trigger] marked@[i]).path@,
        ) by {
            assert(!in_metadata(found@[i].path@));
        }
        assert forall|i: int| 0 <= i < marked@.len() implies exists|j: int|
            0 <= j < survey.entries@.len() && survey.entries@[j].path@ == (
            #[trigger] marked@[i]).path@ && marked@[i].removable == !false by {
            assert(entry_among(survey.entries@, found@[i]));
            let j = choose|j: int|
                0 <= j < survey.entries@.len() && (#[trigger] survey.entries@[j]).path@
                    == found@[i].path@ && survey.entries@[j].kind == found@[i].kind;
            assert(survey.entries@[j].path@ == marked@[i].path@);
        }
    }
    Ok(run_pass(platform, desired.as_slice(), marked, Vec::new(), false))
}

/// A pass under patterns. A marker found in the tree is removable unless
/// the patterns ignore its path, as a file or as a directory: a marked
/// directory that matches keeps its marker though only files are desired.
/// Fails where the patterns do not compile, before anything is touched.
pub fn perform_pattern_scan<P: PlatformHandler>(
    platform: &P,
    survey: &Survey,
    patterns: &[String],
) -> (r: Result<ScanPass, ResolveError>)
    ensures
        r is Ok == (all_accepted(views(patterns@))
            && list_compiles(views(patterns@))),
        r matches Err(e) ==> explains(views(patterns@), e),
        r matches Ok(pass) ==> {
            &&& pass.is_pass_over(
                matching_files(
                    survey.root@,
                    views(patterns@),
                    survey.entries@,
                ),
            )
            &&& all_carried_out(*platform, pass.done@)
            &&& marked_by(*platform, entry_views(survey.entries@), pass.marked@)
            &&& marked_among(
                pass.marked@,
                survey.entries@,
                |e: WalkEntry| ignores(survey.root@, views(patterns@), e.path@, e.kind is Directory),
            )
            &&& outside_metadata(pass.marked@)
            &&& pass.untracked@.len() == 0
            &&& !pass.save
        },
{
    let matcher = match PatternMatcher::new(survey.root.as_str(), patterns) {
        Ok(matcher) => matcher,
        Err(e) => {
            proof {
                lemma_rejected_not_all(views(patterns@));
            }
            let error = pattern_error(e);
            assert(explains(views(patterns@), error));
            return Err(error);
        },
    };
    let desired = matcher.find_matching_files(survey.entries.as_slice());
    let found = find_marked_files(platform, survey.entries.as_slice());
    let ghost protect = |e: WalkEntry|
        ignores(survey.root@, views(patterns@), e.path@, e.kind is Directory);
    let mut marked: Vec<MarkedPath> = Vec::new();
    let mut i: usize = 0;
    while i < found.len()
        invariant
            i <= found.len(),
            marked@.len() == i,
            matcher.base() == survey.root@,
            matcher.patterns() == views(patterns@),
            forall|k: int|
                0 <= k < i ==> (#[trigger] marked@[k]).path@ == found@[k].path@
                    && marked@[k].removable == !ignores(
                    survey.root@,
                    views(patterns@),
                    found@[k].path@,
                    found@[k].kind is Directory,
                ),
        decreases found.len() - i,
    {
        let is_dir = match found[i].kind {
            EntryKind::Directory => true,
            _ => false,
        };
        let keep = matcher.is_ignored(found[i].path.as_str(), is_dir);
        marked.push(MarkedPath { path: found[i].path.clone(), removable: !keep });
        i += 1;
    }
    proof {
        assert(marked_paths(marked@) =~= paths_of(entry_views(found@)));
        assert forall|i: int| 0 <= i < marked@.len() implies !in_metadata(
            (#[trigger] marked@[i]).path@,
        ) by {
            assert(!in_metadata(found@[i].path@));
        }
        assert forall|i: int| 0 <= i < marked@.len() implies exists|j: int|
            0 <= j < survey.entries@.len() && survey.entries@[j].path@ == (
            #[trigger] marked@[i]).path@ && marked@[i].removable == !protect(survey.entries@[j]) by {
            assert(entry_among(survey.entries@, found@[i]));
            let j = choose|j: int|
                0 <= j < survey.entries@.len() && (#[trigger] survey.entries@[j]).path@
                    == found@[i].path@ && survey.entries@[j].kind == found@[i].kind;
            assert(survey.entries@[j].path@ == marked@[i].path@);
        }
    }
    Ok(run_pass(platform, desired.as_slice(), marked, Vec::new(), false))
}

/// A pass under marked paths. The marked paths that no longer exist are
/// taken out of the record. Of the others, those that the ignore rules
/// ignore are desired; a marker on any of the others is removable. Where
/// nothing is marked, nothing is done. Fails as `resolve_desired_set` does
/// under this mode, before anything is touched.
pub fn perform_tracked_files_scan<P: PlatformHandler>(
    platform: &P,
    record: &mut TrackedFiles,
    survey: &Survey,
) -> (r: Result<ScanPass, ResolveError>)
    ensures
        r is Ok == (old(record).files().len() == 0 || resolvable(WatchMode::TrackedFiles, *survey)),
        r matches Err(e) ==> (e is NotAGitRepository <==> !survey.repository),
        survey.repository ==> (r matches Err(e) ==> exists|k: int|
            first_bad_rule_file(survey.rule_files@, k) && explains(
                views(survey.rule_files@[k].lines@),
                e,
            )),
        r is Err ==> *final(record) == *old(record),
        final(record).rules() == old(record).rules(),
        old(record).wf() ==> final(record).wf(),
        r matches Ok(pass) ==> {
            &&& pass.is_pass_over(
                if old(record).files().len() == 0 {
                    Seq::empty()
                } else {
                    desired_paths(WatchMode::TrackedFiles, *old(record), *survey)
                },
            )
            &&& views(pass.untracked@) == with_removed(
                old(record).files(),
                views(survey.existing@),
            )
            &&& final(record).files() == with_removed(old(record).files(), views(pass.untracked@))
            &&& all_carried_out(*platform, pass.done@)
            &&& marked_by(
                *platform,
                as_entries(only_listed(old(record).files(), views(survey.existing@))),
                pass.marked@,
            )
            &&& outside_metadata(pass.marked@)
            &&& pass.save == (old(record).files().len() > 0)
            &&& forall|i: int|
                0 <= i < pass.marked@.len() ==> (#[trigger] pass.marked@[i]).removable
                    && seq_contains(old(record).files(), pass.marked@[i].path@) && seq_contains(
                    views(survey.existing@),
                    pass.marked@[i].path@,
                )
        },
{
    if record.marked_files.len() == 0 {
        proof {
            assert(with_removed(record.files(), views(survey.existing@)) =~= Seq::<
                Seq<char>,
            >::empty());
            assert(with_removed(record.files(), Seq::<Seq<char>>::empty()) =~= record.files());
        }
        let nothing: Vec<String> = Vec::new();
        assert(views(nothing@) =~= Seq::<Seq<char>>::empty());
        assert(only_listed(record.files(), views(survey.existing@)) =~= Seq::<
            Seq<char>,
        >::empty());
        assert(marked_paths(Seq::<MarkedPath>::empty()) =~= paths_of(
            Seq::<(Seq<char>, EntryKind)>::empty(),
        ));
        return Ok(run_pass(platform, nothing.as_slice(), Vec::new(), Vec::new(), false));
    }
    let desired = match resolve_desired_set(&WatchMode::TrackedFiles, record, survey) {
        Ok(desired) => desired,
        Err(e) => {
            return Err(e);
        },
    };
    let untracked = missing_paths(record, survey);
    let present = keep_listed(record.marked_files.as_slice(), survey.existing.as_slice());
    let candidates = entries_of(present.as_slice());
    let found = find_marked_files(platform, candidates.as_slice());
    let mut marked: Vec<MarkedPath> = Vec::new();
    let mut i: usize = 0;
    while i < found.len()
        invariant
            i <= found.len(),
            marked@.len() == i,
            forall|k: int|
                0 <= k < i ==> (#[trigger] marked@[k]).path@ == found@[k].path@
                    && marked@[k].removable,
        decreases found.len() - i,
    {
        marked.push(MarkedPath { path: found[i].path.clone(), removable: true });
        i += 1;
    }
    proof {
        assert(marked_paths(marked@) =~= paths_of(entry_views(found@)));
        assert(entry_views(candidates@) =~= as_entries(views(present@)));
        assert forall|i: int| 0 <= i < marked@.len() implies !in_metadata(
            (#[trigger] marked@[i]).path@,
        ) by {
            assert(!in_metadata(found@[i].path@));
        }
        crate::lists::lemma_only_listed(record.files(), views(survey.existing@));
        assert forall|i: int| 0 <= i < marked@.len() implies (#[trigger] marked@[i]).removable
            && seq_contains(record.files(), marked@[i].path@) && seq_contains(
            views(survey.existing@),
            marked@[i].path@,
        ) by {
            assert(entry_among(candidates@, found@[i]));
            let j = choose|j: int|
                0 <= j < candidates@.len() && (#[trigger] candidates@[j]).path@ == found@[i].path@
                    && candidates@[j].kind == found@[i].kind;
            assert(views(present@)[j] == present@[j]@);
            assert(seq_contains(views(present@), marked@[i].path@));
        }
    }
    record.remove_files(untracked.as_slice());
    Ok(run_pass(platform, desired.as_slice(), marked, untracked, true))
}

/// One pass under `mode`: the desired paths are worked out, the markers
/// in reach are looked up, and what differs is put right. Fails where the
/// desired paths cannot be worked out, before anything is touched.
pub fn perform_scan<P: PlatformHandler>(
    platform: &P,
    mode: &WatchMode,
    record: &mut TrackedFiles,
    survey: &Survey,
) -> (r: Result<ScanPass, ResolveError>)
    ensures
        r is Ok == (resolvable(*mode, *survey) || (mode is TrackedFiles && old(record).files().len()
            == 0)),
        r matches Err(e) ==> (e is NotAGitRepository <==> (!(mode is Patterns)
            && !survey.repository)),
        r matches Err(e) ==> match *mode {
            WatchMode::Patterns(patterns) => explains(views(patterns@), e),
            _ => !survey.repository || exists|k: int|
                first_bad_rule_file(survey.rule_files@, k) && explains(
                    views(survey.rule_files@[k].lines@),
                    e,
                ),
        },
        final(record).rules() == old(record).rules(),
        old(record).wf() ==> final(record).wf(),
        !(mode is TrackedFiles) ==> *final(record) == *old(record),
        r matches Ok(pass) ==> pass.is_pass_over(
            if mode is TrackedFiles && old(record).files().len() == 0 {
                Seq::empty()
            } else {
                desired_paths(*mode, *old(record), *survey)
            },
        ),
        r matches Ok(pass) ==> {
            &&& all_carried_out(*platform, pass.done@)
            &&& outside_metadata(pass.marked@)
            &&& marked_by(
                *platform,
                if mode is TrackedFiles {
                    as_entries(only_listed(old(record).files(), views(survey.existing@)))
                } else {
                    entry_views(survey.entries@)
                },
                pass.marked@,
            )
            &&& pass.save == (mode is TrackedFiles && old(record).files().len() > 0)
            &&& views(pass.untracked@) == if mode is TrackedFiles {
                with_removed(old(record).files(), views(survey.existing@))
            } else {
                Seq::empty()
            }
            &&& final(record).files() == with_removed(old(record).files(), views(pass.untracked@))
        },
{
    proof {
        lemma_nothing_to_do(record.files());
    }
    let r = match mode {
        WatchMode::TrackedFiles => perform_tracked_files_scan(platform, record, survey),
        WatchMode::GitIgnore => perform_gitignore_scan(platform, survey),
        WatchMode::Patterns(patterns) => perform_pattern_scan(platform, survey, patterns.as_slice()),
    };
    proof {
        if r is Ok && !(mode is TrackedFiles) {
            assert(views(r->Ok_0.untracked@) =~= Seq::<Seq<char>>::empty());
        }
    }
    r
}

} // verus!
