use dbx_ignore::engine::resolver::{ResolveError, RuleFile, Survey};
use dbx_ignore::engine::reconcile::ReportLine;
use dbx_ignore::engine::watch::{
    find_gitignore_files, perform_gitignore_scan, perform_pattern_scan, perform_scan,
    perform_tracked_files_scan, should_trigger_rescan, step, EventKind, FsEvent, Phase,
    SessionAction, SessionEvent, SessionState, Stimulus, WatchConfig, WatchError, WatchMode,
    WatchSession, DEFAULT_DEBOUNCE_MS,
};
use dbx_ignore::platforms::unsupported::UnsupportedHandler;
use dbx_ignore::platforms::windows::WindowsHandler;
use dbx_ignore::tracked_files::TrackedFiles;
use dbx_ignore::utils::pattern_matcher::{EntryKind, WalkEntry};

fn strings(items: &[&str]) -> Vec<String> {
    items.iter().map(|s| s.to_string()).collect()
}

fn event(kind: EventKind, paths: &[&str]) -> FsEvent {
    FsEvent { kind, paths: strings(paths) }
}

fn phase(state: SessionState) -> Phase {
    Phase { state, stopping: false, ready: state != SessionState::Initializing }
}

fn file(path: &str) -> WalkEntry {
    WalkEntry { path: path.to_string(), kind: EntryKind::File }
}

#[test]
fn watch_config_has_the_default_quiet_period() {
    let config = WatchConfig::new("/repo".to_string());
    assert_eq!(config.repo_path, "/repo");
    assert_eq!(config.debounce_ms, 500);
    assert_eq!(DEFAULT_DEBOUNCE_MS, 500);
}

#[test]
fn mode_is_patterns_whenever_there_are_patterns() {
    let mut record = TrackedFiles::default();
    record.add_patterns(&strings(&["*.log", "build/"]));
    assert_eq!(WatchMode::for_record(&record), WatchMode::Patterns(strings(&["*.log", "build/"])));

    record.add_files(&strings(&["a.txt"]));
    assert_eq!(WatchMode::for_record(&record), WatchMode::Patterns(strings(&["*.log", "build/"])));
}

#[test]
fn mode_is_tracked_files_without_patterns() {
    let mut record = TrackedFiles::default();
    record.add_files(&strings(&["a.txt"]));
    assert_eq!(WatchMode::for_record(&record), WatchMode::TrackedFiles);
}

#[test]
fn mode_falls_back_to_gitignore() {
    assert_eq!(WatchMode::for_record(&TrackedFiles::default()), WatchMode::GitIgnore);
}

#[test]
fn patterns_mode_reacts_to_creation_and_removal_only() {
    let mode = WatchMode::Patterns(strings(&["*.log"]));
    assert!(should_trigger_rescan(&event(EventKind::Create, &["/repo/a.txt"]), &mode));
    assert!(should_trigger_rescan(&event(EventKind::Remove, &["/repo/a.txt"]), &mode));
    assert!(should_trigger_rescan(&event(EventKind::Create, &[]), &mode));
    assert!(!should_trigger_rescan(&event(EventKind::Modify, &["/repo/.gitignore"]), &mode));
    assert!(!should_trigger_rescan(&event(EventKind::Access, &["/repo/a.txt"]), &mode));
    assert!(!should_trigger_rescan(&event(EventKind::Other, &["/repo/a.txt"]), &mode));
}

#[test]
fn other_modes_react_to_version_control_files_only() {
    for mode in [WatchMode::GitIgnore, WatchMode::TrackedFiles] {
        assert!(should_trigger_rescan(&event(EventKind::Modify, &["/repo/.gitignore"]), &mode));
        assert!(should_trigger_rescan(&event(EventKind::Create, &["/repo/sub/.gitignore"]), &mode));
        assert!(should_trigger_rescan(&event(EventKind::Remove, &["/repo/.git/index"]), &mode));
        assert!(should_trigger_rescan(
            &event(EventKind::Modify, &["/repo/a.txt", "/repo/.git/HEAD"]),
            &mode
        ));
        assert!(!should_trigger_rescan(&event(EventKind::Modify, &["/repo/a.txt"]), &mode));
        assert!(!should_trigger_rescan(&event(EventKind::Create, &["/repo/x.gitignore"]), &mode));
        assert!(!should_trigger_rescan(&event(EventKind::Create, &["/repo/.github/x"]), &mode));
        assert!(!should_trigger_rescan(&event(EventKind::Create, &[]), &mode));
        assert!(!should_trigger_rescan(&event(EventKind::Access, &["/repo/.gitignore"]), &mode));
        assert!(!should_trigger_rescan(&event(EventKind::Other, &["/repo/.git/HEAD"]), &mode));
    }
}

#[test]
fn session_moves_through_its_states() {
    let p = phase(SessionState::Initializing);
    let (p, a) = step(p, Stimulus::Initialized);
    assert_eq!((p.state, a), (SessionState::Scanning, SessionAction::RunScan));
    let (p, a) = step(p, Stimulus::ScanFinished);
    assert_eq!((p.state, a), (SessionState::Idle, SessionAction::Wait));
    let (p, a) = step(p, Stimulus::IrrelevantChange);
    assert_eq!((p.state, a), (SessionState::Idle, SessionAction::Wait));
    let (p, a) = step(p, Stimulus::RelevantChange);
    assert_eq!((p.state, a), (SessionState::Debouncing, SessionAction::StartDebounce));
    let (p, a) = step(p, Stimulus::DebounceElapsed);
    assert_eq!((p.state, a), (SessionState::Scanning, SessionAction::RunScan));
    let (p, a) = step(p, Stimulus::ScanFinished);
    assert_eq!((p.state, a), (SessionState::Idle, SessionAction::Wait));
    let (p, a) = step(p, Stimulus::ShutdownRequested);
    assert_eq!((p.state, a), (SessionState::ShuttingDown, SessionAction::Stop));
    assert!(p.stopping);
    for s in [
        Stimulus::Initialized,
        Stimulus::NoRepository,
        Stimulus::ScanFinished,
        Stimulus::ScanFailed,
        Stimulus::RelevantChange,
        Stimulus::IrrelevantChange,
        Stimulus::DebounceElapsed,
        Stimulus::ShutdownRequested,
    ] {
        assert_eq!(step(p, s), (p, SessionAction::Wait));
    }
}

#[test]
fn session_without_repository_aborts() {
    let (p, a) = step(phase(SessionState::Initializing), Stimulus::NoRepository);
    assert_eq!((p.state, a), (SessionState::ShuttingDown, SessionAction::Abort));
}

#[test]
fn burst_of_events_sets_off_one_scan() {
    for n in [1usize, 2, 5, 50] {
        let mut p = phase(SessionState::Idle);
        let mut scans = 0;
        for _ in 0..n {
            let (next, action) = step(p, Stimulus::RelevantChange);
            assert_eq!(action, SessionAction::StartDebounce);
            if action == SessionAction::RunScan {
                scans += 1;
            }
            p = next;
        }
        assert_eq!(p.state, SessionState::Debouncing);
        let (next, action) = step(p, Stimulus::DebounceElapsed);
        if action == SessionAction::RunScan {
            scans += 1;
        }
        assert_eq!(scans, 1);
        assert_eq!(next.state, SessionState::Scanning);
    }
}

#[test]
fn quiet_period_without_events_sets_off_nothing() {
    let (p, a) = step(phase(SessionState::Idle), Stimulus::DebounceElapsed);
    assert_eq!((p.state, a), (SessionState::Idle, SessionAction::Wait));
}

#[test]
fn shutdown_waits_for_the_quiet_period_and_the_pass() {
    let (p, a) = step(phase(SessionState::Debouncing), Stimulus::ShutdownRequested);
    assert_eq!((p.state, p.stopping, a), (SessionState::Debouncing, true, SessionAction::Wait));
    let (p, a) = step(p, Stimulus::DebounceElapsed);
    assert_eq!((p.state, p.stopping, a), (SessionState::Scanning, true, SessionAction::RunScan));
    let (p, a) = step(p, Stimulus::ScanFinished);
    assert_eq!((p.state, a), (SessionState::ShuttingDown, SessionAction::Stop));

    let (p, a) = step(phase(SessionState::Scanning), Stimulus::ShutdownRequested);
    assert_eq!((p.state, p.stopping, a), (SessionState::Scanning, true, SessionAction::Wait));
}

#[test]
fn failed_first_pass_ends_the_session() {
    let (p, a) = step(phase(SessionState::Initializing), Stimulus::Initialized);
    assert_eq!((p.state, p.ready, a), (SessionState::Scanning, false, SessionAction::RunScan));
    // No event is acted on before the first pass has ended.
    let (p, a) = step(p, Stimulus::RelevantChange);
    assert_eq!((p.state, a), (SessionState::Scanning, SessionAction::Wait));
    let (p, a) = step(p, Stimulus::ScanFailed);
    assert_eq!((p.state, a), (SessionState::ShuttingDown, SessionAction::Abort));
    assert!(!p.ready);

    let record = TrackedFiles::default();
    let mut session = WatchSession::start(true, &record).unwrap();
    assert_eq!(session.handle(&SessionEvent::ScanFailed), SessionAction::Abort);
    assert_eq!(session.phase.state, SessionState::ShuttingDown);
}

#[test]
fn failed_later_pass_is_passed_over() {
    let (p, a) = step(phase(SessionState::Initializing), Stimulus::Initialized);
    assert_eq!(a, SessionAction::RunScan);
    let (p, a) = step(p, Stimulus::ScanFinished);
    assert_eq!((p.state, p.ready, a), (SessionState::Idle, true, SessionAction::Wait));
    let (p, _) = step(p, Stimulus::RelevantChange);
    let (p, a) = step(p, Stimulus::DebounceElapsed);
    assert_eq!((p.state, a), (SessionState::Scanning, SessionAction::RunScan));
    let (p, a) = step(p, Stimulus::ScanFailed);
    assert_eq!((p.state, p.ready, a), (SessionState::Idle, true, SessionAction::Wait));

    let stopping = Phase { state: SessionState::Scanning, stopping: true, ready: true };
    let (p, a) = step(stopping, Stimulus::ScanFailed);
    assert_eq!((p.state, a), (SessionState::ShuttingDown, SessionAction::Stop));
}

#[test]
fn session_starts_with_a_scan_and_keeps_its_mode() {
    let mut record = TrackedFiles::default();
    record.add_patterns(&strings(&["*.log"]));
    assert_eq!(WatchSession::start(false, &record), Err(WatchError::NotAGitRepository));

    let mut session = WatchSession::start(true, &record).unwrap();
    assert_eq!(session.mode, WatchMode::Patterns(strings(&["*.log"])));
    assert_eq!(
        session.phase,
        Phase { state: SessionState::Scanning, stopping: false, ready: false }
    );

    assert_eq!(session.handle(&SessionEvent::ScanFinished), SessionAction::Wait);
    assert_eq!(session.phase.state, SessionState::Idle);
    let modify = SessionEvent::FileSystem(event(EventKind::Modify, &["/repo/a.log"]));
    assert_eq!(session.handle(&modify), SessionAction::Wait);
    assert_eq!(session.phase.state, SessionState::Idle);
    let create = SessionEvent::FileSystem(event(EventKind::Create, &["/repo/a.log"]));
    assert_eq!(session.handle(&create), SessionAction::StartDebounce);
    assert_eq!(session.handle(&create), SessionAction::StartDebounce);
    assert_eq!(session.handle(&SessionEvent::DebounceElapsed), SessionAction::RunScan);
    assert_eq!(session.handle(&SessionEvent::ScanFinished), SessionAction::Wait);
    assert_eq!(session.handle(&SessionEvent::ShutdownRequested), SessionAction::Stop);
    assert_eq!(session.phase.state, SessionState::ShuttingDown);
    assert_eq!(session.mode, WatchMode::Patterns(strings(&["*.log"])));
}

#[test]
fn rule_files_are_found_by_name() {
    let entries = vec![
        file("/repo/.gitignore"),
        file("/repo/a.txt"),
        WalkEntry { path: "/repo/sub".to_string(), kind: EntryKind::Directory },
        file("/repo/sub/.gitignore"),
        file("/repo/sub/x.gitignore"),
        file("/repo/.git/.gitignore"),
    ];
    assert_eq!(
        find_gitignore_files(&entries),
        strings(&["/repo/.gitignore", "/repo/sub/.gitignore"])
    );
}

fn repo_survey() -> Survey {
    Survey {
        root: "/repo".to_string(),
        repository: true,
        entries: vec![file("/repo/a.txt"), file("/repo/b.log")],
        rule_files: vec![RuleFile { directory: "/repo".to_string(), lines: strings(&["*.log"]) }],
        versioned: vec![],
        existing: vec![],
    }
}

#[test]
fn gitignore_scan_decides_on_the_desired_paths() {
    // No marker is seen through the Windows handler, and none can be set.
    let pass = perform_gitignore_scan(&WindowsHandler, &repo_survey()).unwrap();
    assert!(pass.marked.is_empty());
    assert_eq!(pass.done.len(), 1);
    assert_eq!(pass.done[0].decision.path, "/repo/b.log");
    assert_eq!(pass.report.summary.errors, 1);
    assert_eq!(pass.report.summary.added, 0);
    assert_eq!(pass.report.lines[0], ReportLine::Failed(0));
    assert!(pass.untracked.is_empty());
    assert!(!pass.save);

    let mut outside = repo_survey();
    outside.repository = false;
    assert_eq!(
        perform_gitignore_scan(&WindowsHandler, &outside),
        Err(ResolveError::NotAGitRepository)
    );
}

#[test]
fn pattern_scan_fails_on_a_bad_pattern() {
    assert_eq!(
        perform_pattern_scan(&WindowsHandler, &repo_survey(), &strings(&["a{b"])),
        Err(ResolveError::InvalidPattern { pattern: "a{b".to_string() })
    );
    let pass = perform_pattern_scan(&UnsupportedHandler, &repo_survey(), &strings(&["*.txt"]))
        .unwrap();
    assert_eq!(pass.done.len(), 1);
    assert_eq!(pass.done[0].decision.path, "/repo/a.txt");
    assert_eq!(pass.report.lines, vec![ReportLine::UpToDate]);
}

#[test]
fn tracked_scan_drops_paths_that_are_gone() {
    let mut found = repo_survey();
    found.existing = strings(&["/repo/b.log"]);
    let mut record = TrackedFiles::default();
    record.add_files(&strings(&["/repo/b.log", "/repo/gone.log"]));

    let pass = perform_tracked_files_scan(&WindowsHandler, &mut record, &found).unwrap();
    assert_eq!(pass.untracked, strings(&["/repo/gone.log"]));
    assert!(pass.save);
    assert_eq!(record.marked_files, strings(&["/repo/b.log"]));
    assert_eq!(pass.done.len(), 1);
    assert_eq!(pass.done[0].decision.path, "/repo/b.log");
}

#[test]
fn tracked_scan_with_nothing_marked_does_nothing() {
    let mut found = repo_survey();
    found.repository = false;
    let mut record = TrackedFiles::default();
    let pass = perform_tracked_files_scan(&WindowsHandler, &mut record, &found).unwrap();
    assert!(pass.done.is_empty());
    assert!(!pass.save);
    assert_eq!(pass.report.lines, vec![ReportLine::UpToDate]);
}

#[test]
fn scan_follows_the_mode() {
    let mut record = TrackedFiles::default();
    let found = repo_survey();
    let by_rules = perform_scan(&WindowsHandler, &WatchMode::GitIgnore, &mut record, &found)
        .unwrap();
    assert_eq!(by_rules.done[0].decision.path, "/repo/b.log");
    let by_patterns = perform_scan(
        &WindowsHandler,
        &WatchMode::Patterns(strings(&["*.txt"])),
        &mut record,
        &found,
    )
    .unwrap();
    assert_eq!(by_patterns.done[0].decision.path, "/repo/a.txt");
    assert_eq!(record, TrackedFiles::default());
}
