use dbx_ignore::engine::reconcile::{
    apply_decision, apply_decisions, find_marked_files, outcome_of, reconcile,
    record_closing_line, report, RecordLine,
    AppliedDecision, ApplyOutcome, IgnoreDecision, MarkedPath, MarkerAction, ReportLine,
    ScanSummary, MAX_ERRORS_TO_DISPLAY, MAX_FILES_TO_DISPLAY,
};
use dbx_ignore::platforms::unsupported::UnsupportedHandler;
use dbx_ignore::platforms::windows::WindowsHandler;
use dbx_ignore::traits::AttributeError;
use dbx_ignore::utils::pattern_matcher::{EntryKind, WalkEntry};

fn strings(items: &[&str]) -> Vec<String> {
    items.iter().map(|s| s.to_string()).collect()
}

fn marked(path: &str, removable: bool) -> MarkedPath {
    MarkedPath { path: path.to_string(), removable }
}

fn decision(path: &str, action: MarkerAction) -> IgnoreDecision {
    IgnoreDecision {
        path: path.to_string(),
        currently_marked: action != MarkerAction::Add,
        should_be_marked: action != MarkerAction::Remove,
        action,
    }
}

fn applied(path: &str, action: MarkerAction, outcome: ApplyOutcome) -> AppliedDecision {
    AppliedDecision { decision: decision(path, action), outcome }
}

#[test]
fn desired_without_marker_is_added() {
    let decisions = reconcile(&strings(&["b.log"]), &[]);
    assert_eq!(
        decisions,
        vec![IgnoreDecision {
            path: "b.log".to_string(),
            currently_marked: false,
            should_be_marked: true,
            action: MarkerAction::Add,
        }]
    );
}

#[test]
fn reconcile_covers_all_three_cases() {
    let desired = strings(&["a", "b"]);
    let present = vec![marked("b", true), marked("c", true), marked("d", false)];
    let decisions = reconcile(&desired, &present);
    assert_eq!(
        decisions,
        vec![
            IgnoreDecision {
                path: "a".to_string(),
                currently_marked: false,
                should_be_marked: true,
                action: MarkerAction::Add,
            },
            IgnoreDecision {
                path: "b".to_string(),
                currently_marked: true,
                should_be_marked: true,
                action: MarkerAction::Keep,
            },
            IgnoreDecision {
                path: "c".to_string(),
                currently_marked: true,
                should_be_marked: false,
                action: MarkerAction::Remove,
            },
            IgnoreDecision {
                path: "d".to_string(),
                currently_marked: true,
                should_be_marked: false,
                action: MarkerAction::Keep,
            },
        ]
    );
}

#[test]
fn reconcile_of_nothing_decides_nothing() {
    assert_eq!(reconcile(&[], &[]), Vec::<IgnoreDecision>::new());
}

#[test]
fn second_pass_finds_nothing_to_do() {
    let desired = strings(&["a", "b", "e"]);
    let before = vec![marked("b", true), marked("c", true), marked("d", false)];
    let first = reconcile(&desired, &before);

    // Carry the decisions out on the list of marked paths.
    let mut after: Vec<MarkedPath> = before
        .iter()
        .filter(|m| {
            !first.iter().any(|d| d.path == m.path && d.action == MarkerAction::Remove)
        })
        .cloned()
        .collect();
    for d in &first {
        if d.action == MarkerAction::Add {
            after.push(marked(&d.path, true));
        }
    }

    let second = reconcile(&desired, &after);
    assert!(!second.is_empty());
    assert!(second.iter().all(|d| d.action == MarkerAction::Keep));
}

#[test]
fn keeping_a_path_touches_nothing() {
    let keep = decision("/tmp/whatever", MarkerAction::Keep);
    assert_eq!(apply_decision(&WindowsHandler, &keep), ApplyOutcome::Unchanged);
    assert_eq!(apply_decision(&UnsupportedHandler, &keep), ApplyOutcome::Unchanged);
}

#[test]
fn a_failure_is_recorded_and_the_pass_goes_on() {
    // The Windows handler cannot write streams from here, so every addition
    // fails; the pass still yields one outcome for each decision.
    let decisions = vec![
        decision("/tmp/a", MarkerAction::Add),
        decision("/tmp/b", MarkerAction::Keep),
        decision("/tmp/c", MarkerAction::Add),
    ];
    let done = apply_decisions(&WindowsHandler, &decisions);
    assert_eq!(done.len(), 3);
    assert_eq!(done[0].outcome, ApplyOutcome::Failed(AttributeError::NotSupported));
    assert_eq!(done[1].outcome, ApplyOutcome::Unchanged);
    assert_eq!(done[2].outcome, ApplyOutcome::Failed(AttributeError::NotSupported));
    assert_eq!(done[0].decision, decisions[0]);
    assert_eq!(done[2].decision, decisions[2]);

    let summary = report(&done).summary;
    assert_eq!(summary, ScanSummary { added: 0, removed: 0, errors: 2 });
}

#[test]
fn platform_without_attributes_changes_nothing() {
    let decisions = vec![decision("/tmp/a", MarkerAction::Add), decision("/tmp/b", MarkerAction::Remove)];
    let done = apply_decisions(&UnsupportedHandler, &decisions);
    assert_eq!(done[0].outcome, ApplyOutcome::Unchanged);
    assert_eq!(done[1].outcome, ApplyOutcome::Unchanged);
    let entries = vec![WalkEntry { path: "/tmp".to_string(), kind: EntryKind::Directory }];
    assert!(find_marked_files(&UnsupportedHandler, &entries).is_empty());
}

#[test]
fn report_counts_and_names_changes() {
    let done = vec![
        applied("a", MarkerAction::Add, ApplyOutcome::Changed),
        applied("b", MarkerAction::Add, ApplyOutcome::Unchanged),
        applied("c", MarkerAction::Keep, ApplyOutcome::Unchanged),
        applied("d", MarkerAction::Remove, ApplyOutcome::Changed),
        applied("e", MarkerAction::Remove, ApplyOutcome::Failed(AttributeError::NotSupported)),
    ];
    let r = report(&done);
    assert_eq!(r.summary, ScanSummary { added: 1, removed: 1, errors: 1 });
    assert_eq!(
        r.lines,
        vec![
            ReportLine::Added(0),
            ReportLine::Removed(3),
            ReportLine::Failed(4),
            ReportLine::Summary(ScanSummary { added: 1, removed: 1, errors: 1 }),
        ]
    );
}

#[test]
fn report_of_a_quiet_pass_says_up_to_date() {
    let done = vec![applied("a", MarkerAction::Keep, ApplyOutcome::Unchanged)];
    let r = report(&done);
    assert_eq!(r.summary, ScanSummary { added: 0, removed: 0, errors: 0 });
    assert_eq!(r.lines, vec![ReportLine::UpToDate]);
    assert_eq!(report(&[]).lines, vec![ReportLine::UpToDate]);
}

#[test]
fn report_caps_the_lines_it_shows() {
    assert_eq!(MAX_FILES_TO_DISPLAY, 10);
    assert_eq!(MAX_ERRORS_TO_DISPLAY, 5);

    let mut done = Vec::new();
    for i in 0..12 {
        done.push(applied(&format!("add{}", i), MarkerAction::Add, ApplyOutcome::Changed));
    }
    for i in 0..7 {
        done.push(applied(
            &format!("bad{}", i),
            MarkerAction::Remove,
            ApplyOutcome::Failed(AttributeError::NotSupported),
        ));
    }
    for i in 0..11 {
        done.push(applied(&format!("gone{}", i), MarkerAction::Remove, ApplyOutcome::Changed));
    }
    let r = report(&done);
    assert_eq!(r.summary, ScanSummary { added: 12, removed: 11, errors: 7 });

    let mut expected = Vec::new();
    for i in 0..10 {
        expected.push(ReportLine::Added(i));
    }
    for i in 12..17 {
        expected.push(ReportLine::Failed(i));
    }
    for i in 19..29 {
        expected.push(ReportLine::Removed(i));
    }
    expected.push(ReportLine::MoreAdded(2));
    expected.push(ReportLine::MoreRemoved(1));
    expected.push(ReportLine::MoreErrors(2));
    expected.push(ReportLine::Summary(ScanSummary { added: 12, removed: 11, errors: 7 }));
    assert_eq!(r.lines, expected);
}

#[test]
fn report_at_the_caps_shows_everything() {
    let mut done = Vec::new();
    for i in 0..10 {
        done.push(applied(&format!("add{}", i), MarkerAction::Add, ApplyOutcome::Changed));
    }
    for i in 0..5 {
        done.push(applied(
            &format!("bad{}", i),
            MarkerAction::Add,
            ApplyOutcome::Failed(AttributeError::NotSupported),
        ));
    }
    let r = report(&done);
    assert_eq!(r.lines.len(), 16);
    assert_eq!(r.lines[15], ReportLine::Summary(ScanSummary { added: 10, removed: 0, errors: 5 }));
}

#[test]
fn tally_becomes_the_outcome() {
    assert_eq!(outcome_of(Ok(0)), ApplyOutcome::Unchanged);
    assert_eq!(outcome_of(Ok(1)), ApplyOutcome::Changed);
    assert_eq!(outcome_of(Ok(2)), ApplyOutcome::Changed);
    let failed = AttributeError::AddFailed {
        attr: "a".to_string(),
        path: "/p".to_string(),
        kind: dbx_ignore::traits::FailureKind::Other,
    };
    assert_eq!(outcome_of(Err(failed.clone())), ApplyOutcome::Failed(failed));
}

#[test]
fn closing_line_of_a_pass_under_marked_paths() {
    let quiet = ScanSummary { added: 0, removed: 0, errors: 0 };
    assert_eq!(record_closing_line(quiet, 0, 0), RecordLine::NothingTracked);
    assert_eq!(record_closing_line(quiet, 3, 0), RecordLine::UpToDate);
    assert_eq!(
        record_closing_line(quiet, 3, 2),
        RecordLine::Summary { updated: 0, untracked: 2, errors: 0 }
    );
    assert_eq!(
        record_closing_line(ScanSummary { added: 2, removed: 1, errors: 4 }, 9, 0),
        RecordLine::Summary { updated: 3, untracked: 0, errors: 4 }
    );
    assert_eq!(
        record_closing_line(ScanSummary { added: usize::MAX, removed: 1, errors: 0 }, 1, 0),
        RecordLine::Summary { updated: usize::MAX, untracked: 0, errors: 0 }
    );
}
