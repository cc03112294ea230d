use dbx_ignore::command::{process_path, Config};
use dbx_ignore::engine::reconcile::{
    apply_decision, apply_decisions, find_marked_files, reconcile, ApplyOutcome, IgnoreDecision,
    MarkedPath, MarkerAction, ReportLine, ScanSummary,
};
use dbx_ignore::engine::resolver::{RuleFile, Survey};
use dbx_ignore::engine::watch::perform_gitignore_scan;
use dbx_ignore::platforms::windows::{StreamAccess, StreamHandler};
use dbx_ignore::traits::{AttributeError, FailureKind, PlatformHandler};
use dbx_ignore::utils::pattern_matcher::{EntryKind, WalkEntry};
use dbx_ignore::utils::platform_utils::{
    add_ignore_attributes, has_any_ignore_attribute, remove_ignore_attributes,
};
use dbx_ignore::Action;
use std::cell::RefCell;
use std::collections::BTreeSet;

const FIRST: &str = "com.dropbox.ignored";
const SECOND: &str = "com.apple.fileprovider.ignore#P";

/// Streams kept in memory. A stream whose name is in `broken` fails every
/// operation with a failure that is not benign.
struct Memory {
    streams: RefCell<BTreeSet<String>>,
    broken: Vec<String>,
    calls: RefCell<Vec<String>>,
}

impl Memory {
    fn answer(&self, call: &str, stream: &str) -> Result<(), FailureKind> {
        self.calls.borrow_mut().push(format!("{} {}", call, stream));
        if self.broken.iter().any(|b| b == stream) {
            Err(FailureKind::Other)
        } else {
            Ok(())
        }
    }
}

impl StreamAccess for Memory {
    fn find(&self, stream: &str) -> Result<bool, FailureKind> {
        self.answer("find", stream)?;
        Ok(self.streams.borrow().contains(stream))
    }

    fn put(&self, stream: &str, _value: &Vec<u8>) -> Result<(), FailureKind> {
        self.answer("write", stream)?;
        self.streams.borrow_mut().insert(stream.to_string());
        Ok(())
    }

    fn delete(&self, stream: &str) -> Result<(), FailureKind> {
        self.answer("delete", stream)?;
        if self.streams.borrow_mut().remove(stream) {
            Ok(())
        } else {
            Err(FailureKind::NotFound)
        }
    }
}

fn handler(set: &[&str], broken: &[&str]) -> StreamHandler<Memory> {
    StreamHandler {
        streams: Memory {
            streams: RefCell::new(set.iter().map(|s| s.to_string()).collect()),
            broken: broken.iter().map(|s| s.to_string()).collect(),
            calls: RefCell::new(Vec::new()),
        },
    }
}

fn calls(h: &StreamHandler<Memory>) -> Vec<String> {
    h.streams.calls.borrow().clone()
}

fn file(path: &str) -> WalkEntry {
    WalkEntry { path: path.to_string(), kind: EntryKind::File }
}

#[test]
fn stream_handler_names_two_streams() {
    let h = handler(&[], &[]);
    assert_eq!(h.platform_name(), "Windows");
    assert!(h.is_supported());
    assert_eq!(h.get_target_attributes(), vec![FIRST, SECOND]);
}

#[test]
fn any_marker_is_found_in_order() {
    let h = handler(&["/p:com.apple.fileprovider.ignore#P"], &[]);
    assert!(has_any_ignore_attribute(&h, "/p"));
    assert!(!has_any_ignore_attribute(&h, "/q"));
    let h = handler(&["/p:com.dropbox.ignored"], &[]);
    assert!(has_any_ignore_attribute(&h, "/p"));
    // The second stream is not asked for once the first is found.
    assert_eq!(calls(&h), vec!["find /p:com.dropbox.ignored".to_string()]);
}

#[test]
fn failed_look_up_is_not_a_marker() {
    let h = handler(&[], &["/p:com.dropbox.ignored", "/p:com.apple.fileprovider.ignore#P"]);
    assert!(!has_any_ignore_attribute(&h, "/p"));
    let h = handler(&["/p:com.apple.fileprovider.ignore#P"], &["/p:com.dropbox.ignored"]);
    assert!(has_any_ignore_attribute(&h, "/p"));
}

#[test]
fn adding_sets_what_is_missing() {
    let h = handler(&["/p:com.dropbox.ignored"], &[]);
    assert_eq!(add_ignore_attributes(&h, "/p", true), Ok(1));
    assert_eq!(add_ignore_attributes(&h, "/p", true), Ok(0));
    assert_eq!(add_ignore_attributes(&h, "/p", false), Ok(2));
    assert_eq!(h.has_attribute("/p", SECOND), Ok(true));
    assert_eq!(h.has_attribute("/q", SECOND), Ok(false));
}

#[test]
fn first_failure_ends_the_adding() {
    let h = handler(&[], &["/p:com.dropbox.ignored"]);
    assert_eq!(
        add_ignore_attributes(&h, "/p", true),
        Err(AttributeError::CheckFailed { attr: FIRST.to_string(), kind: FailureKind::Other })
    );
    // No later attribute is tried.
    assert_eq!(calls(&h), vec!["find /p:com.dropbox.ignored".to_string()]);
    assert_eq!(
        add_ignore_attributes(&h, "/p", false),
        Err(AttributeError::AddFailed {
            attr: FIRST.to_string(),
            path: "/p".to_string(),
            kind: FailureKind::Other
        })
    );

    let h = handler(&[], &["/p:com.apple.fileprovider.ignore#P"]);
    assert_eq!(
        add_ignore_attributes(&h, "/p", false),
        Err(AttributeError::AddFailed {
            attr: SECOND.to_string(),
            path: "/p".to_string(),
            kind: FailureKind::Other
        })
    );
    // The first attribute was set before the second failed.
    assert_eq!(h.has_attribute("/p", FIRST), Ok(true));
}

#[test]
fn removing_takes_off_what_is_set() {
    let h = handler(&["/p:com.dropbox.ignored", "/p:com.apple.fileprovider.ignore#P"], &[]);
    assert_eq!(remove_ignore_attributes(&h, "/p"), Ok(2));
    assert_eq!(remove_ignore_attributes(&h, "/p"), Ok(0));
    assert!(!has_any_ignore_attribute(&h, "/p"));

    let h = handler(&["/p:com.apple.fileprovider.ignore#P"], &["/p:com.dropbox.ignored"]);
    assert_eq!(
        remove_ignore_attributes(&h, "/p"),
        Err(AttributeError::CheckFailed { attr: FIRST.to_string(), kind: FailureKind::Other })
    );
    assert_eq!(h.has_attribute("/p", SECOND), Ok(true));
}

#[test]
fn dry_run_counts_and_changes_nothing() {
    let h = handler(&["/p:com.dropbox.ignored"], &[]);
    let mut config = Config {
        action: Action::Ignore,
        dry_run: true,
        verbose: false,
        quiet: true,
        files: vec![],
        patterns: vec![],
        git_mode: false,
        daemon_mode: false,
    };
    assert_eq!(process_path(&h, "/p", &config), Ok(1));
    config.action = Action::Reset;
    assert_eq!(process_path(&h, "/p", &config), Ok(1));
    assert_eq!(process_path(&h, "/q", &config), Ok(0));
    assert!(calls(&h).iter().all(|c| c.starts_with("find ")));

    config.dry_run = false;
    assert_eq!(process_path(&h, "/p", &config), Ok(1));
    config.action = Action::Ignore;
    assert_eq!(process_path(&h, "/p", &config), Ok(2));
    assert_eq!(process_path(&h, "/p", &config), Ok(0));
}

#[test]
fn outcome_of_a_decision() {
    let h = handler(&["/gone:com.dropbox.ignored"], &["/bad:com.dropbox.ignored"]);
    let decide = |path: &str, action: MarkerAction| IgnoreDecision {
        path: path.to_string(),
        currently_marked: action == MarkerAction::Remove,
        should_be_marked: action == MarkerAction::Add,
        action,
    };
    assert_eq!(apply_decision(&h, &decide("/new", MarkerAction::Add)), ApplyOutcome::Changed);
    assert_eq!(apply_decision(&h, &decide("/gone", MarkerAction::Remove)), ApplyOutcome::Changed);
    assert_eq!(apply_decision(&h, &decide("/gone", MarkerAction::Remove)), ApplyOutcome::Unchanged);
    assert_eq!(apply_decision(&h, &decide("/new", MarkerAction::Keep)), ApplyOutcome::Unchanged);
    assert_eq!(
        apply_decision(&h, &decide("/bad", MarkerAction::Add)),
        ApplyOutcome::Failed(AttributeError::AddFailed {
            attr: FIRST.to_string(),
            path: "/bad".to_string(),
            kind: FailureKind::Other
        })
    );
}

#[test]
fn marked_files_are_those_with_a_stream() {
    let h = handler(&["/r/b:com.dropbox.ignored", "/r/.git/x:com.dropbox.ignored"], &[]);
    let entries = vec![file("/r/a"), file("/r/b"), file("/r/.git/x")];
    assert_eq!(find_marked_files(&h, &entries), vec![file("/r/b")]);
    assert!(!calls(&h).iter().any(|c| c.contains(".git")));
}

fn repo() -> Survey {
    Survey {
        root: "/r".to_string(),
        repository: true,
        entries: vec![file("/r/a.txt"), file("/r/b.log"), file("/r/.gitignore")],
        rule_files: vec![RuleFile { directory: "/r".to_string(), lines: vec!["*.log".to_string()] }],
        versioned: vec![],
        existing: vec![],
    }
}

#[test]
fn pass_marks_the_ignored_file_and_nothing_else() {
    let h = handler(&[], &[]);
    let pass = perform_gitignore_scan(&h, &repo()).unwrap();
    assert_eq!(pass.done.len(), 1);
    assert_eq!(pass.done[0].decision.path, "/r/b.log");
    assert_eq!(pass.done[0].decision.action, MarkerAction::Add);
    assert_eq!(pass.done[0].outcome, ApplyOutcome::Changed);
    assert_eq!(pass.report.summary, ScanSummary { added: 1, removed: 0, errors: 0 });
    assert!(has_any_ignore_attribute(&h, "/r/b.log"));
    assert!(!has_any_ignore_attribute(&h, "/r/a.txt"));
    assert!(!calls(&h).iter().any(|c| c.starts_with("delete ")));
    assert!(!calls(&h).iter().any(|c| c.starts_with("write /r/a.txt")));

    // A second pass right after finds nothing to do.
    let again = perform_gitignore_scan(&h, &repo()).unwrap();
    assert!(again.done.iter().all(|d| d.decision.action == MarkerAction::Keep));
    assert_eq!(again.report.lines, vec![ReportLine::UpToDate]);
}

#[test]
fn pass_takes_off_markers_that_are_no_longer_desired() {
    let h = handler(&["/r/a.txt:com.dropbox.ignored", "/r/b.log:com.dropbox.ignored"], &[]);
    let pass = perform_gitignore_scan(&h, &repo()).unwrap();
    assert_eq!(pass.report.summary, ScanSummary { added: 0, removed: 1, errors: 0 });
    assert!(!has_any_ignore_attribute(&h, "/r/a.txt"));
    assert!(has_any_ignore_attribute(&h, "/r/b.log"));
}

#[test]
fn failure_on_one_path_does_not_end_the_pass() {
    let h = handler(&[], &["/r/b.log:com.dropbox.ignored"]);
    let mut found = repo();
    found.entries.push(file("/r/c.log"));
    let pass = perform_gitignore_scan(&h, &found).unwrap();
    assert_eq!(pass.done.len(), 2);
    assert!(matches!(pass.done[0].outcome, ApplyOutcome::Failed(_)));
    assert_eq!(pass.done[1].outcome, ApplyOutcome::Changed);
    assert_eq!(pass.report.summary, ScanSummary { added: 1, removed: 0, errors: 1 });
    assert!(has_any_ignore_attribute(&h, "/r/c.log"));

    let decisions = reconcile(
        &["/r/b.log".to_string(), "/r/c.log".to_string()],
        &[MarkedPath { path: "/r/c.log".to_string(), removable: true }],
    );
    let done = apply_decisions(&h, &decisions);
    assert!(matches!(done[0].outcome, ApplyOutcome::Failed(_)));
    assert_eq!(done[1].outcome, ApplyOutcome::Unchanged);
}
