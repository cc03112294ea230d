use dbx_ignore::command::{
    classify_path, file_source, get_files_from_paths, is_hidden_file, plan_run,
    process_files_and_patterns, process_path, FileSource, InvalidAction, Lookup, PathQuery,
    PathResult, PathType, PathsError, RunPlan,
};
use dbx_ignore::platforms::unsupported::UnsupportedHandler;
use dbx_ignore::platforms::windows::WindowsHandler;
use dbx_ignore::tracked_files::TrackedFiles;
use dbx_ignore::traits::AttributeError;
use dbx_ignore::{is_glob_pattern, Action, Config};
use std::str::FromStr;

fn strings(items: &[&str]) -> Vec<String> {
    items.iter().map(|s| s.to_string()).collect()
}

fn config(action: Action) -> Config {
    Config {
        action,
        dry_run: false,
        verbose: false,
        quiet: true,
        files: vec![],
        patterns: vec![],
        git_mode: false,
        daemon_mode: false,
    }
}

fn query(path: &str, lookup: Lookup) -> PathQuery {
    PathQuery { path: path.to_string(), lookup }
}

fn found(items: &[&str]) -> Lookup {
    Lookup::Found(strings(items))
}

#[test]
fn action_words() {
    assert_eq!(Action::Ignore.to_string(), "ignore");
    assert_eq!(Action::Reset.to_string(), "reset");
    assert_eq!(Action::Watch.to_string(), "watch");
    assert_eq!(Action::Unwatch.to_string(), "unwatch");
    assert_eq!(Action::Unwatch.as_str(), "unwatch");
}

#[test]
fn action_is_parsed_in_any_case() {
    assert_eq!(Action::from_str("ignore"), Ok(Action::Ignore));
    assert_eq!(Action::from_str("RESET"), Ok(Action::Reset));
    assert_eq!(Action::from_str("Watch"), Ok(Action::Watch));
    assert_eq!(Action::parse("unWATCH"), Ok(Action::Unwatch));
    assert_eq!("reset".parse::<Action>(), Ok(Action::Reset));
}

#[test]
fn unknown_action_is_refused_with_the_word() {
    assert_eq!(Action::parse("delete"), Err(InvalidAction { input: "delete".to_string() }));
    assert_eq!(Action::parse(""), Err(InvalidAction { input: String::new() }));
    assert_eq!(Action::parse("ignore "), Err(InvalidAction { input: "ignore ".to_string() }));
    assert_eq!(Action::parse("watc"), Err(InvalidAction { input: "watc".to_string() }));
    // Only the letters of ASCII are folded.
    assert!(Action::parse("\u{130}gnore").is_err());
    assert!(Action::parse(")gnore").is_err());
    assert!(Action::parse("WATCH\u{0}").is_err());
}

#[test]
fn action_messages() {
    assert_eq!(Action::Ignore.description(), "Adding ignore markers to");
    assert_eq!(Action::Reset.description(), "Removing ignore markers from");
    assert_eq!(Action::Watch.description(), "Setting up monitoring for");
    assert_eq!(Action::Unwatch.description(), "Stopping monitoring for");
    assert_eq!(Action::Ignore.operation_message(), "ignore markers added");
    assert_eq!(Action::Reset.operation_message(), "ignore markers removed");
    assert_eq!(Action::Ignore.status_message(), "already ignored");
    assert_eq!(Action::Reset.status_message(), "no markers to remove");
    assert_eq!(Action::Watch.operation_description(), "items set up for monitoring");
    assert_eq!(Action::Reset.operation_description(), "ignore markers removed");
}

#[test]
fn glob_patterns_are_told_by_their_characters() {
    assert!(is_glob_pattern("*.log"));
    assert!(is_glob_pattern("file?.txt"));
    assert!(is_glob_pattern("file[12].txt"));
    assert!(is_glob_pattern("dir/**/x"));
    assert!(!is_glob_pattern("plain.txt"));
    assert!(!is_glob_pattern("dir/file]"));
    assert!(!is_glob_pattern(""));
}

#[test]
fn paths_are_classified() {
    assert_eq!(classify_path("."), PathType::CurrentDirectory);
    assert_eq!(classify_path("sub/."), PathType::Regular);
    assert_eq!(classify_path("./"), PathType::Regular);
    assert_eq!(classify_path(".gitignore"), PathType::GitIgnoreFile);
    assert_eq!(classify_path("/repo/sub/.gitignore"), PathType::GitIgnoreFile);
    assert_eq!(classify_path("a.gitignore"), PathType::Regular);
    assert_eq!(classify_path("src/main.rs"), PathType::Regular);
    assert_eq!(classify_path(".."), PathType::Regular);
    assert_eq!(classify_path(""), PathType::Regular);
}

#[test]
fn hidden_entries_begin_with_a_dot() {
    assert!(is_hidden_file(".git"));
    assert!(is_hidden_file("/repo/.dbx-ignore"));
    assert!(is_hidden_file("dir/..."));
    assert!(!is_hidden_file("/repo/src"));
    assert!(!is_hidden_file("/repo/.hidden/shown"));
    assert!(!is_hidden_file("."));
    assert!(!is_hidden_file("/repo/.."));
    assert!(!is_hidden_file(""));
    assert!(!is_hidden_file("/repo/"));
}

#[test]
fn named_paths_become_the_paths_to_work_on() {
    let queries = vec![
        query("plain.txt", found(&[])),
        query("*.log", found(&["a.log", "b.log"])),
        query(".", found(&["./src", "./.git", "./README.md"])),
        query("sub/.gitignore", found(&["sub/x.tmp"])),
        query("build?", found(&["build1"])),
    ];
    assert_eq!(
        get_files_from_paths(&queries),
        Ok(strings(&[
            "a.log",
            "b.log",
            "build1",
            "plain.txt",
            "./src",
            "./README.md",
            "sub/x.tmp"
        ]))
    );
    assert_eq!(get_files_from_paths(&[]), Ok(vec![]));
}

#[test]
fn patterns_without_matches_are_listed() {
    let queries = vec![
        query("missing.txt", Lookup::Missing),
        query("*.log", found(&[])),
        query("*.txt", found(&["a.txt"])),
        query("*.tmp", Lookup::Missing),
    ];
    assert_eq!(
        get_files_from_paths(&queries),
        Err(PathsError::NoMatches { patterns: strings(&["*.log", "*.tmp"]) })
    );
}

#[test]
fn failed_pattern_comes_before_everything_else() {
    let queries = vec![
        query("missing.txt", Lookup::Missing),
        query("*.log", found(&[])),
        query("[", Lookup::Failed("invalid range pattern".to_string())),
        query("***", Lookup::Failed("wildcards".to_string())),
    ];
    assert_eq!(
        get_files_from_paths(&queries),
        Err(PathsError::LookupFailed {
            path: "[".to_string(),
            message: "invalid range pattern".to_string()
        })
    );
}

#[test]
fn first_missing_plain_path_is_reported() {
    let queries = vec![
        query("*.log", found(&["a.log"])),
        query("here.txt", found(&[])),
        query("/tmp/definitely_nonexistent_file_12345", Lookup::Missing),
        query(".", Lookup::Failed("permission denied".to_string())),
    ];
    assert_eq!(
        get_files_from_paths(&queries),
        Err(PathsError::NotFound { path: "/tmp/definitely_nonexistent_file_12345".to_string() })
    );
    let queries = vec![
        query(".", Lookup::Failed("permission denied".to_string())),
        query("gone", Lookup::Missing),
    ];
    assert_eq!(
        get_files_from_paths(&queries),
        Err(PathsError::LookupFailed {
            path: ".".to_string(),
            message: "permission denied".to_string()
        })
    );
}

#[test]
fn source_of_paths() {
    let mut c = config(Action::Ignore);
    assert_eq!(file_source(&c), FileSource::NamedPaths);
    c.git_mode = true;
    assert_eq!(file_source(&c), FileSource::GitIgnored);
    c.files = strings(&["a.txt"]);
    assert_eq!(file_source(&c), FileSource::NamedPaths);
}

#[test]
fn process_path_counts_what_would_change() {
    let mut c = config(Action::Ignore);
    c.dry_run = true;
    // Through the Windows handler no attribute is seen: two are missing,
    // none is set.
    assert_eq!(process_path(&WindowsHandler, "/tmp", &c), Ok(2));
    c.action = Action::Reset;
    assert_eq!(process_path(&WindowsHandler, "/tmp", &c), Ok(0));
    assert_eq!(process_path(&UnsupportedHandler, "/tmp", &c), Ok(0));
}

#[test]
fn process_path_reports_the_failure() {
    let c = config(Action::Ignore);
    assert_eq!(process_path(&WindowsHandler, "/tmp", &c), Err(AttributeError::NotSupported));
    let c = config(Action::Reset);
    assert_eq!(process_path(&WindowsHandler, "/tmp", &c), Ok(0));
    assert_eq!(process_path(&UnsupportedHandler, "/tmp", &config(Action::Ignore)), Ok(0));
}

fn results() -> Vec<PathResult> {
    vec![
        PathResult { path: "a".to_string(), outcome: Ok(2) },
        PathResult { path: "b".to_string(), outcome: Ok(0) },
        PathResult { path: "c".to_string(), outcome: Err(AttributeError::NotSupported) },
        PathResult { path: "d".to_string(), outcome: Ok(1) },
    ]
}

#[test]
fn marking_brings_the_record_up_to_date() {
    let mut c = config(Action::Ignore);
    c.patterns = strings(&["*.log"]);
    let mut record = TrackedFiles::default();
    record.add_files(&strings(&["d", "x"]));

    let summary = process_files_and_patterns(&c, &mut record, &results());
    assert_eq!(summary.processed, 3);
    assert_eq!(summary.operations, 3);
    assert_eq!(summary.changed, strings(&["a", "d"]));
    assert!(summary.save);
    assert_eq!(record.marked_files, strings(&["d", "x", "a"]));
    assert_eq!(record.patterns, strings(&["*.log"]));
}

#[test]
fn resetting_takes_paths_and_patterns_out_of_the_record() {
    let mut c = config(Action::Reset);
    c.patterns = strings(&["*.log"]);
    let mut record = TrackedFiles::default();
    record.add_files(&strings(&["a", "b", "d"]));
    record.add_patterns(&strings(&["*.tmp", "*.log"]));

    let summary = process_files_and_patterns(&c, &mut record, &results());
    assert!(summary.save);
    assert_eq!(record.marked_files, strings(&["b"]));
    assert_eq!(record.patterns, strings(&["*.tmp"]));
}

#[test]
fn dry_run_leaves_the_record_alone() {
    let mut c = config(Action::Ignore);
    c.dry_run = true;
    c.patterns = strings(&["*.log"]);
    let mut record = TrackedFiles::default();
    let summary = process_files_and_patterns(&c, &mut record, &results());
    assert_eq!(summary.processed, 3);
    assert_eq!(summary.operations, 3);
    assert!(summary.changed.is_empty());
    assert!(!summary.save);
    assert_eq!(record, TrackedFiles::default());
}

#[test]
fn operations_stop_at_the_largest_number() {
    let big = vec![
        PathResult { path: "a".to_string(), outcome: Ok(usize::MAX) },
        PathResult { path: "b".to_string(), outcome: Ok(5) },
    ];
    let mut c = config(Action::Ignore);
    c.dry_run = true;
    let mut record = TrackedFiles::default();
    let summary = process_files_and_patterns(&c, &mut record, &big);
    assert_eq!(summary.operations, usize::MAX);
    assert_eq!(summary.processed, 2);
}

#[test]
fn plans() {
    let mut c = config(Action::Ignore);
    assert_eq!(plan_run(&c, false, None), RunPlan::Unsupported);
    assert_eq!(plan_run(&c, true, Some(7)), RunPlan::Process);
    c.action = Action::Reset;
    assert_eq!(plan_run(&c, true, None), RunPlan::Process);

    c.action = Action::Watch;
    assert_eq!(plan_run(&c, false, None), RunPlan::Unsupported);
    assert_eq!(plan_run(&c, true, Some(7)), RunPlan::AlreadyWatching(7));
    assert_eq!(plan_run(&c, true, None), RunPlan::SpawnWatcher { mark_first: false });
    c.files = strings(&["*.log"]);
    assert_eq!(plan_run(&c, true, None), RunPlan::SpawnWatcher { mark_first: true });
    c.daemon_mode = true;
    assert_eq!(plan_run(&c, true, None), RunPlan::RunWatcher);
    assert_eq!(plan_run(&c, true, Some(9)), RunPlan::AlreadyWatching(9));

    c.action = Action::Unwatch;
    assert_eq!(plan_run(&c, true, Some(9)), RunPlan::StopWatcher(9));
    assert_eq!(plan_run(&c, true, None), RunPlan::NoWatcher);
}
