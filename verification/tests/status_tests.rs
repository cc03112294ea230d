use dbx_ignore::engine::daemon::DaemonStatus;
use dbx_ignore::status::{StatusEntry, StatusInfo, StatusLine};
use dbx_ignore::show_status;

fn entry(path: &str, marked: bool) -> StatusEntry {
    StatusEntry { path: path.to_string(), marked }
}

fn entries() -> Vec<StatusEntry> {
    vec![
        entry("/dir/zeta", false),
        entry("/dir/.git", false),
        entry("/dir/beta", true),
        entry("/dir/alpha", false),
        entry("/dir/.hidden", true),
        entry("/dir/gamma", true),
    ]
}

#[test]
fn gather_counts_and_sorts_the_visible_entries() {
    let info = StatusInfo::gather("/dir".to_string(), true, None, &entries());
    assert_eq!(info.current_path, "/dir");
    assert!(info.has_gitignore);
    assert_eq!(info.total_files, 4);
    assert_eq!(info.ignored_files, vec!["/dir/beta".to_string(), "/dir/gamma".to_string()]);
    assert_eq!(info.non_ignored_files, vec!["/dir/alpha".to_string(), "/dir/zeta".to_string()]);
    assert_eq!(info.daemon_status, None);
}

#[test]
fn gather_of_an_empty_directory() {
    let info = StatusInfo::gather("/dir".to_string(), false, None, &[]);
    assert_eq!(info.total_files, 0);
    assert!(info.ignored_files.is_empty());
    assert!(info.non_ignored_files.is_empty());
}

#[test]
fn short_report() {
    let watcher = DaemonStatus { pid: 77, repo_path: "/dir".to_string(), started_at: 0 };
    let info = StatusInfo::gather("/dir".to_string(), true, Some(watcher), &entries());
    assert_eq!(
        info.display(false),
        vec![
            StatusLine::Rule,
            StatusLine::Title,
            StatusLine::Rule,
            StatusLine::Blank,
            StatusLine::Gitignore(true),
            StatusLine::Total(4),
            StatusLine::Marked(2),
            StatusLine::Unmarked(2),
            StatusLine::Daemon(Some(77)),
            StatusLine::Blank,
            StatusLine::Rule,
        ]
    );
}

#[test]
fn verbose_report_lists_the_entries() {
    let (info, lines) = show_status("/dir".to_string(), false, None, &entries(), true);
    assert_eq!(info.total_files, 4);
    assert_eq!(
        lines,
        vec![
            StatusLine::Rule,
            StatusLine::Title,
            StatusLine::Rule,
            StatusLine::Blank,
            StatusLine::Gitignore(false),
            StatusLine::Total(4),
            StatusLine::Marked(2),
            StatusLine::Unmarked(2),
            StatusLine::Daemon(None),
            StatusLine::Blank,
            StatusLine::DetailsTitle,
            StatusLine::MarkedTitle,
            StatusLine::MarkedFile(0),
            StatusLine::MarkedFile(1),
            StatusLine::Blank,
            StatusLine::UnmarkedTitle,
            StatusLine::UnmarkedFile(0),
            StatusLine::UnmarkedFile(1),
            StatusLine::Blank,
            StatusLine::Rule,
        ]
    );
}

#[test]
fn verbose_report_without_marked_entries_has_no_gap() {
    let only = vec![entry("/dir/a", false)];
    let (_, lines) = show_status("/dir".to_string(), false, None, &only, true);
    assert_eq!(
        lines[9..].to_vec(),
        vec![
            StatusLine::Blank,
            StatusLine::DetailsTitle,
            StatusLine::UnmarkedTitle,
            StatusLine::UnmarkedFile(0),
            StatusLine::Blank,
            StatusLine::Rule,
        ]
    );
}

#[test]
fn verbose_report_of_an_empty_directory_is_short() {
    let (_, lines) = show_status("/dir".to_string(), false, None, &[], true);
    assert_eq!(lines.len(), 11);
    assert_eq!(lines[5], StatusLine::Total(0));
}
