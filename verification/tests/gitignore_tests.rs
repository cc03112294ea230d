use dbx_ignore::utils::git_utils::{
    get_git_ignored_files_from_gitignore, get_git_ignored_files_in_path, GitError,
};
use dbx_ignore::utils::gitignore_manager::ensure_dbx_ignore_in_gitignore;
use dbx_ignore::utils::pattern_matcher::{EntryKind, WalkEntry};

fn file(path: &str) -> WalkEntry {
    WalkEntry { path: path.to_string(), kind: EntryKind::File }
}

fn dir(path: &str) -> WalkEntry {
    WalkEntry { path: path.to_string(), kind: EntryKind::Directory }
}

fn strings(items: &[&str]) -> Vec<String> {
    items.iter().map(|s| s.to_string()).collect()
}

const HEAD: &str = "# dbx-ignore metadata folder - not needed in version control\n.dbx-ignore/\n";

#[test]
fn exclusion_is_written_to_an_empty_file() {
    assert_eq!(ensure_dbx_ignore_in_gitignore(true, ""), Some(HEAD.to_string()));
}

#[test]
fn exclusion_is_put_in_front_of_what_is_there() {
    assert_eq!(
        ensure_dbx_ignore_in_gitignore(true, "*.log\ntarget/\n"),
        Some(format!("{}\n*.log\ntarget/\n", HEAD))
    );
    assert_eq!(
        ensure_dbx_ignore_in_gitignore(true, "*.log"),
        Some(format!("{}\n*.log\n", HEAD))
    );
    assert_eq!(ensure_dbx_ignore_in_gitignore(true, "\n"), Some(format!("{}\n\n", HEAD)));
}

#[test]
fn nothing_is_written_where_the_folder_is_excluded() {
    assert_eq!(ensure_dbx_ignore_in_gitignore(true, ".dbx-ignore/\n"), None);
    assert_eq!(ensure_dbx_ignore_in_gitignore(true, ".dbx-ignore"), None);
    assert_eq!(ensure_dbx_ignore_in_gitignore(true, "*.log\n  .dbx-ignore/  \nx"), None);
    assert_eq!(ensure_dbx_ignore_in_gitignore(true, "*.log\r\n.dbx-ignore\r\n"), None);
    assert_eq!(ensure_dbx_ignore_in_gitignore(true, "a\n\t.dbx-ignore/"), None);
}

#[test]
fn similar_lines_do_not_count() {
    for content in [
        "# .dbx-ignore/\n",
        ".dbx-ignore/x\n",
        "/.dbx-ignore/\n",
        ".dbx-ignore /\n",
        "x.dbx-ignore\n",
        ".dbx-\nignore/\n",
    ] {
        assert_eq!(
            ensure_dbx_ignore_in_gitignore(true, content),
            Some(format!("{}\n{}", HEAD, content))
        );
    }
}

#[test]
fn nothing_is_written_outside_a_repository() {
    assert_eq!(ensure_dbx_ignore_in_gitignore(false, ""), None);
    assert_eq!(ensure_dbx_ignore_in_gitignore(false, "*.log\n"), None);
}

#[test]
fn ignored_files_are_what_the_filtered_walk_leaves_out() {
    let all = vec![
        dir("/repo"),
        file("/repo/z.log"),
        file("/repo/a.txt"),
        dir("/repo/.git"),
        file("/repo/.git/config"),
        dir("/repo/b.log"),
        file("/repo/sub/b.log"),
        file("/repo/sub-dir/c.log"),
        file("/repo/z.log"),
    ];
    let kept = vec![dir("/repo"), file("/repo/a.txt"), dir("/repo/z.log")];
    assert_eq!(
        get_git_ignored_files_in_path(true, &all, &kept, &[]),
        Ok(strings(&["/repo/sub/b.log", "/repo/sub-dir/c.log", "/repo/z.log"]))
    );
}

#[test]
fn ignored_files_need_a_repository() {
    assert_eq!(
        get_git_ignored_files_in_path(false, &[file("/repo/a.log")], &[], &[]),
        Err(GitError::NotAGitRepository)
    );
}

#[test]
fn nothing_is_ignored_where_the_walks_agree() {
    let all = vec![file("/repo/a.txt"), file("/repo/b.txt")];
    assert_eq!(get_git_ignored_files_in_path(true, &all, &all, &[]), Ok(vec![]));
    assert_eq!(get_git_ignored_files_in_path(true, &[], &[], &[]), Ok(vec![]));
}

#[test]
fn ignored_files_of_a_rule_file_lie_under_its_directory() {
    let all = vec![
        file("/repo/top.log"),
        file("/repo/sub/in.log"),
        file("/repo/sub/deep/er.log"),
        file("/repo/subway/out.log"),
    ];
    assert_eq!(
        get_git_ignored_files_from_gitignore("/repo/sub/.gitignore", true, &all, &[], &[]),
        Ok(strings(&["/repo/sub/deep/er.log", "/repo/sub/in.log"]))
    );
    assert_eq!(
        get_git_ignored_files_from_gitignore("/repo/.gitignore", true, &all, &[], &[]),
        Ok(strings(&[
            "/repo/sub/deep/er.log",
            "/repo/sub/in.log",
            "/repo/subway/out.log",
            "/repo/top.log"
        ]))
    );
    assert_eq!(
        get_git_ignored_files_from_gitignore(".gitignore", true, &[file("a.log")], &[], &[]),
        Ok(strings(&["a.log"]))
    );
}

#[test]
fn rule_file_errors() {
    assert_eq!(
        get_git_ignored_files_from_gitignore("", true, &[], &[], &[]),
        Err(GitError::NoParentDirectory)
    );
    assert_eq!(
        get_git_ignored_files_from_gitignore("/repo/.gitignore", false, &[], &[], &[]),
        Err(GitError::NotAGitRepository)
    );
}

#[test]
fn files_under_version_control_are_never_ignored() {
    let all = vec![file("/repo/a.log"), file("/repo/b.log"), file("/repo/sub/c.log")];
    let versioned = strings(&["/repo/b.log", "/repo/elsewhere.log"]);
    assert_eq!(
        get_git_ignored_files_in_path(true, &all, &[], &versioned),
        Ok(strings(&["/repo/a.log", "/repo/sub/c.log"]))
    );
    assert_eq!(
        get_git_ignored_files_from_gitignore(
            "/repo/sub/.gitignore",
            true,
            &all,
            &[],
            &strings(&["/repo/sub/c.log"])
        ),
        Ok(vec![])
    );
}

#[test]
fn the_root_has_no_directory_above_it() {
    assert_eq!(
        get_git_ignored_files_from_gitignore("/", true, &[file("/a.log")], &[], &[]),
        Err(GitError::NoParentDirectory)
    );
    assert_eq!(
        get_git_ignored_files_from_gitignore("/.gitignore", true, &[file("/a.log")], &[], &[]),
        Ok(strings(&["/a.log"]))
    );
}
