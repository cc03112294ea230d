//! The state of one directory: which of its entries carry a marker, and
//! whether a watcher runs for it.

use crate::command::{hidden, is_hidden_file};
use crate::engine::daemon::DaemonStatus;
use crate::text::{ascending, insert_ascending, seq_contains, views};
use vstd::prelude::*;

verus! {

/// An entry of the directory, with whether it carries a marker.
#[derive(Debug, Clone, PartialEq, Eq)]
pub struct StatusEntry {
    pub path: String,
    pub marked: bool,
}

/// The state of one directory.
#[derive(Debug, Clone, PartialEq, Eq)]
pub struct StatusInfo {
    /// Whether the directory holds an ignore-rule file.
    pub has_gitignore: bool,
    /// How many entries it has, hidden ones apart.
    pub total_files: usize,
    /// The entries that carry a marker, in ascending order.
    pub ignored_files: Vec<String>,
    /// The entries that carry none, in ascending order.
    pub non_ignored_files: Vec<String>,
    /// The watcher that runs for the directory, if one does.
    pub daemon_status: Option<DaemonStatus>,
    /// The directory.
    pub current_path: String,
}

/// How many of `entries` are not hidden.
pub open spec fn visible_count(entries: Seq<StatusEntry>) -> nat
    decreases entries.len(),
{
    if entries.len() == 0 {
        0
    } else {
        visible_count(entries.drop_last()) + if hidden(entries.last().path@) {
            0nat
        } else {
            1nat
        }
    }
}

/// Whether `p` is an entry that is not hidden and whose marker is as
/// `marked` says.
pub open spec fn lists_entry(entries: Seq<StatusEntry>, p: Seq<char>, marked: bool) -> bool {
    !hidden(p) && exists|i: int|
        0 <= i < entries.len() && (#[trigger] entries[i]).path@ == p && entries[i].marked == marked
}

/// `visible_count` is at most the number of entries.
pub proof fn lemma_visible_count_bound(entries: Seq<StatusEntry>)
    ensures
        visible_count(entries) <= entries.len(),
    decreases entries.len(),
{
    if entries.len() > 0 {
        lemma_visible_count_bound(entries.drop_last());
    }
}

/// One line of the report on a directory. A number that stands for an
/// entry is its position among the marked or the unmarked entries.
#[derive(Debug, Clone, Copy, PartialEq, Eq, Structural)]
pub enum StatusLine {
    /// A rule across the page.
    Rule,
    /// The heading, which names the directory.
    Title,
    /// An empty line.
    Blank,
    /// Whether the directory holds an ignore-rule file.
    Gitignore(bool),
    /// How many entries there are.
    Total(usize),
    /// How many carry a marker.
    Marked(usize),
    /// How many carry none.
    Unmarked(usize),
    /// The watcher's process, if one runs.
    Daemon(Option<u32>),
    /// The heading of the list of entries.
    DetailsTitle,
    /// The heading of the marked entries.
    MarkedTitle,
    /// The marked entry at this position.
    MarkedFile(usize),
    /// The heading of the unmarked entries.
    UnmarkedTitle,
    /// The unmarked entry at this position.
    UnmarkedFile(usize),
}

/// The lines that list `n` entries under the heading `title`: the
/// heading, then one line for each position. Where there is no entry
/// there is no heading either.
pub open spec fn listing(title: StatusLine, n: nat, marked: bool) -> Seq<StatusLine> {
    if n == 0 {
        Seq::empty()
    } else {
        seq![title] + Seq::new(
            n,
            |i: int|
                if marked {
                    StatusLine::MarkedFile(i as usize)
                } else {
                    StatusLine::UnmarkedFile(i as usize)
                },
        )
    }
}

/// The lines of the report: the heading, the counts, the watcher, and,
/// where `verbose` is set and there are entries, the marked and the
/// unmarked entries one by one.
pub open spec fn report_lines(
    has_gitignore: bool,
    total: usize,
    marked: nat,
    unmarked: nat,
    watcher: Option<u32>,
    verbose: bool,
) -> Seq<StatusLine> {
    let head = seq![
        StatusLine::Rule,
        StatusLine::Title,
        StatusLine::Rule,
        StatusLine::Blank,
        StatusLine::Gitignore(has_gitignore),
        StatusLine::Total(total),
        StatusLine::Marked(marked as usize),
        StatusLine::Unmarked(unmarked as usize),
        StatusLine::Daemon(watcher),
    ];
    let gap = if marked > 0 && unmarked > 0 {
        seq![StatusLine::Blank]
    } else {
        Seq::empty()
    };
    let details = if verbose && total > 0 {
        seq![StatusLine::Blank, StatusLine::DetailsTitle] + listing(
            StatusLine::MarkedTitle,
            marked,
            true,
        ) + gap + listing(StatusLine::UnmarkedTitle, unmarked, false)
    } else {
        Seq::empty()
    };
    head + details + seq![StatusLine::Blank, StatusLine::Rule]
}

fn push_listing(lines: &mut Vec<StatusLine>, title: StatusLine, n: usize, marked: bool)
    ensures
        final(lines)@ == old(lines)@ + listing(title, n as nat, marked),
{
    if n == 0 {
        assert(lines@ + Seq::<StatusLine>::empty() =~= lines@);
        return;
    }
    lines.push(title);
    let mut i: usize = 0;
    while i < n
        invariant
            i <= n,
            lines@ =~= old(lines)@ + (seq![title] + Seq::new(
                i as nat,
                |k: int|
                    if marked {
                        StatusLine::MarkedFile(k as usize)
                    } else {
                        StatusLine::UnmarkedFile(k as usize)
                    },
            )),
        decreases n - i,
    {
        if marked {
            lines.push(StatusLine::MarkedFile(i));
        } else {
            lines.push(StatusLine::UnmarkedFile(i));
        }
        i += 1;
    }
}

impl StatusInfo {
    /// The state of the directory `current_path`, from its entries.
    /// Hidden entries are left out. The others are counted and sorted
    /// into those that carry a marker and those that do not, each list in
    /// ascending order.
    pub fn gather(
        current_path: String,
        has_gitignore: bool,
        daemon_status: Option<DaemonStatus>,
        entries: &[StatusEntry],
    ) -> (info: StatusInfo)
        ensures
            info.current_path == current_path,
            info.has_gitignore == has_gitignore,
            info.daemon_status == daemon_status,
            info.total_files == visible_count(entries@),
            ascending(views(info.ignored_files@)),
            ascending(views(info.non_ignored_files@)),
            forall|p: Seq<char>|
                seq_contains(views(info.ignored_files@), p) <==> lists_entry(entries@, p, true),
            forall|p: Seq<char>|
                seq_contains(views(info.non_ignored_files@), p) <==> lists_entry(
                    entries@,
                    p,
                    false,
                ),
    {
        let mut total: usize = 0;
        let mut ignored: Vec<String> = Vec::new();
        let mut others: Vec<String> = Vec::new();
        let mut i: usize = 0;
        assert(entries@.take(0) =~= Seq::<StatusEntry>::empty());
        while i < entries.len()
            invariant
                i <= entries.len(),
                total == visible_count(entries@.take(i as int)),
                ascending(views(ignored@)),
                ascending(views(others@)),
                forall|p: Seq<char>|
                    seq_contains(views(ignored@), p) <==> lists_entry(
                        entries@.take(i as int),
                        p,
                        true,
                    ),
                forall|p: Seq<char>|
                    seq_contains(views(others@), p) <==> lists_entry(
                        entries@.take(i as int),
                        p,
                        false,
                    ),
            decreases entries.len() - i,
        {
            let e = &entries[i];
            proof {
                assert(entries@.take(i + 1).drop_last() =~= entries@.take(i as int));
                assert(entries@.take(i + 1).last() == *e);
                lemma_visible_count_bound(entries@.take(i + 1));
            }
            let shown = !is_hidden_file(e.path.as_str());
            if shown {
                total += 1;
                if e.marked {
                    insert_ascending(&mut ignored, e.path.as_str());
                } else {
                    insert_ascending(&mut others, e.path.as_str());
                }
            }
            proof {
                let e0 = entries@.take(i as int);
                let e1 = entries@.take(i + 1);
                assert forall|p: Seq<char>, m: bool| lists_entry(e1, p, m) <==> (lists_entry(
                    e0,
                    p,
                    m,
                ) || (shown && p == e.path@ && m == e.marked)) by {
                    if lists_entry(e0, p, m) {
                        let k = choose|k: int|
                            0 <= k < e0.len() && (#[trigger] e0[k]).path@ == p && e0[k].marked == m;
                        assert(e1[k] == e0[k]);
                    }
                    if lists_entry(e1, p, m) {
                        let k = choose|k: int|
                            0 <= k < e1.len() && (#[trigger] e1[k]).path@ == p && e1[k].marked == m;
                        if k < i {
                            assert(e0[k] == e1[k]);
                        }
                    }
                    if shown && p == e.path@ && m == e.marked {
                        assert(e1[i as int].path@ == p);
                    }
                }
            }
            i += 1;
        }
        assert(entries@.take(entries@.len() as int) =~= entries@);
        StatusInfo {
            has_gitignore,
            total_files: total,
            ignored_files: ignored,
            non_ignored_files: others,
            daemon_status,
            current_path,
        }
    }

    /// The watcher's process, if one runs.
    pub open spec fn watcher(&self) -> Option<u32> {
        match self.daemon_status {
            Some(s) => Some(s.pid),
            None => None,
        }
    }

    /// The lines of the report on the directory.
    pub fn display(&self, verbose: bool) -> (lines: Vec<StatusLine>)
        ensures
            lines@ == report_lines(
                self.has_gitignore,
                self.total_files,
                self.ignored_files@.len(),
                self.non_ignored_files@.len(),
                self.watcher(),
                verbose,
            ),
    {
        let watcher = match &self.daemon_status {
            Some(s) => Some(s.pid),
            None => None,
        };
        let marked = self.ignored_files.len();
        let unmarked = self.non_ignored_files.len();
        let mut lines: Vec<StatusLine> = Vec::new();
        lines.push(StatusLine::Rule);
        lines.push(StatusLine::Title);
        lines.push(StatusLine::Rule);
        lines.push(StatusLine::Blank);
        lines.push(StatusLine::Gitignore(self.has_gitignore));
        lines.push(StatusLine::Total(self.total_files));
        lines.push(StatusLine::Marked(marked));
        lines.push(StatusLine::Unmarked(unmarked));
        lines.push(StatusLine::Daemon(watcher));
        let ghost head = lines@;
        if verbose && self.total_files > 0 {
            lines.push(StatusLine::Blank);
            lines.push(StatusLine::DetailsTitle);
            push_listing(&mut lines, StatusLine::MarkedTitle, marked, true);
            if marked > 0 && unmarked > 0 {
                lines.push(StatusLine::Blank);
            }
            push_listing(&mut lines, StatusLine::UnmarkedTitle, unmarked, false);
        }
        lines.push(StatusLine::Blank);
        lines.push(StatusLine::Rule);
        assert(lines@ =~= report_lines(
            self.has_gitignore,
            self.total_files,
            marked as nat,
            unmarked as nat,
            watcher,
            verbose,
        ));
        lines
    }
}

/// The report on the directory `current_path`: its state is gathered from
/// `entries`, and the lines of the report are made from it.
pub fn show_status(
    current_path: String,
    has_gitignore: bool,
    daemon_status: Option<DaemonStatus>,
    entries: &[StatusEntry],
    verbose: bool,
) -> (r: (StatusInfo, Vec<StatusLine>))
    ensures
        r.0.total_files == visible_count(entries@),
        r.0.current_path == current_path,
        ascending(views(r.0.ignored_files@)),
        ascending(views(r.0.non_ignored_files@)),
        forall|p: Seq<char>|
            seq_contains(views(r.0.ignored_files@), p) <==> lists_entry(entries@, p, true),
        forall|p: Seq<char>|
            seq_contains(views(r.0.non_ignored_files@), p) <==> lists_entry(entries@, p, false),
        r.1@ == report_lines(
            has_gitignore,
            r.0.total_files,
            r.0.ignored_files@.len(),
            r.0.non_ignored_files@.len(),
            match daemon_status {
                Some(s) => Some(s.pid),
                None => None,
            },
            verbose,
        ),
{
    let info = StatusInfo::gather(current_path, has_gitignore, daemon_status, entries);
    let lines = info.display(verbose);
    (info, lines)
}

} // verus!
