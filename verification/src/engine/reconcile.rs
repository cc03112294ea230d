//! Reconciliation: what has to change so that exactly the desired paths
//! carry a marker, and the account of a pass that made the changes.

use crate::text::{contains_str, path_has_segment, seq_contains, str_eq, views};
use crate::traits::{AttributeError, PlatformHandler};
use crate::utils::pattern_matcher::{in_metadata, EntryKind, WalkEntry};
use crate::utils::platform_utils::{
    add_ignore_attributes,
    error_among,
    has_any_ignore_attribute,
    remove_ignore_attributes,
    settled_addition,
    settled_any,
    settled_removal,
};
use vstd::prelude::*;

verus! {

/// What to do about the marker of one path.
#[derive(Debug, Clone, Copy, PartialEq, Eq, Structural)]
pub enum MarkerAction {
    /// Set the marker.
    Add,
    /// Take the marker off.
    Remove,
    /// Leave the path as it is.
    Keep,
}

/// The decision on one path.
#[derive(Debug, Clone, PartialEq, Eq)]
pub struct IgnoreDecision {
    /// The path.
    pub path: String,
    /// Whether the path carries a marker now.
    pub currently_marked: bool,
    /// Whether the path should carry one.
    pub should_be_marked: bool,
    /// What follows from the two.
    pub action: MarkerAction,
}

/// A decision, with its path as a sequence of characters.
pub struct Decision {
    pub path: Seq<char>,
    pub currently_marked: bool,
    pub should_be_marked: bool,
    pub action: MarkerAction,
}

impl View for IgnoreDecision {
    type V = Decision;

    open spec fn view(&self) -> Decision {
        Decision {
            path: self.path@,
            currently_marked: self.currently_marked,
            should_be_marked: self.should_be_marked,
            action: self.action,
        }
    }
}

/// A path that carries a marker.
#[derive(Debug, Clone, PartialEq, Eq)]
pub struct MarkedPath {
    /// The path.
    pub path: String,
    /// Whether the marker is the active mode's to take off: a marker that
    /// was set for another reason, on a path that the mode does not speak
    /// of, is not.
    pub removable: bool,
}

/// A marked path, with its path as a sequence of characters.
pub struct Marked {
    pub path: Seq<char>,
    pub removable: bool,
}

impl View for MarkedPath {
    type V = Marked;

    open spec fn view(&self) -> Marked {
        Marked { path: self.path@, removable: self.removable }
    }
}

/// The views of a sequence of decisions.
pub open spec fn decisions_of(v: Seq<IgnoreDecision>) -> Seq<Decision> {
    Seq::new(v.len(), |i: int| v[i]@)
}

/// The views of a sequence of marked paths.
pub open spec fn marked_of(v: Seq<MarkedPath>) -> Seq<Marked> {
    Seq::new(v.len(), |i: int| v[i]@)
}

/// Whether `p` is among the marked paths.
pub open spec fn is_marked(marked: Seq<Marked>, p: Seq<char>) -> bool {
    exists|i: int| 0 <= i < marked.len() && marked[i].path == p
}

/// The decision on a desired path: to add the marker where it is missing.
pub open spec fn decide_desired(p: Seq<char>, marked: Seq<Marked>) -> Decision {
    Decision {
        path: p,
        currently_marked: is_marked(marked, p),
        should_be_marked: true,
        action: if is_marked(marked, p) {
            MarkerAction::Keep
        } else {
            MarkerAction::Add
        },
    }
}

/// The decision on a marked path that is not desired: to take the marker
/// off where it is the mode's to take off.
pub open spec fn decide_marked(m: Marked) -> Decision {
    Decision {
        path: m.path,
        currently_marked: true,
        should_be_marked: false,
        action: if m.removable {
            MarkerAction::Remove
        } else {
            MarkerAction::Keep
        },
    }
}

/// The decisions on the desired paths, in their order.
pub open spec fn desired_part(desired: Seq<Seq<char>>, marked: Seq<Marked>) -> Seq<Decision> {
    Seq::new(desired.len(), |i: int| decide_desired(desired[i], marked))
}

/// The decisions on the marked paths that are not desired, in their order.
pub open spec fn marked_part(desired: Seq<Seq<char>>, marked: Seq<Marked>) -> Seq<Decision>
    decreases marked.len(),
{
    if marked.len() == 0 {
        Seq::empty()
    } else {
        let rest = marked_part(desired, marked.drop_last());
        if seq_contains(desired, marked.last().path) {
            rest
        } else {
            rest.push(decide_marked(marked.last()))
        }
    }
}

/// The decisions of one pass: one on each desired path, then one on each
/// marked path that is not desired.
pub open spec fn reconciled(desired: Seq<Seq<char>>, marked: Seq<Marked>) -> Seq<Decision> {
    desired_part(desired, marked) + marked_part(desired, marked)
}

fn is_among(marked: &[MarkedPath], path: &str) -> (r: bool)
    ensures
        r == is_marked(marked_of(marked@), path@),
{
    let mut i: usize = 0;
    while i < marked.len()
        invariant
            i <= marked.len(),
            forall|k: int| 0 <= k < i ==> marked@[k].path@ != path@,
        decreases marked.len() - i,
    {
        if str_eq(marked[i].path.as_str(), path) {
            assert(marked_of(marked@)[i as int].path == path@);
            return true;
        }
        i += 1;
    }
    assert forall|k: int| 0 <= k < marked_of(marked@).len() implies marked_of(marked@)[k].path
        != path@ by {
        assert(marked_of(marked@)[k] == marked@[k]@);
    }
    false
}

/// The decisions that bring the markers in line with `desired`, given the
/// paths that are `marked` now: a desired path without marker gets one, a
/// marked path that is not desired loses it where it is removable, and
/// every other path is left alone.
pub fn reconcile(desired: &[String], marked: &[MarkedPath]) -> (decisions: Vec<IgnoreDecision>)
    ensures
        decisions_of(decisions@) == reconciled(views(desired@), marked_of(marked@)),
{
    let ghost d = views(desired@);
    let ghost m = marked_of(marked@);
    let mut decisions: Vec<IgnoreDecision> = Vec::new();
    let mut i: usize = 0;
    while i < desired.len()
        invariant
            i <= desired.len(),
            d == views(desired@),
            m == marked_of(marked@),
            decisions_of(decisions@) =~= desired_part(d, m).take(i as int),
        decreases desired.len() - i,
    {
        let ghost before = decisions_of(decisions@);
        let present = is_among(marked, desired[i].as_str());
        decisions.push(
            IgnoreDecision {
                path: desired[i].clone(),
                currently_marked: present,
                should_be_marked: true,
                action: if present {
                    MarkerAction::Keep
                } else {
                    MarkerAction::Add
                },
            },
        );
        assert(decisions_of(decisions@) =~= before.push(decide_desired(d[i as int], m)));
        i += 1;
    }
    assert(desired_part(d, m).take(desired@.len() as int) =~= desired_part(d, m));
    let mut j: usize = 0;
    assert(m.take(0) =~= Seq::<Marked>::empty());
    while j < marked.len()
        invariant
            j <= marked.len(),
            d == views(desired@),
            m == marked_of(marked@),
            decisions_of(decisions@) =~= desired_part(d, m) + marked_part(d, m.take(j as int)),
        decreases marked.len() - j,
    {
        let ghost before = decisions_of(decisions@);
        assert(m.take(j + 1).drop_last() =~= m.take(j as int));
        assert(m.take(j + 1).last() == marked@[j as int]@);
        if !contains_str(desired, marked[j].path.as_str()) {
            decisions.push(
                IgnoreDecision {
                    path: marked[j].path.clone(),
                    currently_marked: true,
                    should_be_marked: false,
                    action: if marked[j].removable {
                        MarkerAction::Remove
                    } else {
                        MarkerAction::Keep
                    },
                },
            );
            assert(decisions_of(decisions@) =~= before.push(decide_marked(m[j as int])));
        }
        j += 1;
    }
    assert(m.take(marked@.len() as int) =~= m);
    decisions
}

/// What came of carrying out one decision.
#[derive(Debug, Clone, PartialEq, Eq)]
pub enum ApplyOutcome {
    /// A marker was set or taken off.
    Changed,
    /// There was nothing to do, or nothing was done.
    Unchanged,
    /// The platform reported a failure.
    Failed(AttributeError),
}

/// What the tally of the attributes changed on a path means for its
/// decision: a change where any attribute was set or removed, no change
/// where none was, and the failure where the work ended with one.
pub fn outcome_of(done: Result<usize, AttributeError>) -> (r: ApplyOutcome)
    ensures
        done matches Ok(n) ==> r == (if n > 0 {
            ApplyOutcome::Changed
        } else {
            ApplyOutcome::Unchanged
        }),
        done matches Err(e) ==> r == ApplyOutcome::Failed(e),
{
    match done {
        Ok(count) => if count > 0 {
            ApplyOutcome::Changed
        } else {
            ApplyOutcome::Unchanged
        },
        Err(e) => ApplyOutcome::Failed(e),
    }
}

/// What comes of carrying out the decision `d` where the handler's answers
/// are settled: a change where a marker attribute was set or removed, no
/// change where none was, and a failure where the handler cannot do what
/// is asked. `None` where an answer that is needed is the system's to
/// give.
pub open spec fn settled_apply<P: PlatformHandler>(h: P, d: Decision) -> Option<ApplyOutcome> {
    let attrs = h.target_attributes();
    let tally = match d.action {
        MarkerAction::Add => settled_addition(h, d.path, attrs, false, 0, 0),
        MarkerAction::Remove => settled_removal(h, d.path, attrs, 0, 0),
        MarkerAction::Keep => Some(Some(0nat)),
    };
    match tally {
        None => None,
        Some(None) => Some(ApplyOutcome::Failed(AttributeError::NotSupported)),
        Some(Some(n)) => Some(
            if n > 0 {
                ApplyOutcome::Changed
            } else {
                ApplyOutcome::Unchanged
            },
        ),
    }
}

/// Whether an error can come of carrying out a decision with the action
/// `action` on a platform with the attributes `attrs`: it names one of the
/// attributes, and is of a kind that the action's calls can give.
pub open spec fn error_of_action(e: AttributeError, action: MarkerAction, attrs: Seq<Seq<char>>) -> bool {
    &&& error_among(e, attrs)
    &&& action is Add ==> e is AddFailed || e is NotSupported
    &&& action is Remove ==> e is CheckFailed || e is RemoveFailed || e is NotSupported
}

/// Whether `outcome` is an outcome of carrying out the decision `d` on the
/// platform `h`. A decision to leave the path alone changes nothing, and
/// nothing changes on a platform without attributes. Setting the
/// attributes changes something or fails, wherever the platform has
/// attributes. A failure carries an error of the decision's action. Where
/// the handler's answers are settled, the outcome is what follows from
/// them.
pub open spec fn carried_out<P: PlatformHandler>(h: P, d: Decision, outcome: ApplyOutcome) -> bool {
    &&& d.action is Keep ==> outcome is Unchanged
    &&& h.target_attributes().len() == 0 ==> outcome is Unchanged
    &&& d.action is Add && h.target_attributes().len() > 0 ==> !(outcome is Unchanged)
    &&& outcome matches ApplyOutcome::Failed(e) ==> error_of_action(
        e,
        d.action,
        h.target_attributes(),
    )
    &&& settled_apply(h, d) matches Some(o) ==> outcome == o
}

/// Whether each of `done` holds an outcome of carrying out its decision on
/// the platform `h`.
pub open spec fn all_carried_out<P: PlatformHandler>(h: P, done: Seq<AppliedDecision>) -> bool {
    forall|i: int|
        0 <= i < done.len() ==> carried_out(h, (#[trigger] done[i]).decision@, done[i].outcome)
}

/// Carries out one decision on the platform: sets all marker attributes
/// for `Add`, takes off those that are set for `Remove`. A decision to
/// leave the path alone touches nothing. Setting the attributes changes
/// something or fails, wherever the platform has attributes; a failure is
/// kept as the outcome, with the error that ended the work. Where the
/// handler's answers are settled, the outcome is what follows from them.
pub fn apply_decision<P: PlatformHandler>(platform: &P, decision: &IgnoreDecision) -> (r:
    ApplyOutcome)
    ensures
        decision.action is Keep ==> r is Unchanged,
        platform.target_attributes().len() == 0 ==> r is Unchanged,
        decision.action is Add && platform.target_attributes().len() > 0 ==> !(r is Unchanged),
        r matches ApplyOutcome::Failed(e) ==> error_of_action(
            e,
            decision.action,
            platform.target_attributes(),
        ),
        settled_apply(*platform, decision@) matches Some(outcome) ==> r == outcome,
        carried_out(*platform, decision@, r),
{
    let done = match decision.action {
        MarkerAction::Add => add_ignore_attributes(platform, decision.path.as_str(), false),
        MarkerAction::Remove => remove_ignore_attributes(platform, decision.path.as_str()),
        MarkerAction::Keep => {
            return ApplyOutcome::Unchanged;
        },
    };
    outcome_of(done)
}

/// A decision together with what came of carrying it out.
#[derive(Debug, Clone, PartialEq, Eq)]
pub struct AppliedDecision {
    /// The decision.
    pub decision: IgnoreDecision,
    /// What came of it.
    pub outcome: ApplyOutcome,
}

/// Carries out `decisions` in their order, each as `apply_decision` does:
/// every decision to add is carried out, whatever came of the others. A
/// failure on one path is kept as that path's outcome and does not end
/// the pass: there is one outcome for every decision.
pub fn apply_decisions<P: PlatformHandler>(platform: &P, decisions: &[IgnoreDecision]) -> (done:
    Vec<AppliedDecision>)
    ensures
        done@.len() == decisions@.len(),
        forall|i: int| 0 <= i < done@.len() ==> (#[trigger] done@[i]).decision@ == decisions@[i]@,
        forall|i: int|
            0 <= i < done@.len() && decisions@[i].action is Keep ==> (
            #[trigger] done@[i]).outcome is Unchanged,
        forall|i: int|
            0 <= i < done@.len() && decisions@[i].action is Add
                && platform.target_attributes().len() > 0 ==> !((
            #[trigger] done@[i]).outcome is Unchanged),
        forall|i: int|
            0 <= i < done@.len() ==> (settled_apply(*platform, decisions@[i]@) matches Some(o) ==> (
            #[trigger] done@[i]).outcome == o),
        forall|i: int|
            0 <= i < done@.len() ==> ((#[trigger] done@[i]).outcome matches ApplyOutcome::Failed(e)
                ==> error_of_action(e, decisions@[i].action, platform.target_attributes())),
        all_carried_out(*platform, done@),
{
    let mut done: Vec<AppliedDecision> = Vec::new();
    let mut i: usize = 0;
    while i < decisions.len()
        invariant
            i <= decisions.len(),
            done@.len() == i,
            forall|k: int| 0 <= k < i ==> (#[trigger] done@[k]).decision@ == decisions@[k]@,
            forall|k: int|
                0 <= k < i ==> carried_out(
                    *platform,
                    decisions@[k]@,
                    (#[trigger] done@[k]).outcome,
                ),
        decreases decisions.len() - i,
    {
        let outcome = apply_decision(platform, &decisions[i]);
        let decision = IgnoreDecision {
            path: decisions[i].path.clone(),
            currently_marked: decisions[i].currently_marked,
            should_be_marked: decisions[i].should_be_marked,
            action: decisions[i].action,
        };
        done.push(AppliedDecision { decision, outcome });
        i += 1;
    }
    done
}

/// Whether some entry of `entries` has the path and the kind of `e`.
pub open spec fn entry_among(entries: Seq<WalkEntry>, e: WalkEntry) -> bool {
    exists|j: int|
        0 <= j < entries.len() && (#[trigger] entries[j]).path@ == e.path@ && entries[j].kind
            == e.kind
}

/// The path and the kind of an entry.
pub open spec fn entry_view(e: WalkEntry) -> (Seq<char>, EntryKind) {
    (e.path@, e.kind)
}

/// The paths and kinds of a sequence of entries.
pub open spec fn entry_views(v: Seq<WalkEntry>) -> Seq<(Seq<char>, EntryKind)> {
    Seq::new(v.len(), |i: int| entry_view(v[i]))
}

/// The entries from the `i`-th on that carry a marker, behind those
/// `found` so far, where the handler's answers are settled. Each entry is
/// given by its path and kind. Entries inside version control's metadata
/// directory are passed over. `None` where an answer that is needed is the
/// system's to give.
pub open spec fn settled_marked<P: PlatformHandler>(
    h: P,
    entries: Seq<(Seq<char>, EntryKind)>,
    i: int,
    found: Seq<(Seq<char>, EntryKind)>,
) -> Option<Seq<(Seq<char>, EntryKind)>>
    decreases entries.len() - i,
{
    if i < 0 || i >= entries.len() {
        Some(found)
    } else if in_metadata(entries[i].0) {
        settled_marked(h, entries, i + 1, found)
    } else {
        match settled_any(h, entries[i].0, h.target_attributes(), 0) {
            None => None,
            Some(true) => settled_marked(h, entries, i + 1, found.push(entries[i])),
            Some(false) => settled_marked(h, entries, i + 1, found),
        }
    }
}

/// The paths of a sequence of entries given by path and kind.
pub open spec fn paths_of(entries: Seq<(Seq<char>, EntryKind)>) -> Seq<Seq<char>> {
    Seq::new(entries.len(), |i: int| entries[i].0)
}

/// The entries among `entries` whose paths carry a marker on the
/// platform, in their order. Whether a path carries one is the platform's
/// answer at the time; on a platform without marker attributes none does.
/// Nothing inside version control's metadata directory is looked at.
/// Where the handler's answers are settled, the result is what follows
/// from them.
pub fn find_marked_files<P: PlatformHandler>(platform: &P, entries: &[WalkEntry]) -> (marked: Vec<
    WalkEntry,
>)
    ensures
        marked@.len() <= entries@.len(),
        forall|i: int| 0 <= i < marked@.len() ==> entry_among(entries@, #[trigger] marked@[i]),
        forall|i: int| 0 <= i < marked@.len() ==> !in_metadata((#[trigger] marked@[i]).path@),
        platform.target_attributes().len() == 0 ==> marked@.len() == 0,
        settled_marked(*platform, entry_views(entries@), 0, Seq::empty()) matches Some(found)
            ==> entry_views(marked@) == found,
{
    let mut marked: Vec<WalkEntry> = Vec::new();
    let mut i: usize = 0;
    let ghost all = settled_marked(*platform, entry_views(entries@), 0, Seq::empty());
    assert(entry_views(marked@) =~= Seq::empty());
    while i < entries.len()
        invariant
            i <= entries.len(),
            marked@.len() <= i,
            all == settled_marked(*platform, entry_views(entries@), 0, Seq::empty()),
            all is Some ==> all == settled_marked(
                *platform,
                entry_views(entries@),
                i as int,
                entry_views(marked@),
            ),
            forall|k: int| 0 <= k < marked@.len() ==> entry_among(entries@, #[trigger] marked@[k]),
            forall|k: int| 0 <= k < marked@.len() ==> !in_metadata((#[trigger] marked@[k]).path@),
            platform.target_attributes().len() == 0 ==> marked@.len() == 0,
        decreases entries.len() - i,
    {
        if !path_has_segment(entries[i].path.as_str(), ".git") && has_any_ignore_attribute(
            platform,
            entries[i].path.as_str(),
        ) {
            let ghost before = marked@;
            marked.push(WalkEntry { path: entries[i].path.clone(), kind: entries[i].kind });
            assert(entry_views(marked@) =~= entry_views(before).push(entry_view(entries@[i as int])));
            assert forall|k: int| 0 <= k < marked@.len() implies entry_among(
                entries@,
                #[trigger] marked@[k],
            ) by {
                if k < before.len() {
                    assert(marked@[k] == before[k]);
                } else {
                    assert(entries@[i as int].path@ == marked@[k].path@);
                }
            }
        }
        i += 1;
    }
    marked
}

/// The decisions that were carried out.
pub open spec fn decided(done: Seq<AppliedDecision>) -> Seq<Decision> {
    Seq::new(done.len(), |i: int| done[i].decision@)
}

/// What a pass counts.
#[derive(Debug, Clone, Copy, PartialEq, Eq, Structural)]
pub enum Tally {
    /// Markers that were set.
    Added,
    /// Markers that were taken off.
    Removed,
    /// Paths on which the platform failed.
    Failed,
}

/// Whether an applied decision counts towards `t`.
pub open spec fn counts_as(a: AppliedDecision, t: Tally) -> bool {
    match t {
        Tally::Added => a.decision.action is Add && a.outcome is Changed,
        Tally::Removed => a.decision.action is Remove && a.outcome is Changed,
        Tally::Failed => a.outcome is Failed,
    }
}

/// How many of `done` count towards `t`.
pub open spec fn tally(done: Seq<AppliedDecision>, t: Tally) -> nat
    decreases done.len(),
{
    if done.len() == 0 {
        0
    } else {
        tally(done.drop_last(), t) + if counts_as(done.last(), t) {
            1nat
        } else {
            0nat
        }
    }
}

/// A tally is at most the number of decisions.
pub proof fn lemma_tally_bound(done: Seq<AppliedDecision>, t: Tally)
    ensures
        tally(done, t) <= done.len(),
    decreases done.len(),
{
    if done.len() > 0 {
        lemma_tally_bound(done.drop_last(), t);
    }
}

/// How many changed paths a report names one by one.
pub const MAX_FILES_TO_DISPLAY: usize = 10;

/// How many failures a report names one by one.
pub const MAX_ERRORS_TO_DISPLAY: usize = 5;

/// The counts of one pass.
#[derive(Debug, Clone, Copy, PartialEq, Eq, Structural)]
pub struct ScanSummary {
    /// Markers that were set.
    pub added: usize,
    /// Markers that were taken off.
    pub removed: usize,
    /// Paths on which the platform failed.
    pub errors: usize,
}

/// One line of the account of a pass. A number that stands for a path is
/// the position of its decision in the pass.
#[derive(Debug, Clone, Copy, PartialEq, Eq, Structural)]
pub enum ReportLine {
    /// The marker of this decision's path was set.
    Added(usize),
    /// The marker of this decision's path was taken off.
    Removed(usize),
    /// This decision failed.
    Failed(usize),
    /// So many more markers were set than the report names.
    MoreAdded(usize),
    /// So many more markers were taken off than the report names.
    MoreRemoved(usize),
    /// So many more decisions failed than the report names.
    MoreErrors(usize),
    /// The counts, where anything was done or went wrong.
    Summary(ScanSummary),
    /// Nothing was done and nothing went wrong.
    UpToDate,
}

/// The line, if any, that the decision at `i` adds to the report: a change
/// is named while it is among the first `MAX_FILES_TO_DISPLAY` of its
/// kind, a failure while it is among the first `MAX_ERRORS_TO_DISPLAY`.
pub open spec fn item_line(done: Seq<AppliedDecision>, i: int) -> Option<ReportLine> {
    let upto = done.take(i + 1);
    if counts_as(done[i], Tally::Added) {
        if tally(upto, Tally::Added) <= MAX_FILES_TO_DISPLAY {
            Some(ReportLine::Added(i as usize))
        } else {
            None
        }
    } else if counts_as(done[i], Tally::Removed) {
        if tally(upto, Tally::Removed) <= MAX_FILES_TO_DISPLAY {
            Some(ReportLine::Removed(i as usize))
        } else {
            None
        }
    } else if counts_as(done[i], Tally::Failed) {
        if tally(upto, Tally::Failed) <= MAX_ERRORS_TO_DISPLAY {
            Some(ReportLine::Failed(i as usize))
        } else {
            None
        }
    } else {
        None
    }
}

/// The lines that the first `n` decisions add to the report.
pub open spec fn item_lines(done: Seq<AppliedDecision>, n: int) -> Seq<ReportLine>
    decreases n,
{
    if n <= 0 {
        Seq::empty()
    } else {
        match item_line(done, n - 1) {
            Some(line) => item_lines(done, n - 1).push(line),
            None => item_lines(done, n - 1),
        }
    }
}

/// The lines that close a report: how many changes and failures were not
/// named, then the counts, or the word that all is in order.
pub open spec fn closing_lines(s: ScanSummary) -> Seq<ReportLine> {
    let a = if s.added > MAX_FILES_TO_DISPLAY {
        seq![ReportLine::MoreAdded((s.added - MAX_FILES_TO_DISPLAY) as usize)]
    } else {
        Seq::empty()
    };
    let r = if s.removed > MAX_FILES_TO_DISPLAY {
        seq![ReportLine::MoreRemoved((s.removed - MAX_FILES_TO_DISPLAY) as usize)]
    } else {
        Seq::empty()
    };
    let e = if s.errors > MAX_ERRORS_TO_DISPLAY {
        seq![ReportLine::MoreErrors((s.errors - MAX_ERRORS_TO_DISPLAY) as usize)]
    } else {
        Seq::empty()
    };
    let last = if s.added > 0 || s.removed > 0 || s.errors > 0 {
        ReportLine::Summary(s)
    } else {
        ReportLine::UpToDate
    };
    a + r + e + seq![last]
}

/// The line that closes the account of a pass under marked paths.
#[derive(Debug, Clone, Copy, PartialEq, Eq, Structural)]
pub enum RecordLine {
    /// No path is marked in the record: there was nothing to do.
    NothingTracked,
    /// Every marked path is as it should be.
    UpToDate,
    /// The counts: markers set or taken off, paths taken out of the
    /// record, and failures.
    Summary { updated: usize, untracked: usize, errors: usize },
}

/// The line that closes the account of a pass under marked paths: with
/// `marked` paths in the record before the pass, `untracked` of
/// them taken out of it, and the counts `s`. The count of markers set or
/// taken off stops at the largest number that fits.
pub open spec fn record_line(s: ScanSummary, marked: usize, untracked: usize) -> RecordLine {
    if marked == 0 {
        RecordLine::NothingTracked
    } else if s.added > 0 || s.removed > 0 || untracked > 0 || s.errors > 0 {
        RecordLine::Summary {
            updated: if s.added + s.removed > usize::MAX {
                usize::MAX
            } else {
                (s.added + s.removed) as usize
            },
            untracked,
            errors: s.errors,
        }
    } else {
        RecordLine::UpToDate
    }
}

/// The line that closes the account of a pass under marked paths.
pub fn record_closing_line(s: ScanSummary, marked: usize, untracked: usize) -> (line: RecordLine)
    ensures
        line == record_line(s, marked, untracked),
{
    if marked == 0 {
        RecordLine::NothingTracked
    } else if s.added > 0 || s.removed > 0 || untracked > 0 || s.errors > 0 {
        RecordLine::Summary { updated: s.added.saturating_add(s.removed), untracked, errors: s.errors }
    } else {
        RecordLine::UpToDate
    }
}

/// The account of a pass.
#[derive(Debug, Clone, PartialEq, Eq)]
pub struct ScanReport {
    /// The counts.
    pub summary: ScanSummary,
    /// The lines to show, in their order.
    pub lines: Vec<ReportLine>,
}

/// The account of a pass: its counts, and the lines to show. The lines name
/// the first changes and failures one by one, in the order of the
/// decisions, and then say how many more there were.
pub fn report(done: &[AppliedDecision]) -> (r: ScanReport)
    ensures
        r.summary.added == tally(done@, Tally::Added),
        r.summary.removed == tally(done@, Tally::Removed),
        r.summary.errors == tally(done@, Tally::Failed),
        r.lines@ == item_lines(done@, done@.len() as int) + closing_lines(r.summary),
{
    let mut added: usize = 0;
    let mut removed: usize = 0;
    let mut errors: usize = 0;
    let mut lines: Vec<ReportLine> = Vec::new();
    let mut i: usize = 0;
    assert(done@.take(0) =~= Seq::<AppliedDecision>::empty());
    while i < done.len()
        invariant
            i <= done.len(),
            added == tally(done@.take(i as int), Tally::Added),
            removed == tally(done@.take(i as int), Tally::Removed),
            errors == tally(done@.take(i as int), Tally::Failed),
            lines@ == item_lines(done@, i as int),
        decreases done.len() - i,
    {
        proof {
            assert(done@.take(i + 1).drop_last() =~= done@.take(i as int));
            assert(done@.take(i + 1).last() == done@[i as int]);
            lemma_tally_bound(done@.take(i + 1), Tally::Added);
            lemma_tally_bound(done@.take(i + 1), Tally::Removed);
            lemma_tally_bound(done@.take(i + 1), Tally::Failed);
        }
        let changed = match done[i].outcome {
            ApplyOutcome::Changed => true,
            _ => false,
        };
        let failed = match done[i].outcome {
            ApplyOutcome::Failed(_) => true,
            _ => false,
        };
        let action = done[i].decision.action;
        if changed && action == MarkerAction::Add {
            added += 1;
            if added <= MAX_FILES_TO_DISPLAY {
                lines.push(ReportLine::Added(i));
            }
        } else if changed && action == MarkerAction::Remove {
            removed += 1;
            if removed <= MAX_FILES_TO_DISPLAY {
                lines.push(ReportLine::Removed(i));
            }
        } else if failed {
            errors += 1;
            if errors <= MAX_ERRORS_TO_DISPLAY {
                lines.push(ReportLine::Failed(i));
            }
        }
        i += 1;
    }
    assert(done@.take(done@.len() as int) =~= done@);
    let summary = ScanSummary { added, removed, errors };
    let ghost items = lines@;
    if added > MAX_FILES_TO_DISPLAY {
        lines.push(ReportLine::MoreAdded(added - MAX_FILES_TO_DISPLAY));
    }
    if removed > MAX_FILES_TO_DISPLAY {
        lines.push(ReportLine::MoreRemoved(removed - MAX_FILES_TO_DISPLAY));
    }
    if errors > MAX_ERRORS_TO_DISPLAY {
        lines.push(ReportLine::MoreErrors(errors - MAX_ERRORS_TO_DISPLAY));
    }
    if added > 0 || removed > 0 || errors > 0 {
        lines.push(ReportLine::Summary(summary));
    } else {
        lines.push(ReportLine::UpToDate);
    }
    assert(lines@ =~= items + closing_lines(summary));
    ScanReport { summary, lines }
}

/// Whether some decision sets the marker of `p`.
pub open spec fn adds(decisions: Seq<Decision>, p: Seq<char>) -> bool {
    exists|k: int|
        0 <= k < decisions.len() && (#[trigger] decisions[k]).path == p && decisions[k].action is Add
}

/// Whether some decision speaks of `p`.
pub open spec fn decides(decisions: Seq<Decision>, p: Seq<char>) -> bool {
    exists|k: int| 0 <= k < decisions.len() && (#[trigger] decisions[k]).path == p
}

/// Whether some decision takes the marker of `p` off.
pub open spec fn removes(decisions: Seq<Decision>, p: Seq<char>) -> bool {
    exists|k: int|
        0 <= k < decisions.len() && (#[trigger] decisions[k]).path == p
            && decisions[k].action is Remove
}

/// Whether `d` is the decision on some marked path that is not desired.
pub open spec fn from_marked(desired: Seq<Seq<char>>, marked: Seq<Marked>, d: Decision) -> bool {
    exists|j: int|
        0 <= j < marked.len() && !seq_contains(desired, (#[trigger] marked[j]).path) && d
            == decide_marked(marked[j])
}

/// Whether `d` is one of `part`.
pub open spec fn among(part: Seq<Decision>, d: Decision) -> bool {
    exists|k: int| 0 <= k < part.len() && #[trigger] part[k] == d
}

/// Each decision on a marked path that is not desired stems from one such
/// path, and each such path has its decision.
pub proof fn lemma_marked_part(desired: Seq<Seq<char>>, marked: Seq<Marked>)
    ensures
        forall|k: int|
            0 <= k < marked_part(desired, marked).len() ==> from_marked(
                desired,
                marked,
                #[trigger] marked_part(desired, marked)[k],
            ),
        forall|j: int|
            0 <= j < marked.len() && !seq_contains(desired, (#[trigger] marked[j]).path) ==> among(
                marked_part(desired, marked),
                decide_marked(marked[j]),
            ),
    decreases marked.len(),
{
    let out = marked_part(desired, marked);
    if marked.len() > 0 {
        let front = marked.drop_last();
        let rest = marked_part(desired, front);
        let n = marked.len() - 1;
        lemma_marked_part(desired, front);
        assert forall|k: int| 0 <= k < out.len() implies from_marked(
            desired,
            marked,
            #[trigger] out[k],
        ) by {
            if k < rest.len() {
                assert(out[k] == rest[k]);
                assert(from_marked(desired, front, rest[k]));
                let j = choose|j: int|
                    0 <= j < front.len() && !seq_contains(desired, (#[trigger] front[j]).path)
                        && rest[k] == decide_marked(front[j]);
                assert(front[j] == marked[j]);
            } else {
                assert(out[k] == decide_marked(marked[n]));
            }
        }
        assert forall|j: int|
            0 <= j < marked.len() && !seq_contains(desired, (#[trigger] marked[j]).path) implies among(
            out,
            decide_marked(marked[j]),
        ) by {
            if j < n {
                assert(front[j] == marked[j]);
                assert(among(rest, decide_marked(front[j])));
                let k = choose|k: int| 0 <= k < rest.len() && #[trigger] rest[k] == decide_marked(front[j]);
                assert(out[k] == rest[k]);
            } else {
                assert(out[out.len() - 1] == decide_marked(marked[j]));
            }
        }
    }
}

/// What the decisions of a pass are, path by path: every path that is
/// desired or marked has a decision, and no other path has one; a desired
/// path that is not marked has a decision to add, a marked path that is
/// not desired and removable has a decision to remove, and no other path
/// has either.
pub proof fn lemma_reconciled(desired: Seq<Seq<char>>, marked: Seq<Marked>)
    ensures
        forall|p: Seq<char>|
            decides(reconciled(desired, marked), p) <==> (seq_contains(desired, p) || is_marked(
                marked,
                p,
            )),
        forall|p: Seq<char>|
            adds(reconciled(desired, marked), p) <==> (seq_contains(desired, p) && !is_marked(
                marked,
                p,
            )),
        forall|p: Seq<char>|
            removes(reconciled(desired, marked), p) <==> (!seq_contains(desired, p) && exists|
                j: int,
            | 0 <= j < marked.len() && (#[trigger] marked[j]).path == p && marked[j].removable),
        forall|k: int|
            0 <= k < reconciled(desired, marked).len() ==> seq_contains(
                desired,
                (#[trigger] reconciled(desired, marked)[k]).path,
            ) || is_marked(marked, reconciled(desired, marked)[k].path),
{
    let ds = reconciled(desired, marked);
    let dp = desired_part(desired, marked);
    let mp = marked_part(desired, marked);
    lemma_marked_part(desired, marked);
    assert forall|k: int| 0 <= k < ds.len() implies seq_contains(desired, (#[trigger] ds[k]).path)
        || is_marked(marked, ds[k].path) by {
        if k < dp.len() {
            assert(ds[k] == dp[k]);
            assert(desired[k] == ds[k].path);
        } else {
            assert(ds[k] == mp[k - dp.len()]);
            assert(from_marked(desired, marked, mp[k - dp.len()]));
            let j = choose|j: int|
                0 <= j < marked.len() && !seq_contains(desired, (#[trigger] marked[j]).path) && mp[k
                    - dp.len()] == decide_marked(marked[j]);
            assert(marked[j].path == ds[k].path);
        }
    }
    assert forall|p: Seq<char>| decides(ds, p) <==> (seq_contains(desired, p) || is_marked(
        marked,
        p,
    )) by {
        if decides(ds, p) {
            let k = choose|k: int| 0 <= k < ds.len() && (#[trigger] ds[k]).path == p;
            assert(seq_contains(desired, ds[k].path) || is_marked(marked, ds[k].path));
        }
        if seq_contains(desired, p) {
            let i = choose|i: int| 0 <= i < desired.len() && desired[i] == p;
            assert(ds[i] == dp[i]);
            assert(ds[i].path == p);
        } else if is_marked(marked, p) {
            let j = choose|j: int| 0 <= j < marked.len() && marked[j].path == p;
            assert(among(mp, decide_marked(marked[j])));
            let k = choose|k: int| 0 <= k < mp.len() && #[trigger] mp[k] == decide_marked(marked[j]);
            assert(ds[dp.len() + k] == mp[k]);
            assert(ds[dp.len() + k].path == p);
        }
    }
    assert forall|p: Seq<char>| adds(ds, p) <==> (seq_contains(desired, p) && !is_marked(
        marked,
        p,
    )) by {
        if adds(ds, p) {
            let k = choose|k: int| 0 <= k < ds.len() && (#[trigger] ds[k]).path == p && ds[k].action is Add;
            if k < dp.len() {
                assert(ds[k] == dp[k]);
                assert(desired[k] == p);
            } else {
                assert(ds[k] == mp[k - dp.len()]);
                assert(from_marked(desired, marked, mp[k - dp.len()]));
            }
        }
        if seq_contains(desired, p) && !is_marked(marked, p) {
            let i = choose|i: int| 0 <= i < desired.len() && desired[i] == p;
            assert(ds[i] == dp[i]);
            assert(ds[i].path == p && ds[i].action is Add);
        }
    }
    assert forall|p: Seq<char>|
        removes(ds, p) <==> (!seq_contains(desired, p) && exists|j: int|
            0 <= j < marked.len() && (#[trigger] marked[j]).path == p && marked[j].removable) by {
        if removes(ds, p) {
            let k = choose|k: int|
                0 <= k < ds.len() && (#[trigger] ds[k]).path == p && ds[k].action is Remove;
            if k < dp.len() {
                assert(ds[k] == dp[k]);
            } else {
                assert(ds[k] == mp[k - dp.len()]);
                assert(from_marked(desired, marked, mp[k - dp.len()]));
                let j = choose|j: int|
                    0 <= j < marked.len() && !seq_contains(desired, (#[trigger] marked[j]).path)
                        && mp[k - dp.len()] == decide_marked(marked[j]);
                assert(marked[j].path == p && marked[j].removable);
            }
        }
        if !seq_contains(desired, p) && exists|j: int|
            0 <= j < marked.len() && (#[trigger] marked[j]).path == p && marked[j].removable {
            let j = choose|j: int|
                0 <= j < marked.len() && (#[trigger] marked[j]).path == p && marked[j].removable;
            assert(among(mp, decide_marked(marked[j])));
            let k = choose|k: int| 0 <= k < mp.len() && #[trigger] mp[k] == decide_marked(marked[j]);
            assert(ds[dp.len() + k] == mp[k]);
            assert(ds[dp.len() + k].path == p && ds[dp.len() + k].action is Remove);
        }
    }
}

/// Where nothing is marked, a pass decides to add the marker of every
/// desired path, in the order of the desired paths, and decides on no
/// other path.
pub proof fn lemma_nothing_marked(desired: Seq<Seq<char>>)
    ensures
        reconciled(desired, Seq::empty()) == Seq::new(
            desired.len(),
            |i: int|
                Decision {
                    path: desired[i],
                    currently_marked: false,
                    should_be_marked: true,
                    action: MarkerAction::Add,
                },
        ),
{
    let nothing = Seq::<Marked>::empty();
    assert forall|p: Seq<char>| !is_marked(nothing, p) by {}
    assert(marked_part(desired, nothing) =~= Seq::<Decision>::empty());
    assert(reconciled(desired, nothing) =~= Seq::new(
        desired.len(),
        |i: int|
            Decision {
                path: desired[i],
                currently_marked: false,
                should_be_marked: true,
                action: MarkerAction::Add,
            },
    ));
}

/// Whether `after` is what is marked once the decisions of a pass over
/// `desired` and `before` have all been carried out, and nothing else has
/// changed: a path is marked afterwards where it was marked and is not
/// unmarked by the pass, or where the pass marks it; and a marker on a path
/// that is not desired, if it is removable afterwards, was there and
/// removable before.
pub open spec fn marked_after_pass(
    desired: Seq<Seq<char>>,
    before: Seq<Marked>,
    after: Seq<Marked>,
) -> bool {
    &&& forall|p: Seq<char>|
        is_marked(after, p) <==> ((is_marked(before, p) && !removes(
            reconciled(desired, before),
            p,
        )) || adds(reconciled(desired, before), p))
    &&& forall|i: int|
        0 <= i < after.len() && (#[trigger] after[i]).removable && !seq_contains(
            desired,
            after[i].path,
        ) ==> exists|j: int| 0 <= j < before.len() && before[j] == after[i]
}

/// A second pass right after a first finds nothing to do: with the same
/// desired paths, and with the markers as the first pass left them, every
/// decision is to leave the path alone.
pub proof fn lemma_second_pass_changes_nothing(
    desired: Seq<Seq<char>>,
    before: Seq<Marked>,
    after: Seq<Marked>,
)
    requires
        marked_after_pass(desired, before, after),
    ensures
        forall|k: int|
            0 <= k < reconciled(desired, after).len() ==> (#[trigger] reconciled(
                desired,
                after,
            )[k]).action is Keep,
{
    let first = reconciled(desired, before);
    let second = reconciled(desired, after);
    let dp = desired_part(desired, after);
    let mp = marked_part(desired, after);
    lemma_reconciled(desired, before);
    lemma_marked_part(desired, after);
    assert forall|k: int| 0 <= k < second.len() implies (#[trigger] second[k]).action is Keep by {
        if k < dp.len() {
            let p = desired[k];
            assert(second[k] == dp[k]);
            assert(seq_contains(desired, p));
            if !is_marked(before, p) {
                assert(adds(first, p));
            } else {
                assert(!removes(first, p));
            }
            assert(is_marked(after, p));
        } else {
            assert(second[k] == mp[k - dp.len()]);
            assert(from_marked(desired, after, mp[k - dp.len()]));
            let j = choose|j: int|
                0 <= j < after.len() && !seq_contains(desired, (#[trigger] after[j]).path) && mp[k
                    - dp.len()] == decide_marked(after[j]);
            let p = after[j].path;
            if after[j].removable {
                let i = choose|i: int| 0 <= i < before.len() && before[i] == after[j];
                assert(before[i].path == p && before[i].removable);
                assert(removes(first, p));
                assert(!adds(first, p));
                assert(is_marked(after, p));
                assert(false);
            }
        }
    }
}

} // verus!
