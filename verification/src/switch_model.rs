//! A model of the file system that a switch works on, and what every run of
//! the switch does to it: a switch that succeeds leaves the new version as
//! `current` and no `current-new` behind; a switch that fails never loses the
//! version that was current and never leaves the new one as `current`.
use vstd::prelude::*;

use crate::switch::{
    answers, pending, plan_step, rank, Action, AfterRemoval, Event, Failure, Phase, RemovalKind, Slot,
    SwitchPlan,
};

verus! {

/// What an entry of the model holds.
pub enum Content {
    /// An entry that was there before the switch, told apart by a number.
    Existing(int),
    /// The symbolic link to the version that the switch makes.
    Link,
    /// The copy of the version that the switch makes.
    Copy,
    /// The temporary directory that the switch creates.
    Directory,
}

/// The entries that a switch touches (`None` where nothing is), and whether
/// a warning has been printed.
pub struct FsModel {
    pub current: Option<Content>,
    pub next: Option<Content>,
    pub previous: Option<Content>,
    pub staging: Option<Content>,
    pub copied: Option<Content>,
    pub warned: bool,
}

/// What the model holds at `slot`; the version directory is always there.
pub open spec fn at(m: FsModel, slot: Slot) -> Option<Content> {
    match slot {
        Slot::Current => m.current,
        Slot::Next => m.next,
        Slot::Previous => m.previous,
        Slot::Staging => m.staging,
        Slot::Copied => m.copied,
        Slot::Version => Some(Content::Directory),
    }
}

/// The model with `c` at `slot`; removing the temporary directory removes
/// the copy inside it too.
pub open spec fn with(m: FsModel, slot: Slot, c: Option<Content>) -> FsModel {
    match slot {
        Slot::Current => FsModel { current: c, ..m },
        Slot::Next => FsModel { next: c, ..m },
        Slot::Previous => FsModel { previous: c, ..m },
        Slot::Staging => FsModel { staging: c, copied: if c is None { None } else { m.copied }, ..m },
        Slot::Copied => FsModel { copied: c, ..m },
        Slot::Version => m,
    }
}

/// Whether `event` is an outcome that the model allows for `action`: a probe
/// tells the truth; an inspection that succeeds finds an entry; a rename
/// that succeeds moves an existing entry to a free place; a removal that
/// succeeds removed an entry; anything may fail.
pub open spec fn possible(m: FsModel, action: Action, event: Event) -> bool {
    match action {
        Action::Probe(slot) => event == Event::Present(at(m, slot) is Some),
        Action::Inspect(slot) => event is Failed || (event is Kind && at(m, slot) is Some),
        Action::Rename(from, to) => event is Failed || (event is Done && at(m, from) is Some && at(
            m,
            to,
        ) is None),
        Action::RemoveLink(slot) | Action::RemoveFile(slot) | Action::RemoveTree(slot) => event
            is Failed || (event is Done && at(m, slot) is Some),
        Action::LinkVersion => event is Failed || (event is Done && m.next is None),
        Action::Warn(_) => event is Done,
        Action::Finish(_) => false,
        _ => event is Failed || event is Done,
    }
}

/// The model after `action` ended with `event`: a failed action changes
/// nothing.
pub open spec fn effect(m: FsModel, action: Action, event: Event) -> FsModel {
    if !(event is Done) {
        m
    } else {
        match action {
            Action::LinkVersion => FsModel { next: Some(Content::Link), ..m },
            Action::CreateStaging => if m.staging is None {
                FsModel { staging: Some(Content::Directory), ..m }
            } else {
                m
            },
            Action::CopyVersion => FsModel { copied: Some(Content::Copy), ..m },
            Action::Rename(from, to) => with(with(m, to, at(m, from)), from, None),
            Action::RemoveLink(slot) | Action::RemoveFile(slot) | Action::RemoveTree(slot) => with(
                m,
                slot,
                None,
            ),
            Action::RemoveStaging => FsModel { staging: None, copied: None, ..m },
            Action::Warn(_) => FsModel { warned: true, ..m },
            _ => m,
        }
    }
}

/// The switch and the model after the program answered the pending actions
/// with `events` in turn, stopping when the switch is over.
pub open spec fn run(plan: SwitchPlan, m: FsModel, events: Seq<Event>) -> (SwitchPlan, FsModel)
    decreases events.len(),
{
    if events.len() == 0 || plan.phase is Finished {
        (plan, m)
    } else {
        let e = events[0];
        run(plan_step(plan, e), effect(m, pending(plan.phase), e), events.drop_first())
    }
}

/// Every event of the run answers the pending action and is an outcome that
/// the model allows.
pub open spec fn faithful(plan: SwitchPlan, m: FsModel, events: Seq<Event>) -> bool
    decreases events.len(),
{
    if events.len() == 0 || plan.phase is Finished {
        true
    } else {
        let e = events[0];
        let a = pending(plan.phase);
        &&& answers(plan.phase, e)
        &&& possible(m, a, e)
        &&& faithful(plan_step(plan, e), effect(m, a, e), events.drop_first())
    }
}

/// The entry holds nothing, or something that was there before the switch.
pub open spec fn is_preexisting(c: Option<Content>) -> bool {
    c is None || c matches Some(Content::Existing(_))
}

/// Before the switch, `current` and `current-old` hold nothing that the
/// switch makes.
pub open spec fn initial_model(m: FsModel) -> bool {
    is_preexisting(m.current) && is_preexisting(m.previous) && !m.warned
}

/// The failure happened while the replacement was prepared, before
/// `current` or `current-old` were touched.
pub open spec fn is_preparation_failure(f: Failure) -> bool {
    match f {
        Failure::NextExists | Failure::CreateStaging(_) | Failure::Copy(_) | Failure::WriteMarker(_)
        | Failure::PrepareRename(_) | Failure::RemoveStaging(_) => true,
        Failure::Inspect(slot, _) | Failure::Remove(slot, _) => slot == Slot::Staging,
        _ => false,
    }
}

/// What a failure leaves of `current` and `current-old`: a failure while
/// preparing leaves both as they were; a failure while replacing leaves the
/// version in effect as `current`, unless moving a stale `current-old` back
/// failed, or moving the old `current` back after a failed install failed;
/// and a failed install (with its rollback done) or a failed move aside
/// leaves no `current-old`.
pub open spec fn failure_leaves(f: Failure, m: FsModel, m0: FsModel) -> bool {
    &&& old_kept(m, m0)
    &&& is_preparation_failure(f) ==> untouched(m, m0)
    &&& !is_preparation_failure(f) && !(f is Restore) && !(f is Rollback) ==> m.current
        == old_version(m0)
    &&& (f is Install || f is Preserve) ==> m.previous is None
}

/// The version in effect before the switch: `current`, or a stale
/// `current-old` where `current` is missing.
pub open spec fn old_version(m0: FsModel) -> Option<Content> {
    if m0.current is Some {
        m0.current
    } else {
        m0.previous
    }
}

/// What the switch puts in place of `current`.
pub open spec fn new_version(copied: bool) -> Option<Content> {
    if copied {
        Some(Content::Copy)
    } else {
        Some(Content::Link)
    }
}

/// The version in effect before the switch is still there, as `current` or
/// as `current-old`, and `current` holds it or nothing.
pub open spec fn old_kept(m: FsModel, m0: FsModel) -> bool {
    &&& m.current == old_version(m0) || m.current is None
    &&& m.current == old_version(m0) || m.previous == old_version(m0)
}

/// `current` and `current-old` are as they were before the switch.
pub open spec fn untouched(m: FsModel, m0: FsModel) -> bool {
    m.current == m0.current && m.previous == m0.previous
}

/// The entry that a removal step works on.
pub open spec fn removal_slot(after: AfterRemoval) -> Slot {
    match after {
        AfterRemoval::Staging => Slot::Staging,
        AfterRemoval::StalePrevious => Slot::Previous,
        AfterRemoval::OldPrevious => Slot::Previous,
        AfterRemoval::Cleanup(_) => Slot::Next,
    }
}

/// What holds of the model while an entry is removed.
pub open spec fn removal_inv(after: AfterRemoval, copied: bool, m: FsModel, m0: FsModel) -> bool {
    match after {
        AfterRemoval::Staging => untouched(m, m0) && m.next is None,
        AfterRemoval::StalePrevious => untouched(m, m0) && m0.current is Some && m.next
            == new_version(copied),
        AfterRemoval::OldPrevious => m.current == new_version(copied) && m.next is None
            && m.previous is Some,
        AfterRemoval::Cleanup(f) => failure_leaves(f, m, m0),
    }
}

/// What holds of the model at each step of the switch.
pub open spec fn inv(plan: SwitchPlan, m: FsModel, m0: FsModel) -> bool {
    let k = new_version(plan.copied);
    let old = old_version(m0);
    match plan.phase {
        Phase::ProbeNext => untouched(m, m0),
        Phase::Link | Phase::ProbeStaging | Phase::CreateStaging | Phase::Copy => untouched(m, m0)
            && m.next is None,
        Phase::WriteMarker | Phase::MoveCopy => untouched(m, m0) && m.next is None && m.copied
            == Some(Content::Copy),
        Phase::RemoveStaging => untouched(m, m0) && m.next == Some(Content::Copy),
        Phase::ProbePrevious => untouched(m, m0) && m.next == k,
        Phase::ProbeCurrentBesidePrevious => untouched(m, m0) && m.next == k && m.previous is Some,
        Phase::Restore => untouched(m, m0) && m.next == k && m.current is None && m.previous is Some,
        Phase::ProbeCurrent => m.current == old && m.previous is None && m.next == k,
        Phase::Install => m.current is None && old is None && m.previous is None && m.next == k,
        Phase::Preserve => m.current == old && old is Some && m.previous is None && m.next == k,
        Phase::Swap => m.current is None && m.previous == old && old is Some && m.next == k,
        Phase::Rollback(_) => m.current is None && m.previous == old && old is Some && m.next == k,
        Phase::RemoveInspect(slot, after) => slot == removal_slot(after) && removal_inv(
            after,
            plan.copied,
            m,
            m0,
        ),
        Phase::RemoveDo(slot, _, after) => slot == removal_slot(after) && removal_inv(
            after,
            plan.copied,
            m,
            m0,
        ),
        Phase::Warning(_) => m.current == k && m.next is None,
        Phase::Finished(Ok(c)) => m.current == new_version(c) && m.next is None && (m.previous is None
            || m.warned),
        Phase::Finished(Err(f)) => failure_leaves(f, m, m0),
    }
}

proof fn lemma_untouched_kept(m: FsModel, m0: FsModel)
    requires
        untouched(m, m0),
    ensures
        old_kept(m, m0),
{
}

/// One answered step keeps what holds of the model.
proof fn lemma_inv_step(plan: SwitchPlan, m: FsModel, m0: FsModel, e: Event)
    requires
        initial_model(m0),
        inv(plan, m, m0),
        answers(plan.phase, e),
        possible(m, pending(plan.phase), e),
    ensures
        inv(plan_step(plan, e), effect(m, pending(plan.phase), e), m0),
{
    let a = pending(plan.phase);
    let m1 = effect(m, a, e);
    let p1 = plan_step(plan, e);
    match plan.phase {
        Phase::RemoveInspect(slot, after) => {
            if e is Failed {
                if after is Staging {
                    lemma_untouched_kept(m1, m0);
                }
            }
        },
        Phase::RemoveDo(slot, _, after) => {
            if after is Staging {
                lemma_untouched_kept(m1, m0);
            }
        },
        _ => {
            if p1.phase is Finished {
                if untouched(m1, m0) {
                    lemma_untouched_kept(m1, m0);
                }
            }
        },
    }
}

/// What holds of the model holds after every run of the switch.
proof fn lemma_inv_run(plan: SwitchPlan, m: FsModel, m0: FsModel, events: Seq<Event>)
    requires
        initial_model(m0),
        inv(plan, m, m0),
        faithful(plan, m, events),
    ensures
        inv(run(plan, m, events).0, run(plan, m, events).1, m0),
    decreases events.len(),
{
    if events.len() > 0 && !(plan.phase is Finished) {
        let e = events[0];
        lemma_inv_step(plan, m, m0, e);
        lemma_inv_run(plan_step(plan, e), effect(m, pending(plan.phase), e), m0, events.drop_first());
    }
}

/// The switch as it starts.
pub open spec fn start() -> SwitchPlan {
    SwitchPlan { phase: Phase::ProbeNext, copied: false }
}

/// A switch that succeeds leaves the new version as `current`, a link to
/// the version's directory or, where no link could be made, a copy of it;
/// leaves no `current-new` behind; and leaves no `current-old` either,
/// unless it printed a warning. A switch that fails never loses the version
/// that was in effect (`current`, or a stale `current-old` where `current`
/// was missing): it is still `current` or `current-old`, `current` holds it
/// or nothing, and never the new version. A failure while the replacement
/// was prepared leaves `current` and `current-old` as they were; a failure
/// while replacing leaves the version in effect as `current`, unless moving
/// a stale `current-old` back failed, or moving the old `current` back after
/// a failed install failed; after a failed install whose rollback succeeded,
/// or a failed move aside, no `current-old` is left. This holds for every run in which the file
/// system behaves like the model, whatever fails.
pub proof fn lemma_switch_outcome(m0: FsModel, events: Seq<Event>)
    requires
        initial_model(m0),
        faithful(start(), m0, events),
    ensures
        ({
            let (p, m) = run(start(), m0, events);
            p.phase matches Phase::Finished(Ok(copied)) ==> {
                &&& m.current == new_version(copied)
                &&& m.next is None
                &&& m.previous is None || m.warned
            }
        }),
        ({
            let (p, m) = run(start(), m0, events);
            p.phase matches Phase::Finished(Err(f)) ==> {
                &&& old_kept(m, m0)
                &&& m.current != new_version(true)
                &&& m.current != new_version(false)
                &&& is_preparation_failure(f) ==> untouched(m, m0)
                &&& !is_preparation_failure(f) && !(f is Restore) && !(f is Rollback) ==> m.current
                    == old_version(m0)
                &&& (f is Install || f is Preserve) ==> m.previous is None
            }
        }),
{
    lemma_inv_run(start(), m0, m0, events);
}

proof fn lemma_run_finishes(plan: SwitchPlan, m: FsModel, events: Seq<Event>)
    requires
        faithful(plan, m, events),
        events.len() >= rank(plan.phase),
    ensures
        run(plan, m, events).0.phase is Finished,
    decreases events.len(),
{
    if events.len() > 0 && !(plan.phase is Finished) {
        let e = events[0];
        crate::switch::lemma_step_decreases_rank(plan, e);
        lemma_run_finishes(plan_step(plan, e), effect(m, pending(plan.phase), e), events.drop_first());
    } else if !(plan.phase is Finished) {
        assert(rank(plan.phase) > 0);
    }
}

/// A switch is over after at most twenty answered actions, whatever they
/// report.
pub proof fn lemma_switch_ends(m0: FsModel, events: Seq<Event>)
    requires
        faithful(start(), m0, events),
        events.len() >= 20,
    ensures
        run(start(), m0, events).0.phase is Finished,
{
    lemma_run_finishes(start(), m0, events);
}


/// Removing an entry: once inspected, a symbolic link is removed as a link
/// (never followed), a file as a file, a directory with all it holds; and a
/// removal that succeeds leaves nothing at the entry while every other entry
/// of the switch keeps what it held (the copy inside the temporary directory
/// goes with it). The version's own directory is never an entry to remove.
pub proof fn lemma_removal(slot: Slot, kind: RemovalKind, after: AfterRemoval, copied: bool, m: FsModel)
    requires
        slot != Slot::Version,
    ensures
        pending(
            plan_step(
                SwitchPlan { phase: Phase::RemoveInspect(slot, after), copied },
                Event::Kind(kind),
            ).phase,
        ) == (match kind {
            RemovalKind::Symlink => Action::RemoveLink(slot),
            RemovalKind::File => Action::RemoveFile(slot),
            RemovalKind::Directory => Action::RemoveTree(slot),
        }),
        ({
            let m1 = effect(m, pending(Phase::RemoveDo(slot, kind, after)), Event::Done);
            &&& at(m1, slot) is None
            &&& forall|other: Slot|
                other != slot && !(slot == Slot::Staging && other == Slot::Copied) ==> #[trigger] at(
                    m1,
                    other,
                ) == at(m, other)
        }),
{
}

} // verus!
