//! How `default` makes a version the current one: the decisions of the
//! switch as a state machine. The program performs each action on the file
//! system and hands back what happened; the machine says what to do next.
use vstd::prelude::*;

verus! {

/// The paths that the switch works on.
#[derive(Debug, Clone, Copy, PartialEq, Eq, Hash)]
pub enum Slot {
    /// The directory of the version to make current.
    Version,
    /// `current-new`: the replacement, prepared beside `current`.
    Next,
    /// `current`: the entry that names the current version.
    Current,
    /// `current-old`: where the old `current` waits until the switch is done.
    Previous,
    /// The temporary directory where a copy is prepared.
    Staging,
    /// The copy of the version inside the temporary directory.
    Copied,
}

/// What an entry is, as far as removing it goes.
#[derive(Debug, Clone, Copy, PartialEq, Eq)]
pub enum RemovalKind {
    Symlink,
    File,
    Directory,
}

/// Why a switch failed; the text is what the file system reported.
pub enum Failure {
    /// `current-new` is already there.
    NextExists,
    /// The entry to remove could not be inspected.
    Inspect(Slot, String),
    /// The entry could not be removed.
    Remove(Slot, String),
    /// The temporary directory could not be created.
    CreateStaging(String),
    /// The version could not be copied into the temporary directory.
    Copy(String),
    /// The version marker could not be written into the copy.
    WriteMarker(String),
    /// The copy could not be moved to `current-new`.
    PrepareRename(String),
    /// The temporary directory could not be removed.
    RemoveStaging(String),
    /// A stale `current-old` could not be moved back to `current`.
    Restore(String),
    /// `current-new` could not be moved to `current`.
    Install(String),
    /// `current` could not be moved aside to `current-old`.
    Preserve(String),
    /// `current-new` could not be moved to `current`, and moving `current-old`
    /// back failed too.
    Rollback(String, String),
}

/// What the program is asked to do next.
pub enum Action {
    /// Tell whether anything is at the slot.
    Probe(Slot),
    /// Make `current-new` a symbolic link to the version's directory.
    LinkVersion,
    /// Create the temporary directory, with its parents.
    CreateStaging,
    /// Copy the version's directory into the temporary directory.
    CopyVersion,
    /// Write the version marker into the copy.
    WriteMarker,
    /// Tell what the entry at the slot is, to remove it.
    Inspect(Slot),
    /// Remove the symbolic link at the slot.
    RemoveLink(Slot),
    /// Remove the file at the slot.
    RemoveFile(Slot),
    /// Remove the directory at the slot with all it holds.
    RemoveTree(Slot),
    /// Rename the first slot to the second.
    Rename(Slot, Slot),
    /// Remove the (now empty) temporary directory.
    RemoveStaging,
    /// Print a warning about the failure, then go on.
    Warn(Failure),
    /// Stop: the switch is done, or failed. `Ok(true)` says that the version
    /// was copied because no symbolic link could be made.
    Finish(Result<bool, Failure>),
}

/// What happened when the program performed the action.
pub enum Event {
    /// Whether something is at the probed slot.
    Present(bool),
    /// What the inspected entry is.
    Kind(RemovalKind),
    /// The action succeeded.
    Done,
    /// The action failed, with what the file system reported.
    Failed(String),
}

/// What to do once an entry has been removed, or could not be.
pub enum AfterRemoval {
    /// A stale temporary directory is gone: create it afresh.
    Staging,
    /// A stale `current-old` beside a `current` is gone: go on switching.
    StalePrevious,
    /// The old `current`, moved aside, is gone: the switch is done.
    OldPrevious,
    /// `current-new` is cleaned up after the switch failed with this failure.
    Cleanup(Failure),
}

/// The step the switch is at.
pub enum Phase {
    ProbeNext,
    Link,
    ProbeStaging,
    CreateStaging,
    Copy,
    WriteMarker,
    MoveCopy,
    RemoveStaging,
    ProbePrevious,
    ProbeCurrentBesidePrevious,
    Restore,
    ProbeCurrent,
    Install,
    Preserve,
    Swap,
    Rollback(String),
    RemoveInspect(Slot, AfterRemoval),
    RemoveDo(Slot, RemovalKind, AfterRemoval),
    Warning(Failure),
    Finished(Result<bool, Failure>),
}

/// The state of a switch: its step, and whether the replacement is a copy.
pub struct SwitchPlan {
    pub phase: Phase,
    pub copied: bool,
}

/// The action that the switch waits on in a step.
pub open spec fn pending(phase: Phase) -> Action {
    match phase {
        Phase::ProbeNext => Action::Probe(Slot::Next),
        Phase::Link => Action::LinkVersion,
        Phase::ProbeStaging => Action::Probe(Slot::Staging),
        Phase::CreateStaging => Action::CreateStaging,
        Phase::Copy => Action::CopyVersion,
        Phase::WriteMarker => Action::WriteMarker,
        Phase::MoveCopy => Action::Rename(Slot::Copied, Slot::Next),
        Phase::RemoveStaging => Action::RemoveStaging,
        Phase::ProbePrevious => Action::Probe(Slot::Previous),
        Phase::ProbeCurrentBesidePrevious => Action::Probe(Slot::Current),
        Phase::Restore => Action::Rename(Slot::Previous, Slot::Current),
        Phase::ProbeCurrent => Action::Probe(Slot::Current),
        Phase::Install => Action::Rename(Slot::Next, Slot::Current),
        Phase::Preserve => Action::Rename(Slot::Current, Slot::Previous),
        Phase::Swap => Action::Rename(Slot::Next, Slot::Current),
        Phase::Rollback(_) => Action::Rename(Slot::Previous, Slot::Current),
        Phase::RemoveInspect(slot, _) => Action::Inspect(slot),
        Phase::RemoveDo(slot, kind, _) => match kind {
            RemovalKind::Symlink => Action::RemoveLink(slot),
            RemovalKind::File => Action::RemoveFile(slot),
            RemovalKind::Directory => Action::RemoveTree(slot),
        },
        Phase::Warning(f) => Action::Warn(f),
        Phase::Finished(r) => Action::Finish(r),
    }
}

/// Whether `event` answers the action of `phase`: a probe is answered by
/// presence, an inspection by a kind or a failure, a warning by anything,
/// the end by nothing, every other action by success or failure.
pub open spec fn answers(phase: Phase, event: Event) -> bool {
    match phase {
        Phase::ProbeNext | Phase::ProbeStaging | Phase::ProbePrevious
        | Phase::ProbeCurrentBesidePrevious | Phase::ProbeCurrent => event is Present,
        Phase::RemoveInspect(_, _) => event is Kind || event is Failed,
        Phase::Warning(_) => true,
        Phase::Finished(_) => false,
        _ => event is Done || event is Failed,
    }
}

/// Removing `current-new` after the switch failed with `f`.
pub open spec fn cleanup(f: Failure) -> Phase {
    Phase::RemoveInspect(Slot::Next, AfterRemoval::Cleanup(f))
}

/// Where a removal leads when it succeeded.
pub open spec fn removal_done(after: AfterRemoval, copied: bool) -> Phase {
    match after {
        AfterRemoval::Staging => Phase::CreateStaging,
        AfterRemoval::StalePrevious => Phase::ProbeCurrent,
        AfterRemoval::OldPrevious => Phase::Finished(Ok(copied)),
        AfterRemoval::Cleanup(f) => Phase::Finished(Err(f)),
    }
}

/// Where a removal leads when it failed with `f`.
pub open spec fn removal_failed(after: AfterRemoval, f: Failure) -> Phase {
    match after {
        AfterRemoval::Staging => Phase::Finished(Err(f)),
        AfterRemoval::StalePrevious => cleanup(f),
        AfterRemoval::OldPrevious => Phase::Warning(f),
        AfterRemoval::Cleanup(first) => Phase::Finished(Err(first)),
    }
}

/// The next step of the switch at `phase` when the pending action ended with
/// `event`.
pub open spec fn next_phase(phase: Phase, copied: bool, event: Event) -> Phase {
    match (phase, event) {
        (Phase::ProbeNext, Event::Present(true)) => Phase::Finished(Err(Failure::NextExists)),
        (Phase::ProbeNext, _) => Phase::Link,
        (Phase::Link, Event::Done) => Phase::ProbePrevious,
        (Phase::Link, _) => Phase::ProbeStaging,
        (Phase::ProbeStaging, Event::Present(true)) => Phase::RemoveInspect(
            Slot::Staging,
            AfterRemoval::Staging,
        ),
        (Phase::ProbeStaging, _) => Phase::CreateStaging,
        (Phase::CreateStaging, Event::Failed(e)) => Phase::Finished(Err(Failure::CreateStaging(e))),
        (Phase::CreateStaging, _) => Phase::Copy,
        (Phase::Copy, Event::Failed(e)) => Phase::Finished(Err(Failure::Copy(e))),
        (Phase::Copy, _) => Phase::WriteMarker,
        (Phase::WriteMarker, Event::Failed(e)) => Phase::Finished(Err(Failure::WriteMarker(e))),
        (Phase::WriteMarker, _) => Phase::MoveCopy,
        (Phase::MoveCopy, Event::Failed(e)) => Phase::Finished(Err(Failure::PrepareRename(e))),
        (Phase::MoveCopy, _) => Phase::RemoveStaging,
        (Phase::RemoveStaging, Event::Failed(e)) => Phase::Finished(Err(Failure::RemoveStaging(e))),
        (Phase::RemoveStaging, _) => Phase::ProbePrevious,
        (Phase::ProbePrevious, Event::Present(true)) => Phase::ProbeCurrentBesidePrevious,
        (Phase::ProbePrevious, _) => Phase::ProbeCurrent,
        (Phase::ProbeCurrentBesidePrevious, Event::Present(true)) => Phase::RemoveInspect(
            Slot::Previous,
            AfterRemoval::StalePrevious,
        ),
        (Phase::ProbeCurrentBesidePrevious, _) => Phase::Restore,
        (Phase::Restore, Event::Failed(e)) => cleanup(Failure::Restore(e)),
        (Phase::Restore, _) => Phase::ProbeCurrent,
        (Phase::ProbeCurrent, Event::Present(true)) => Phase::Preserve,
        (Phase::ProbeCurrent, _) => Phase::Install,
        (Phase::Install, Event::Failed(e)) => cleanup(Failure::Install(e)),
        (Phase::Install, _) => Phase::Finished(Ok(copied)),
        (Phase::Preserve, Event::Failed(e)) => cleanup(Failure::Preserve(e)),
        (Phase::Preserve, _) => Phase::Swap,
        (Phase::Swap, Event::Failed(e)) => Phase::Rollback(e),
        (Phase::Swap, _) => Phase::RemoveInspect(Slot::Previous, AfterRemoval::OldPrevious),
        (Phase::Rollback(e), Event::Failed(rb)) => cleanup(Failure::Rollback(e, rb)),
        (Phase::Rollback(e), _) => cleanup(Failure::Install(e)),
        (Phase::RemoveInspect(slot, after), Event::Kind(kind)) => Phase::RemoveDo(slot, kind, after),
        (Phase::RemoveInspect(slot, after), Event::Failed(e)) => removal_failed(
            after,
            Failure::Inspect(slot, e),
        ),
        (Phase::RemoveDo(slot, _, after), Event::Failed(e)) => removal_failed(
            after,
            Failure::Remove(slot, e),
        ),
        (Phase::RemoveDo(_, _, after), _) => removal_done(after, copied),
        (Phase::Warning(_), _) => Phase::Finished(Ok(copied)),
        _ => phase,
    }
}

/// Whether the replacement is a copy after the step at `phase` ended with
/// `event`: a link made settles it as no copy, a finished copy as a copy.
pub open spec fn next_copied(phase: Phase, copied: bool, event: Event) -> bool {
    match (phase, event) {
        (Phase::Link, Event::Done) => false,
        (Phase::RemoveStaging, Event::Done) => true,
        _ => copied,
    }
}

/// The state after `event` answered the pending action of `plan`.
pub open spec fn plan_step(plan: SwitchPlan, event: Event) -> SwitchPlan {
    SwitchPlan {
        phase: next_phase(plan.phase, plan.copied, event),
        copied: next_copied(plan.phase, plan.copied, event),
    }
}

/// How many steps a switch can still take at most from `phase`.
pub open spec fn rank(phase: Phase) -> nat {
    match phase {
        Phase::Finished(_) => 0,
        Phase::Warning(_) => 1,
        Phase::RemoveDo(_, _, after) => removal_rank(after),
        Phase::RemoveInspect(_, after) => removal_rank(after) + 1,
        Phase::Rollback(_) => 3,
        Phase::Install => 3,
        Phase::Swap => 4,
        Phase::Preserve => 5,
        Phase::ProbeCurrent => 6,
        Phase::Restore => 7,
        Phase::ProbeCurrentBesidePrevious => 9,
        Phase::ProbePrevious => 10,
        Phase::RemoveStaging => 11,
        Phase::MoveCopy => 12,
        Phase::WriteMarker => 13,
        Phase::Copy => 14,
        Phase::CreateStaging => 15,
        Phase::ProbeStaging => 18,
        Phase::Link => 19,
        Phase::ProbeNext => 20,
    }
}

/// How many steps a removal can still take at most, by what follows it.
pub open spec fn removal_rank(after: AfterRemoval) -> nat {
    match after {
        AfterRemoval::Cleanup(_) => 1,
        AfterRemoval::OldPrevious => 2,
        AfterRemoval::StalePrevious => 7,
        AfterRemoval::Staging => 16,
    }
}

/// Every step that answers the pending action brings the switch closer to
/// its end: a switch ends within twenty steps, whatever happens.
pub proof fn lemma_step_decreases_rank(plan: SwitchPlan, event: Event)
    requires
        answers(plan.phase, event),
    ensures
        rank(plan_step(plan, event).phase) < rank(plan.phase),
        rank(plan.phase) <= 20,
{
}


fn clone_string(s: &String) -> (r: String)
    ensures
        r == *s,
{
    s.clone()
}

fn clone_failure(f: &Failure) -> (r: Failure)
    ensures
        r == *f,
{
    match f {
        Failure::NextExists => Failure::NextExists,
        Failure::Inspect(slot, e) => Failure::Inspect(*slot, clone_string(e)),
        Failure::Remove(slot, e) => Failure::Remove(*slot, clone_string(e)),
        Failure::CreateStaging(e) => Failure::CreateStaging(clone_string(e)),
        Failure::Copy(e) => Failure::Copy(clone_string(e)),
        Failure::WriteMarker(e) => Failure::WriteMarker(clone_string(e)),
        Failure::PrepareRename(e) => Failure::PrepareRename(clone_string(e)),
        Failure::RemoveStaging(e) => Failure::RemoveStaging(clone_string(e)),
        Failure::Restore(e) => Failure::Restore(clone_string(e)),
        Failure::Install(e) => Failure::Install(clone_string(e)),
        Failure::Preserve(e) => Failure::Preserve(clone_string(e)),
        Failure::Rollback(e, rb) => Failure::Rollback(clone_string(e), clone_string(rb)),
    }
}

fn exec_removal_done(after: AfterRemoval, copied: bool) -> (p: Phase)
    ensures
        p == removal_done(after, copied),
{
    match after {
        AfterRemoval::Staging => Phase::CreateStaging,
        AfterRemoval::StalePrevious => Phase::ProbeCurrent,
        AfterRemoval::OldPrevious => Phase::Finished(Ok(copied)),
        AfterRemoval::Cleanup(f) => Phase::Finished(Err(f)),
    }
}

fn exec_removal_failed(after: AfterRemoval, f: Failure) -> (p: Phase)
    ensures
        p == removal_failed(after, f),
{
    match after {
        AfterRemoval::Staging => Phase::Finished(Err(f)),
        AfterRemoval::StalePrevious => Phase::RemoveInspect(Slot::Next, AfterRemoval::Cleanup(f)),
        AfterRemoval::OldPrevious => Phase::Warning(f),
        AfterRemoval::Cleanup(first) => Phase::Finished(Err(first)),
    }
}

impl SwitchPlan {
    /// A switch that has not started.
    pub fn new() -> (plan: SwitchPlan)
        ensures
            plan.phase == Phase::ProbeNext,
            !plan.copied,
    {
        SwitchPlan { phase: Phase::ProbeNext, copied: false }
    }

    /// Whether the switch is over.
    pub fn is_finished(&self) -> (r: bool)
        ensures
            r == (self.phase is Finished),
    {
        match self.phase {
            Phase::Finished(_) => true,
            _ => false,
        }
    }

    /// Whether `event` answers the pending action.
    pub fn accepts(&self, event: &Event) -> (r: bool)
        ensures
            r == answers(self.phase, *event),
    {
        match (&self.phase, event) {
            (Phase::ProbeNext, Event::Present(_)) => true,
            (Phase::ProbeStaging, Event::Present(_)) => true,
            (Phase::ProbePrevious, Event::Present(_)) => true,
            (Phase::ProbeCurrentBesidePrevious, Event::Present(_)) => true,
            (Phase::ProbeCurrent, Event::Present(_)) => true,
            (Phase::ProbeNext, _) => false,
            (Phase::ProbeStaging, _) => false,
            (Phase::ProbePrevious, _) => false,
            (Phase::ProbeCurrentBesidePrevious, _) => false,
            (Phase::ProbeCurrent, _) => false,
            (Phase::RemoveInspect(_, _), Event::Kind(_)) => true,
            (Phase::RemoveInspect(_, _), Event::Failed(_)) => true,
            (Phase::RemoveInspect(_, _), _) => false,
            (Phase::Warning(_), _) => true,
            (Phase::Finished(_), _) => false,
            (_, Event::Done) => true,
            (_, Event::Failed(_)) => true,
            (_, _) => false,
        }
    }

    /// The action that the switch waits on.
    pub fn action(&self) -> (a: Action)
        ensures
            a == pending(self.phase),
    {
        match &self.phase {
            Phase::ProbeNext => Action::Probe(Slot::Next),
            Phase::Link => Action::LinkVersion,
            Phase::ProbeStaging => Action::Probe(Slot::Staging),
            Phase::CreateStaging => Action::CreateStaging,
            Phase::Copy => Action::CopyVersion,
            Phase::WriteMarker => Action::WriteMarker,
            Phase::MoveCopy => Action::Rename(Slot::Copied, Slot::Next),
            Phase::RemoveStaging => Action::RemoveStaging,
            Phase::ProbePrevious => Action::Probe(Slot::Previous),
            Phase::ProbeCurrentBesidePrevious => Action::Probe(Slot::Current),
            Phase::Restore => Action::Rename(Slot::Previous, Slot::Current),
            Phase::ProbeCurrent => Action::Probe(Slot::Current),
            Phase::Install => Action::Rename(Slot::Next, Slot::Current),
            Phase::Preserve => Action::Rename(Slot::Current, Slot::Previous),
            Phase::Swap => Action::Rename(Slot::Next, Slot::Current),
            Phase::Rollback(_) => Action::Rename(Slot::Previous, Slot::Current),
            Phase::RemoveInspect(slot, _) => Action::Inspect(*slot),
            Phase::RemoveDo(slot, kind, _) => match kind {
                RemovalKind::Symlink => Action::RemoveLink(*slot),
                RemovalKind::File => Action::RemoveFile(*slot),
                RemovalKind::Directory => Action::RemoveTree(*slot),
            },
            Phase::Warning(f) => Action::Warn(clone_failure(f)),
            Phase::Finished(r) => match r {
                Ok(c) => Action::Finish(Ok(*c)),
                Err(f) => Action::Finish(Err(clone_failure(f))),
            },
        }
    }

    /// The switch after `event` answered the pending action.
    pub fn advance(self, event: Event) -> (next: SwitchPlan)
        requires
            answers(self.phase, event),
        ensures
            next == plan_step(self, event),
    {
        let copied = self.copied;
        match (self.phase, event) {
            (Phase::ProbeNext, Event::Present(true)) => SwitchPlan {
                phase: Phase::Finished(Err(Failure::NextExists)),
                copied,
            },
            (Phase::ProbeNext, _) => SwitchPlan { phase: Phase::Link, copied },
            (Phase::Link, Event::Done) => SwitchPlan { phase: Phase::ProbePrevious, copied: false },
            (Phase::Link, _) => SwitchPlan { phase: Phase::ProbeStaging, copied },
            (Phase::ProbeStaging, Event::Present(true)) => SwitchPlan {
                phase: Phase::RemoveInspect(Slot::Staging, AfterRemoval::Staging),
                copied,
            },
            (Phase::ProbeStaging, _) => SwitchPlan { phase: Phase::CreateStaging, copied },
            (Phase::CreateStaging, Event::Failed(e)) => SwitchPlan {
                phase: Phase::Finished(Err(Failure::CreateStaging(e))),
                copied,
            },
            (Phase::CreateStaging, _) => SwitchPlan { phase: Phase::Copy, copied },
            (Phase::Copy, Event::Failed(e)) => SwitchPlan {
                phase: Phase::Finished(Err(Failure::Copy(e))),
                copied,
            },
            (Phase::Copy, _) => SwitchPlan { phase: Phase::WriteMarker, copied },
            (Phase::WriteMarker, Event::Failed(e)) => SwitchPlan {
                phase: Phase::Finished(Err(Failure::WriteMarker(e))),
                copied,
            },
            (Phase::WriteMarker, _) => SwitchPlan { phase: Phase::MoveCopy, copied },
            (Phase::MoveCopy, Event::Failed(e)) => SwitchPlan {
                phase: Phase::Finished(Err(Failure::PrepareRename(e))),
                copied,
            },
            (Phase::MoveCopy, _) => SwitchPlan { phase: Phase::RemoveStaging, copied },
            (Phase::RemoveStaging, Event::Failed(e)) => SwitchPlan {
                phase: Phase::Finished(Err(Failure::RemoveStaging(e))),
                copied,
            },
            (Phase::RemoveStaging, _) => SwitchPlan { phase: Phase::ProbePrevious, copied: true },
            (Phase::ProbePrevious, Event::Present(true)) => SwitchPlan {
                phase: Phase::ProbeCurrentBesidePrevious,
                copied,
            },
            (Phase::ProbePrevious, _) => SwitchPlan { phase: Phase::ProbeCurrent, copied },
            (Phase::ProbeCurrentBesidePrevious, Event::Present(true)) => SwitchPlan {
                phase: Phase::RemoveInspect(Slot::Previous, AfterRemoval::StalePrevious),
                copied,
            },
            (Phase::ProbeCurrentBesidePrevious, _) => SwitchPlan { phase: Phase::Restore, copied },
            (Phase::Restore, Event::Failed(e)) => SwitchPlan {
                phase: Phase::RemoveInspect(
                    Slot::Next,
                    AfterRemoval::Cleanup(Failure::Restore(e)),
                ),
                copied,
            },
            (Phase::Restore, _) => SwitchPlan { phase: Phase::ProbeCurrent, copied },
            (Phase::ProbeCurrent, Event::Present(true)) => SwitchPlan {
                phase: Phase::Preserve,
                copied,
            },
            (Phase::ProbeCurrent, _) => SwitchPlan { phase: Phase::Install, copied },
            (Phase::Install, Event::Failed(e)) => SwitchPlan {
                phase: Phase::RemoveInspect(
                    Slot::Next,
                    AfterRemoval::Cleanup(Failure::Install(e)),
                ),
                copied,
            },
            (Phase::Install, _) => SwitchPlan { phase: Phase::Finished(Ok(copied)), copied },
            (Phase::Preserve, Event::Failed(e)) => SwitchPlan {
                phase: Phase::RemoveInspect(
                    Slot::Next,
                    AfterRemoval::Cleanup(Failure::Preserve(e)),
                ),
                copied,
            },
            (Phase::Preserve, _) => SwitchPlan { phase: Phase::Swap, copied },
            (Phase::Swap, Event::Failed(e)) => SwitchPlan { phase: Phase::Rollback(e), copied },
            (Phase::Swap, _) => SwitchPlan {
                phase: Phase::RemoveInspect(Slot::Previous, AfterRemoval::OldPrevious),
                copied,
            },
            (Phase::Rollback(e), Event::Failed(rb)) => SwitchPlan {
                phase: Phase::RemoveInspect(
                    Slot::Next,
                    AfterRemoval::Cleanup(Failure::Rollback(e, rb)),
                ),
                copied,
            },
            (Phase::Rollback(e), _) => SwitchPlan {
                phase: Phase::RemoveInspect(
                    Slot::Next,
                    AfterRemoval::Cleanup(Failure::Install(e)),
                ),
                copied,
            },
            (Phase::RemoveInspect(slot, after), Event::Kind(kind)) => SwitchPlan {
                phase: Phase::RemoveDo(slot, kind, after),
                copied,
            },
            (Phase::RemoveInspect(slot, after), Event::Failed(e)) => SwitchPlan {
                phase: exec_removal_failed(after, Failure::Inspect(slot, e)),
                copied,
            },
            (Phase::RemoveDo(slot, _, after), Event::Failed(e)) => SwitchPlan {
                phase: exec_removal_failed(after, Failure::Remove(slot, e)),
                copied,
            },
            (Phase::RemoveDo(_, _, after), _) => SwitchPlan {
                phase: exec_removal_done(after, copied),
                copied,
            },
            (Phase::Warning(_), _) => SwitchPlan { phase: Phase::Finished(Ok(copied)), copied },
            (phase, _) => SwitchPlan { phase, copied },
        }
    }
}


/// How the paths of the switch are shown in messages.
pub struct PathNames {
    pub version: String,
    pub next: String,
    pub current: String,
    pub previous: String,
    pub staging: String,
    pub copied: String,
}

/// How the path of `slot` is shown.
pub open spec fn slot_name(names: PathNames, slot: Slot) -> Seq<char> {
    match slot {
        Slot::Version => names.version@,
        Slot::Next => names.next@,
        Slot::Current => names.current@,
        Slot::Previous => names.previous@,
        Slot::Staging => names.staging@,
        Slot::Copied => names.copied@,
    }
}

/// The message that reports a failure.
pub open spec fn failure_text(f: Failure, names: PathNames) -> Seq<char> {
    match f {
        Failure::NextExists => "cannot prepare replacement: "@ + names.next@ + " already exists"@,
        Failure::Inspect(slot, e) => "cannot inspect "@ + slot_name(names, slot) + ": "@ + e@,
        Failure::Remove(slot, e) => "cannot remove "@ + slot_name(names, slot) + ": "@ + e@,
        Failure::CreateStaging(e) => "cannot create temporary current directory: "@ + e@,
        Failure::Copy(e) => "cannot copy to temporary current directory: "@ + e@,
        Failure::WriteMarker(e) => "cannot write current version marker: "@ + e@,
        Failure::PrepareRename(e) => "cannot prepare replacement: "@ + e@,
        Failure::RemoveStaging(e) => "cannot remove temporary current directory: "@ + e@,
        Failure::Restore(e) => "cannot restore current: "@ + e@,
        Failure::Install(e) => "cannot install current: "@ + e@,
        Failure::Preserve(e) => "cannot preserve current: "@ + e@,
        Failure::Rollback(e, rb) => "cannot install current: "@ + e@ + "; rollback failed: "@ + rb@,
    }
}

fn name_of<'a>(names: &'a PathNames, slot: Slot) -> (r: &'a str)
    ensures
        r@ == slot_name(*names, slot),
{
    match slot {
        Slot::Version => names.version.as_str(),
        Slot::Next => names.next.as_str(),
        Slot::Current => names.current.as_str(),
        Slot::Previous => names.previous.as_str(),
        Slot::Staging => names.staging.as_str(),
        Slot::Copied => names.copied.as_str(),
    }
}

/// The message that reports `f`, naming paths as `names` shows them.
pub fn failure_message(f: &Failure, names: &PathNames) -> (r: String)
    ensures
        r@ == failure_text(*f, *names),
{
    let mut r = String::new();
    match f {
        Failure::NextExists => {
            r.append("cannot prepare replacement: ");
            r.append(names.next.as_str());
            r.append(" already exists");
        },
        Failure::Inspect(slot, e) => {
            r.append("cannot inspect ");
            r.append(name_of(names, *slot));
            r.append(": ");
            r.append(e.as_str());
        },
        Failure::Remove(slot, e) => {
            r.append("cannot remove ");
            r.append(name_of(names, *slot));
            r.append(": ");
            r.append(e.as_str());
        },
        Failure::CreateStaging(e) => {
            r.append("cannot create temporary current directory: ");
            r.append(e.as_str());
        },
        Failure::Copy(e) => {
            r.append("cannot copy to temporary current directory: ");
            r.append(e.as_str());
        },
        Failure::WriteMarker(e) => {
            r.append("cannot write current version marker: ");
            r.append(e.as_str());
        },
        Failure::PrepareRename(e) => {
            r.append("cannot prepare replacement: ");
            r.append(e.as_str());
        },
        Failure::RemoveStaging(e) => {
            r.append("cannot remove temporary current directory: ");
            r.append(e.as_str());
        },
        Failure::Restore(e) => {
            r.append("cannot restore current: ");
            r.append(e.as_str());
        },
        Failure::Install(e) => {
            r.append("cannot install current: ");
            r.append(e.as_str());
        },
        Failure::Preserve(e) => {
            r.append("cannot preserve current: ");
            r.append(e.as_str());
        },
        Failure::Rollback(e, rb) => {
            r.append("cannot install current: ");
            r.append(e.as_str());
            r.append("; rollback failed: ");
            r.append(rb.as_str());
        },
    }
    r
}

} // verus!
