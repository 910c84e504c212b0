use std::collections::HashMap;

use sdkman_cli_native::switch::{
    failure_message, Action, Event, Failure, PathNames, RemovalKind, Slot, SwitchPlan,
};

/// A file system of named entries, with switches to make actions fail.
struct Fs {
    entries: HashMap<Slot, String>,
    link_made_but_lost: bool,
    fail_link: bool,
    fail_remove_previous: bool,
    warnings: Vec<String>,
}

impl Fs {
    fn new() -> Fs {
        Fs {
            entries: HashMap::new(),
            link_made_but_lost: false,
            fail_link: false,
            fail_remove_previous: false,
            warnings: Vec::new(),
        }
    }

    fn perform(&mut self, action: &Action) -> Event {
        match action {
            Action::Probe(slot) => Event::Present(self.entries.contains_key(slot)),
            Action::LinkVersion => {
                if self.fail_link {
                    return Event::Failed("Operation not permitted".into());
                }
                if !self.link_made_but_lost {
                    self.entries.insert(Slot::Next, "link".into());
                }
                Event::Done
            }
            Action::CreateStaging => {
                self.entries.entry(Slot::Staging).or_insert_with(|| "dir".into());
                Event::Done
            }
            Action::CopyVersion => {
                self.entries.insert(Slot::Copied, "copy".into());
                Event::Done
            }
            Action::WriteMarker => Event::Done,
            Action::Inspect(slot) => {
                if self.entries.contains_key(slot) {
                    Event::Kind(RemovalKind::Directory)
                } else {
                    Event::Failed("No such file or directory".into())
                }
            }
            Action::RemoveLink(slot) | Action::RemoveFile(slot) | Action::RemoveTree(slot) => {
                if *slot == Slot::Previous && self.fail_remove_previous {
                    return Event::Failed("Permission denied".into());
                }
                self.entries.remove(slot);
                if *slot == Slot::Staging {
                    self.entries.remove(&Slot::Copied);
                }
                Event::Done
            }
            Action::Rename(from, to) => match self.entries.remove(from) {
                Some(content) => {
                    self.entries.insert(*to, content);
                    Event::Done
                }
                None => Event::Failed("No such file or directory".into()),
            },
            Action::RemoveStaging => {
                self.entries.remove(&Slot::Staging);
                Event::Done
            }
            Action::Warn(f) => {
                self.warnings.push(failure_message(f, &names()));
                Event::Done
            }
            Action::Finish(_) => unreachable!(),
        }
    }
}

fn names() -> PathNames {
    PathNames {
        version: "/s/candidates/scala/0.0.2".into(),
        next: "/s/candidates/scala/current-new".into(),
        current: "/s/candidates/scala/current".into(),
        previous: "/s/candidates/scala/current-old".into(),
        staging: "/s/tmp/current-scala".into(),
        copied: "/s/tmp/current-scala/0.0.2".into(),
    }
}

/// Runs a switch to its end and returns its outcome, with failures as text.
fn run(fs: &mut Fs) -> Result<bool, String> {
    let mut plan = SwitchPlan::new();
    let mut steps = 0;
    while !plan.is_finished() {
        let event = fs.perform(&plan.action());
        assert!(plan.accepts(&event));
        plan = plan.advance(event);
        steps += 1;
        assert!(steps <= 20);
    }
    match plan.action() {
        Action::Finish(Ok(copied)) => Ok(copied),
        Action::Finish(Err(f)) => Err(failure_message(&f, &names())),
        _ => unreachable!(),
    }
}

#[test]
fn restores_current_when_installing_the_replacement_fails() {
    let mut fs = Fs::new();
    fs.entries.insert(Slot::Current, "old".into());
    fs.link_made_but_lost = true;
    let outcome = run(&mut fs);
    assert!(outcome.is_err());
    assert_eq!(fs.entries.get(&Slot::Current).map(String::as_str), Some("old"));
    assert!(!fs.entries.contains_key(&Slot::Previous));
}

#[test]
fn restores_a_stale_previous_before_replacing_current() {
    let mut fs = Fs::new();
    fs.entries.insert(Slot::Previous, "old".into());
    fs.link_made_but_lost = true;
    let outcome = run(&mut fs);
    assert_eq!(
        outcome,
        Err("cannot install current: No such file or directory".to_owned())
    );
    assert_eq!(fs.entries.get(&Slot::Current).map(String::as_str), Some("old"));
    assert!(!fs.entries.contains_key(&Slot::Previous));
}

#[test]
fn sets_same_or_other_installed_version_as_default() {
    let mut fs = Fs::new();
    fs.entries.insert(Slot::Current, "old".into());
    assert_eq!(run(&mut fs), Ok(false));
    assert_eq!(fs.entries.get(&Slot::Current).map(String::as_str), Some("link"));
    assert!(!fs.entries.contains_key(&Slot::Next));
    assert!(!fs.entries.contains_key(&Slot::Previous));
    assert!(fs.warnings.is_empty());
}

#[test]
fn falls_back_to_a_copy_when_no_link_can_be_made() {
    let mut fs = Fs::new();
    fs.fail_link = true;
    fs.entries.insert(Slot::Staging, "stale".into());
    assert_eq!(run(&mut fs), Ok(true));
    assert_eq!(fs.entries.get(&Slot::Current).map(String::as_str), Some("copy"));
    assert!(!fs.entries.contains_key(&Slot::Staging));
    assert!(!fs.entries.contains_key(&Slot::Next));
}

#[test]
fn recovers_from_a_stale_backup() {
    let mut fs = Fs::new();
    fs.entries.insert(Slot::Current, "old".into());
    fs.entries.insert(Slot::Previous, "stale".into());
    assert_eq!(run(&mut fs), Ok(false));
    assert_eq!(fs.entries.get(&Slot::Current).map(String::as_str), Some("link"));
    assert!(!fs.entries.contains_key(&Slot::Previous));
    assert!(!fs.entries.contains_key(&Slot::Next));
}

#[test]
fn refuses_when_a_replacement_already_exists() {
    let mut fs = Fs::new();
    fs.entries.insert(Slot::Current, "old".into());
    fs.entries.insert(Slot::Next, "leftover".into());
    assert_eq!(
        run(&mut fs),
        Err("cannot prepare replacement: /s/candidates/scala/current-new already exists".to_owned())
    );
    assert_eq!(fs.entries.get(&Slot::Current).map(String::as_str), Some("old"));
}

#[test]
fn warns_when_the_old_current_cannot_be_removed() {
    let mut fs = Fs::new();
    fs.entries.insert(Slot::Current, "old".into());
    fs.fail_remove_previous = true;
    assert_eq!(run(&mut fs), Ok(false));
    assert_eq!(fs.entries.get(&Slot::Current).map(String::as_str), Some("link"));
    assert_eq!(
        fs.warnings,
        vec!["cannot remove /s/candidates/scala/current-old: Permission denied".to_owned()]
    );
    // The old current is left as current-old only because a warning was printed.
    assert_eq!(fs.entries.get(&Slot::Previous).map(String::as_str), Some("old"));
}

#[test]
fn failing_to_restore_a_stale_backup_keeps_it_aside() {
    let mut fs = Fs::new();
    fs.entries.insert(Slot::Previous, "old".into());
    // Moving the stale current-old back to current fails.
    let mut plan = SwitchPlan::new();
    let mut failure = None;
    while !plan.is_finished() {
        let action = plan.action();
        let event = match &action {
            Action::Rename(Slot::Previous, Slot::Current) => Event::Failed("Busy".into()),
            other => fs.perform(other),
        };
        plan = plan.advance(event);
        if let Action::Finish(Err(f)) = plan.action() {
            failure = Some(failure_message(&f, &names()));
        }
    }
    assert_eq!(failure, Some("cannot restore current: Busy".to_owned()));
    assert!(!fs.entries.contains_key(&Slot::Current));
    assert_eq!(fs.entries.get(&Slot::Previous).map(String::as_str), Some("old"));
}

#[test]
fn renders_every_failure() {
    let n = names();
    assert_eq!(
        failure_message(&Failure::Rollback("a".into(), "b".into()), &n),
        "cannot install current: a; rollback failed: b"
    );
    assert_eq!(
        failure_message(&Failure::Inspect(Slot::Staging, "e".into()), &n),
        "cannot inspect /s/tmp/current-scala: e"
    );
    assert_eq!(
        failure_message(&Failure::CreateStaging("e".into()), &n),
        "cannot create temporary current directory: e"
    );
    assert_eq!(
        failure_message(&Failure::Copy("e".into()), &n),
        "cannot copy to temporary current directory: e"
    );
    assert_eq!(
        failure_message(&Failure::WriteMarker("e".into()), &n),
        "cannot write current version marker: e"
    );
    assert_eq!(
        failure_message(&Failure::PrepareRename("e".into()), &n),
        "cannot prepare replacement: e"
    );
    assert_eq!(
        failure_message(&Failure::RemoveStaging("e".into()), &n),
        "cannot remove temporary current directory: e"
    );
    assert_eq!(failure_message(&Failure::Restore("e".into()), &n), "cannot restore current: e");
    assert_eq!(failure_message(&Failure::Preserve("e".into()), &n), "cannot preserve current: e");
}
