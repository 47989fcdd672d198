use pymute::mutants::{Mutant, MutantStatus};
use pymute::runner::{
    classify, is_shown, oracle_command, record_outcome, record_outcomes, step, summarize, Action,
    Event, Mode, MutantResult, Outcome, OutputLevel, Phase, RunFailure, Runner, Stage, Summary,
};

#[test]
fn exit_status_decides_the_verdict() {
    assert_eq!(classify(Some(0)), MutantResult::Missed);
    assert_eq!(classify(Some(1)), MutantResult::Caught);
    assert_eq!(classify(Some(-1)), MutantResult::Caught);
    assert_eq!(classify(Some(5)), MutantResult::Caught);
    assert_eq!(classify(None), MutantResult::Caught);
}

fn drive(mode: Mode, events: &[Event]) -> (Vec<Action>, Stage) {
    let mut stage = Stage::Pending;
    let mut actions = Vec::new();
    for event in events {
        let next = step(mode, stage, *event);
        stage = next.stage;
        actions.push(next.action);
    }
    (actions, stage)
}

fn run_with_exit(mode: Mode, code: i32) -> Stage {
    let events = match mode {
        Mode::Isolated => vec![
            Event::Start,
            Event::Succeeded,
            Event::Succeeded,
            Event::Exited(Some(code)),
            Event::Succeeded,
        ],
        Mode::InPlace => {
            vec![Event::Start, Event::Succeeded, Event::Exited(Some(code)), Event::Succeeded]
        }
    };
    drive(mode, &events).1
}

#[test]
fn off_by_one_in_range_missed_or_caught() {
    let off_by_one = Mutant::new("loop.py", 1, "1", "2", "for i in range(10):");
    assert_eq!(
        off_by_one.insert("for i in range(10):\n    pass\n").unwrap(),
        "for i in range(20):\n    pass\n"
    );
    for mode in [Mode::Isolated, Mode::InPlace] {
        // no test asserts the bound: the oracle passes
        assert_eq!(run_with_exit(mode, 0), Stage::Done(Outcome::Verdict(MutantResult::Missed)));
        // a test asserts the bound: the oracle fails
        assert_eq!(run_with_exit(mode, 1), Stage::Done(Outcome::Verdict(MutantResult::Caught)));
    }
    let missed = record_outcome(&off_by_one, Outcome::Verdict(MutantResult::Missed));
    assert_eq!(missed.status, MutantStatus::Missed);
    let caught = record_outcome(&off_by_one, Outcome::Verdict(MutantResult::Caught));
    assert_eq!(caught.status, MutantStatus::Caught);
}

#[test]
fn isolated_run_copies_patches_tests_and_discards() {
    let (actions, stage) = drive(
        Mode::Isolated,
        &[Event::Start, Event::Succeeded, Event::Succeeded, Event::Exited(Some(0)), Event::Succeeded],
    );
    let missed = Outcome::Verdict(MutantResult::Missed);
    assert_eq!(
        actions,
        vec![
            Action::CopyTree,
            Action::ApplyInCopy,
            Action::RunOracle,
            Action::DiscardCopy,
            Action::Report(missed),
        ]
    );
    assert_eq!(stage, Stage::Done(missed));
    let first = step(Mode::Isolated, Stage::Pending, Event::Start);
    assert_eq!(first.notice, Some(Phase::Started));
    let last = step(Mode::Isolated, Stage::Discarding(missed), Event::Succeeded);
    assert_eq!(last.notice, Some(Phase::Classified(missed)));
    assert_eq!(step(Mode::Isolated, Stage::Copying, Event::Succeeded).notice, None);
}

#[test]
fn in_place_run_patches_tests_and_reverts() {
    let (actions, stage) =
        drive(Mode::InPlace, &[Event::Start, Event::Succeeded, Event::Exited(Some(3)), Event::Succeeded]);
    let caught = Outcome::Verdict(MutantResult::Caught);
    assert_eq!(
        actions,
        vec![Action::ApplyInPlace, Action::RunOracle, Action::Revert, Action::Report(caught)]
    );
    assert_eq!(stage, Stage::Done(caught));
}

#[test]
fn failures_are_kept_apart_from_verdicts_and_still_clean_up() {
    let (actions, stage) = drive(Mode::Isolated, &[Event::Start, Event::Failed, Event::Succeeded]);
    assert_eq!(actions[1], Action::DiscardCopy);
    assert_eq!(stage, Stage::Done(Outcome::Failed(RunFailure::Copy)));

    let (actions, stage) =
        drive(Mode::Isolated, &[Event::Start, Event::Succeeded, Event::Failed, Event::Succeeded]);
    assert_eq!(actions[2], Action::DiscardCopy);
    assert_eq!(stage, Stage::Done(Outcome::Failed(RunFailure::Patch)));

    let (actions, stage) = drive(
        Mode::Isolated,
        &[Event::Start, Event::Succeeded, Event::Succeeded, Event::Failed, Event::Succeeded],
    );
    assert_eq!(actions[3], Action::DiscardCopy);
    assert_eq!(stage, Stage::Done(Outcome::Failed(RunFailure::Spawn)));

    let (_, stage) = drive(
        Mode::Isolated,
        &[Event::Start, Event::Succeeded, Event::Succeeded, Event::Exited(Some(0)), Event::Failed],
    );
    assert_eq!(stage, Stage::Done(Outcome::Failed(RunFailure::Cleanup)));

    let (actions, stage) = drive(Mode::InPlace, &[Event::Start, Event::Failed]);
    assert_eq!(actions[1], Action::Report(Outcome::Failed(RunFailure::Patch)));
    assert_eq!(stage, Stage::Done(Outcome::Failed(RunFailure::Patch)));

    let (actions, stage) =
        drive(Mode::InPlace, &[Event::Start, Event::Succeeded, Event::Failed, Event::Succeeded]);
    assert_eq!(actions[2], Action::Revert);
    assert_eq!(stage, Stage::Done(Outcome::Failed(RunFailure::Spawn)));

    let (_, stage) =
        drive(Mode::InPlace, &[Event::Start, Event::Succeeded, Event::Exited(Some(0)), Event::Failed]);
    assert_eq!(stage, Stage::Done(Outcome::Failed(RunFailure::Restore)));
}

#[test]
fn events_that_do_not_belong_are_ignored() {
    let next = step(Mode::Isolated, Stage::Pending, Event::Succeeded);
    assert_eq!(next.stage, Stage::Pending);
    assert_eq!(next.action, Action::Ignore);
    let done = Stage::Done(Outcome::Verdict(MutantResult::Caught));
    assert_eq!(step(Mode::InPlace, done, Event::Start).stage, done);
    assert_eq!(step(Mode::Isolated, Stage::Testing, Event::Start).action, Action::Ignore);
    assert_eq!(step(Mode::Isolated, Stage::Copying, Event::Exited(Some(0))).action, Action::Ignore);
}

#[test]
fn oracle_commands() {
    let pytest = oracle_command(Runner::Pytest, "tests/", &None, None, OutputLevel::Missed);
    assert_eq!(pytest.program, "python");
    assert_eq!(pytest.arguments, vec!["-B", "-m", "pytest", "tests/", "-x"]);
    assert!(pytest.silent);

    let env = Some("py311".to_string());
    let parallel = oracle_command(Runner::Pytest, ".", &env, Some(4), OutputLevel::Process);
    assert_eq!(parallel.arguments, vec!["-B", "-m", "pytest", ".", "-x", "-n 4"]);
    assert!(!parallel.silent);

    let tox = oracle_command(Runner::Tox, "tests/", &env, Some(4), OutputLevel::Caught);
    assert_eq!(tox.program, "tox");
    assert_eq!(tox.arguments, vec!["-e py311"]);
    assert!(tox.silent);

    let tox_default = oracle_command(Runner::Tox, "tests/", &None, None, OutputLevel::Process);
    assert_eq!(tox_default.program, "tox");
    assert!(tox_default.arguments.is_empty());
}

#[test]
fn what_is_shown_at_each_level() {
    let caught = Outcome::Verdict(MutantResult::Caught);
    let missed = Outcome::Verdict(MutantResult::Missed);
    let failed = Outcome::Failed(RunFailure::Spawn);
    for level in [OutputLevel::Missed, OutputLevel::Caught, OutputLevel::Process] {
        assert!(is_shown(level, missed));
        assert!(is_shown(level, failed));
    }
    assert!(!is_shown(OutputLevel::Missed, caught));
    assert!(is_shown(OutputLevel::Caught, caught));
    assert!(is_shown(OutputLevel::Process, caught));
}

#[test]
fn outcomes_are_recorded_and_counted() {
    let mut known = Mutant::new("a.py", 1, " + ", " - ", "a + b");
    known.status = MutantStatus::Caught;
    let mutants = vec![
        Mutant::new("a.py", 2, " + ", " - ", "a + b"),
        Mutant::new("a.py", 3, " + ", " - ", "a + b"),
        known,
        Mutant::new("a.py", 4, " + ", " - ", "a + b"),
    ];
    let outcomes = vec![
        Outcome::Verdict(MutantResult::Missed),
        Outcome::Verdict(MutantResult::Caught),
        Outcome::Failed(RunFailure::Spawn),
    ];
    let after = record_outcomes(&mutants, &outcomes);
    let statuses: Vec<MutantStatus> = after.iter().map(|m| m.status).collect();
    assert_eq!(
        statuses,
        vec![MutantStatus::Missed, MutantStatus::Caught, MutantStatus::Caught, MutantStatus::NotRun]
    );
    for (before, now) in mutants.iter().zip(after.iter()) {
        assert_eq!(before.line_number, now.line_number);
        assert_eq!(before.original_line, now.original_line);
    }
    assert_eq!(summarize(&outcomes), Summary { caught: 1, missed: 1, errors: 1 });
    assert_eq!(summarize(&Vec::new()), Summary { caught: 0, missed: 0, errors: 0 });
}
