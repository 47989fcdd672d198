//! The execution engine's decisions: the command of the test oracle, the
//! verdict that its exit status gives, the steps of running one mutant in
//! an isolated copy or in place, and the summary of a batch.

use crate::decimal::{decimal, format_decimal};
use crate::mutants::{Mutant, MutantStatus, MutantView};
use vstd::prelude::*;

verus! {

/// The test runner that serves as the oracle.
#[derive(Debug, Copy, Clone, PartialEq, Eq, Structural, PartialOrd, Ord)]
pub enum Runner {
    /// Run with Pytest: a test path is selected and the run stops at the
    /// first failure.
    Pytest,
    /// Run with Tox: a named environment is selected.
    Tox,
}

/// How much is shown while mutants are run.
#[derive(Debug, Copy, Clone, PartialEq, Eq, Structural, PartialOrd, Ord)]
pub enum OutputLevel {
    /// Only the mutants that the tests missed.
    Missed,
    /// Also the mutants that the tests caught.
    Caught,
    /// Also the output of the oracle's processes.
    Process,
}

/// Where a mutant is run.
#[derive(Debug, Copy, Clone, PartialEq, Eq, Structural)]
pub enum Mode {
    /// In a disposable copy of the project tree.
    Isolated,
    /// In the project tree itself, with a revert afterwards.
    InPlace,
}

/// The verdict of the oracle on one mutant.
#[derive(Debug, Copy, Clone, PartialEq, Eq, Structural)]
pub enum MutantResult {
    /// The oracle failed: the tests detected the fault.
    Caught,
    /// The oracle passed: the fault went undetected.
    Missed,
}

/// What kept a mutant from getting a verdict.
#[derive(Debug, Copy, Clone, PartialEq, Eq, Structural)]
pub enum RunFailure {
    /// The project tree could not be copied.
    Copy,
    /// The mutant could not be patched in.
    Patch,
    /// The oracle could not be started.
    Spawn,
    /// The mutant could not be reverted.
    Restore,
    /// The copy could not be deleted.
    Cleanup,
}

/// How the run of one mutant ended.
#[derive(Debug, Copy, Clone, PartialEq, Eq, Structural)]
pub enum Outcome {
    /// The oracle gave a verdict.
    Verdict(MutantResult),
    /// The run failed before a verdict.
    Failed(RunFailure),
}

/// Where the run of one mutant stands.
#[derive(Debug, Copy, Clone, PartialEq, Eq, Structural)]
pub enum Stage {
    /// Nothing has been done yet.
    Pending,
    /// The project tree is being copied.
    Copying,
    /// The mutant is being patched in.
    Patching,
    /// The oracle is running.
    Testing,
    /// The mutant is being reverted; the outcome is known.
    Restoring(Outcome),
    /// The copy is being deleted; the outcome is known.
    Discarding(Outcome),
    /// The run is over.
    Done(Outcome),
}

/// What happened to the action that the engine asked for.
#[derive(Debug, Copy, Clone, PartialEq, Eq, Structural)]
pub enum Event {
    /// The run of the mutant is to begin.
    Start,
    /// The action succeeded.
    Succeeded,
    /// The action failed.
    Failed,
    /// The oracle ran and exited; the code is absent where a signal ended
    /// it.
    Exited(Option<i32>),
}

/// What the engine asks its driver to do next.
#[derive(Debug, Copy, Clone, PartialEq, Eq, Structural)]
pub enum Action {
    /// Create a temporary directory and copy the project tree into it.
    CopyTree,
    /// Patch the mutant into the copy.
    ApplyInCopy,
    /// Patch the mutant into the project tree.
    ApplyInPlace,
    /// Run the oracle and report its exit status.
    RunOracle,
    /// Set the mutated line back in the project tree.
    Revert,
    /// Delete the copy.
    DiscardCopy,
    /// Report the outcome: the run is over.
    Report(Outcome),
    /// Nothing: the event does not belong to the stage.
    Ignore,
}

/// What the observer of a run is told.
#[derive(Debug, Copy, Clone, PartialEq, Eq, Structural)]
pub enum Phase {
    /// The run of the mutant has started.
    Started,
    /// The run of the mutant is over, with this outcome.
    Classified(Outcome),
}

/// One step of the engine: the stage it moves to, the action it asks for,
/// and what the observer is told, if anything.
#[derive(Debug, Copy, Clone, PartialEq, Eq, Structural)]
pub struct Step {
    pub stage: Stage,
    pub action: Action,
    pub notice: Option<Phase>,
}

/// The counts of a batch.
#[derive(Debug, Copy, Clone, PartialEq, Eq, Structural)]
pub struct Summary {
    pub caught: usize,
    pub missed: usize,
    pub errors: usize,
}

/// The command of the oracle.
#[derive(Debug, PartialEq, Eq)]
pub struct OracleCommand {
    /// The program to start.
    pub program: String,
    /// Its arguments, in order.
    pub arguments: Vec<String>,
    /// Whether its output is discarded.
    pub silent: bool,
}

/// The verdict that an exit status gives: exit code 0 means that the
/// tests passed, so the mutant was missed; anything else means that it
/// was caught.
pub open spec fn verdict(code: Option<i32>) -> MutantResult {
    if code == Some(0i32) {
        MutantResult::Missed
    } else {
        MutantResult::Caught
    }
}

/// The step that the engine takes in `stage` on `event`.
pub open spec fn next_step(mode: Mode, stage: Stage, event: Event) -> Step {
    match (stage, event) {
        (Stage::Pending, Event::Start) => match mode {
            Mode::Isolated => Step {
                stage: Stage::Copying,
                action: Action::CopyTree,
                notice: Some(Phase::Started),
            },
            Mode::InPlace => Step {
                stage: Stage::Patching,
                action: Action::ApplyInPlace,
                notice: Some(Phase::Started),
            },
        },
        (Stage::Copying, Event::Succeeded) => Step {
            stage: Stage::Patching,
            action: Action::ApplyInCopy,
            notice: None,
        },
        (Stage::Copying, Event::Failed) => leave(mode, Outcome::Failed(RunFailure::Copy)),
        (Stage::Patching, Event::Succeeded) => Step {
            stage: Stage::Testing,
            action: Action::RunOracle,
            notice: None,
        },
        (Stage::Patching, Event::Failed) => match mode {
            Mode::Isolated => leave(mode, Outcome::Failed(RunFailure::Patch)),
            Mode::InPlace => finish(Outcome::Failed(RunFailure::Patch)),
        },
        (Stage::Testing, Event::Exited(code)) => leave(mode, Outcome::Verdict(verdict(code))),
        (Stage::Testing, Event::Failed) => leave(mode, Outcome::Failed(RunFailure::Spawn)),
        (Stage::Restoring(outcome), Event::Succeeded) => finish(outcome),
        (Stage::Restoring(_), Event::Failed) => finish(Outcome::Failed(RunFailure::Restore)),
        (Stage::Discarding(outcome), Event::Succeeded) => finish(outcome),
        (Stage::Discarding(_), Event::Failed) => finish(Outcome::Failed(RunFailure::Cleanup)),
        _ => Step { stage, action: Action::Ignore, notice: None },
    }
}

/// The step that undoes what was done, with the outcome known: the copy
/// is deleted, or the mutant reverted.
pub open spec fn leave(mode: Mode, outcome: Outcome) -> Step {
    match mode {
        Mode::Isolated => Step {
            stage: Stage::Discarding(outcome),
            action: Action::DiscardCopy,
            notice: None,
        },
        Mode::InPlace => Step {
            stage: Stage::Restoring(outcome),
            action: Action::Revert,
            notice: None,
        },
    }
}

/// The last step: the outcome is reported.
pub open spec fn finish(outcome: Outcome) -> Step {
    Step {
        stage: Stage::Done(outcome),
        action: Action::Report(outcome),
        notice: Some(Phase::Classified(outcome)),
    }
}

/// The status that a mutant has after a run with `outcome`: the verdict,
/// or the status it had where the run failed.
pub open spec fn status_after(status: MutantStatus, outcome: Outcome) -> MutantStatus {
    match outcome {
        Outcome::Verdict(MutantResult::Caught) => MutantStatus::Caught,
        Outcome::Verdict(MutantResult::Missed) => MutantStatus::Missed,
        Outcome::Failed(_) => status,
    }
}

/// The mutants of a batch after the run: each with the status that the
/// outcome of the same position leaves it, or with its own where there
/// is no such outcome.
pub open spec fn recorded(mutants: Seq<MutantView>, outcomes: Seq<Outcome>) -> Seq<MutantView> {
    Seq::new(
        mutants.len(),
        |i: int|
            if i < outcomes.len() {
                mutants[i].with_status(status_after(mutants[i].status, outcomes[i]))
            } else {
                mutants[i]
            },
    )
}

/// Whether the outcome of a mutant is shown at `level`: a missed mutant
/// and a failed run always, a caught mutant above the lowest level.
pub open spec fn shown(level: OutputLevel, outcome: Outcome) -> bool {
    match outcome {
        Outcome::Verdict(MutantResult::Caught) => level != OutputLevel::Missed,
        _ => true,
    }
}

/// The number of the first `k` outcomes that are the verdict `wanted`.
pub open spec fn count_verdicts(outcomes: Seq<Outcome>, wanted: MutantResult, k: int) -> nat
    decreases k,
{
    if k <= 0 {
        0
    } else if outcomes[k - 1] == Outcome::Verdict(wanted) {
        count_verdicts(outcomes, wanted, k - 1) + 1
    } else {
        count_verdicts(outcomes, wanted, k - 1)
    }
}

/// The number of the first `k` outcomes that are failures.
pub open spec fn count_failures(outcomes: Seq<Outcome>, k: int) -> nat
    decreases k,
{
    if k <= 0 {
        0
    } else if outcomes[k - 1] is Failed {
        count_failures(outcomes, k - 1) + 1
    } else {
        count_failures(outcomes, k - 1)
    }
}

/// The program of a runner.
pub open spec fn oracle_program(runner: Runner) -> Seq<char> {
    match runner {
        Runner::Pytest => "python"@,
        Runner::Tox => "tox"@,
    }
}

/// The arguments of the oracle. Pytest is started as a module without
/// bytecode files, on the test path `tests`, to stop at the first
/// failure, and with `workers` parallel workers where that is set. Tox
/// gets the environment where one is set, and is left to its own choice
/// where none is.
pub open spec fn oracle_arguments(
    runner: Runner,
    tests: Seq<char>,
    environment: Option<Seq<char>>,
    workers: Option<usize>,
) -> Seq<Seq<char>> {
    match runner {
        Runner::Pytest => {
            let base = seq!["-B"@, "-m"@, "pytest"@, tests, "-x"@];
            match workers {
                Some(n) => base.push("-n "@ + decimal(n as nat)),
                None => base,
            }
        },
        Runner::Tox => match environment {
            Some(name) => seq!["-e "@ + name],
            None => Seq::empty(),
        },
    }
}

/// Whether a stage occurs in a mode: a run in a copy never reverts, and a
/// run in place never copies or deletes.
pub open spec fn belongs(mode: Mode, stage: Stage) -> bool {
    match mode {
        Mode::Isolated => !(stage is Restoring),
        Mode::InPlace => !(stage is Copying) && !(stage is Discarding),
    }
}

/// Every exit of the engine undoes what it did. The stages of a mode are
/// closed under its steps. In an isolated run the engine is done only
/// after it asked for the copy to be deleted, and once the copy was asked
/// for, each answer to an action leads to that deletion or one step
/// nearer to it. In a run in place, once the oracle was started, each
/// answer leads to the revert, and the engine is done only after a revert
/// or a patch that failed. A run that is over stays over.
pub proof fn lemma_every_exit_cleans_up(mode: Mode, stage: Stage, event: Event)
    requires
        belongs(mode, stage),
    ensures
        belongs(mode, next_step(mode, stage, event).stage),
        mode == Mode::Isolated && !(stage is Done) && next_step(mode, stage, event).stage is Done
            ==> stage is Discarding,
        mode == Mode::Isolated && (stage is Copying || stage is Patching || stage is Testing)
            && event is Failed ==> next_step(mode, stage, event).action == Action::DiscardCopy,
        mode == Mode::Isolated && stage is Testing && event is Exited ==> next_step(
            mode,
            stage,
            event,
        ).action == Action::DiscardCopy,
        mode == Mode::InPlace && stage is Testing && (event is Exited || event is Failed)
            ==> next_step(mode, stage, event).action == Action::Revert,
        mode == Mode::InPlace && !(stage is Done) && next_step(mode, stage, event).stage is Done
            ==> stage is Restoring || stage is Patching,
        stage is Done ==> next_step(mode, stage, event).stage == stage,
{
}

/// The exit status alone decides the verdict, in either mode and for
/// either runner: when the oracle exits with code 0 the outcome that the
/// engine carries on is a missed mutant, and with any other status a
/// caught one.
pub proof fn lemma_exit_status_decides(mode: Mode, code: Option<i32>)
    ensures
        code == Some(0i32) ==> leave(mode, Outcome::Verdict(MutantResult::Missed)) == next_step(
            mode,
            Stage::Testing,
            Event::Exited(code),
        ),
        code != Some(0i32) ==> leave(mode, Outcome::Verdict(MutantResult::Caught)) == next_step(
            mode,
            Stage::Testing,
            Event::Exited(code),
        ),
{
}

/// The verdict that the exit status of the oracle gives, whichever
/// runner it was: `Missed` for exit code 0, `Caught` for any other code
/// and for a process that a signal ended.
pub fn classify(code: Option<i32>) -> (r: MutantResult)
    ensures
        r == verdict(code),
        r == MutantResult::Missed <==> code == Some(0i32),
        r == MutantResult::Caught <==> code != Some(0i32),
{
    match code {
        Some(c) => if c == 0 {
            MutantResult::Missed
        } else {
            MutantResult::Caught
        },
        None => MutantResult::Caught,
    }
}

fn leave_step(mode: Mode, outcome: Outcome) -> (r: Step)
    ensures
        r == leave(mode, outcome),
{
    match mode {
        Mode::Isolated => Step {
            stage: Stage::Discarding(outcome),
            action: Action::DiscardCopy,
            notice: None,
        },
        Mode::InPlace => Step {
            stage: Stage::Restoring(outcome),
            action: Action::Revert,
            notice: None,
        },
    }
}

fn finish_step(outcome: Outcome) -> (r: Step)
    ensures
        r == finish(outcome),
{
    Step {
        stage: Stage::Done(outcome),
        action: Action::Report(outcome),
        notice: Some(Phase::Classified(outcome)),
    }
}

/// One step of the run of a mutant: from the stage and what happened to
/// the next stage, the action to perform, and the notice for the
/// observer.
pub fn step(mode: Mode, stage: Stage, event: Event) -> (r: Step)
    ensures
        r == next_step(mode, stage, event),
{
    match (stage, event) {
        (Stage::Pending, Event::Start) => match mode {
            Mode::Isolated => Step {
                stage: Stage::Copying,
                action: Action::CopyTree,
                notice: Some(Phase::Started),
            },
            Mode::InPlace => Step {
                stage: Stage::Patching,
                action: Action::ApplyInPlace,
                notice: Some(Phase::Started),
            },
        },
        (Stage::Copying, Event::Succeeded) => Step {
            stage: Stage::Patching,
            action: Action::ApplyInCopy,
            notice: None,
        },
        (Stage::Copying, Event::Failed) => leave_step(mode, Outcome::Failed(RunFailure::Copy)),
        (Stage::Patching, Event::Succeeded) => Step {
            stage: Stage::Testing,
            action: Action::RunOracle,
            notice: None,
        },
        (Stage::Patching, Event::Failed) => match mode {
            Mode::Isolated => leave_step(mode, Outcome::Failed(RunFailure::Patch)),
            Mode::InPlace => finish_step(Outcome::Failed(RunFailure::Patch)),
        },
        (Stage::Testing, Event::Exited(code)) => leave_step(
            mode,
            Outcome::Verdict(classify(code)),
        ),
        (Stage::Testing, Event::Failed) => leave_step(mode, Outcome::Failed(RunFailure::Spawn)),
        (Stage::Restoring(outcome), Event::Succeeded) => finish_step(outcome),
        (Stage::Restoring(_), Event::Failed) => finish_step(
            Outcome::Failed(RunFailure::Restore),
        ),
        (Stage::Discarding(outcome), Event::Succeeded) => finish_step(outcome),
        (Stage::Discarding(_), Event::Failed) => finish_step(
            Outcome::Failed(RunFailure::Cleanup),
        ),
        _ => Step { stage, action: Action::Ignore, notice: None },
    }
}

/// Whether the outcome of a mutant is shown at `level`.
pub fn is_shown(level: OutputLevel, outcome: Outcome) -> (r: bool)
    ensures
        r == shown(level, outcome),
{
    match outcome {
        Outcome::Verdict(MutantResult::Caught) => match level {
            OutputLevel::Missed => false,
            _ => true,
        },
        _ => true,
    }
}

/// The mutant with the status that a run with `outcome` leaves it.
pub fn record_outcome(mutant: &Mutant, outcome: Outcome) -> (r: Mutant)
    ensures
        r@ == mutant@.with_status(status_after(mutant@.status, outcome)),
{
    let mut r = mutant.clone();
    match outcome {
        Outcome::Verdict(MutantResult::Caught) => {
            r.status = MutantStatus::Caught;
        },
        Outcome::Verdict(MutantResult::Missed) => {
            r.status = MutantStatus::Missed;
        },
        Outcome::Failed(_) => {},
    }
    r
}

/// The mutants of a batch with their statuses after the run: mutant `i`
/// gets the status that outcome `i` leaves it, and keeps its own where
/// the batch has no outcome for it. Identities and order stay.
pub fn record_outcomes(mutants: &Vec<Mutant>, outcomes: &Vec<Outcome>) -> (r: Vec<Mutant>)
    ensures
        r.deep_view() == recorded(mutants.deep_view(), outcomes@),
{
    let mut r: Vec<Mutant> = Vec::new();
    let mut k: usize = 0;
    while k < mutants.len()
        invariant
            k <= mutants.len(),
            r.deep_view() == recorded(mutants.deep_view(), outcomes@).subrange(0, k as int),
        decreases mutants.len() - k,
    {
        let ghost prior = r.deep_view();
        let entry = if k < outcomes.len() {
            record_outcome(&mutants[k], outcomes[k])
        } else {
            mutants[k].clone()
        };
        r.push(entry);
        assert(r.deep_view() =~= prior.push(entry@));
        k += 1;
    }
    r
}

/// The summary of a batch: how many mutants were caught, how many were
/// missed, and how many runs failed.
pub fn summarize(outcomes: &Vec<Outcome>) -> (r: Summary)
    ensures
        r.caught == count_verdicts(outcomes@, MutantResult::Caught, outcomes.len() as int),
        r.missed == count_verdicts(outcomes@, MutantResult::Missed, outcomes.len() as int),
        r.errors == count_failures(outcomes@, outcomes.len() as int),
        r.caught + r.missed + r.errors == outcomes.len(),
{
    let mut caught: usize = 0;
    let mut missed: usize = 0;
    let mut errors: usize = 0;
    let mut k: usize = 0;
    while k < outcomes.len()
        invariant
            k <= outcomes.len(),
            caught == count_verdicts(outcomes@, MutantResult::Caught, k as int),
            missed == count_verdicts(outcomes@, MutantResult::Missed, k as int),
            errors == count_failures(outcomes@, k as int),
            caught + missed + errors == k,
        decreases outcomes.len() - k,
    {
        match outcomes[k] {
            Outcome::Verdict(MutantResult::Caught) => {
                caught += 1;
            },
            Outcome::Verdict(MutantResult::Missed) => {
                missed += 1;
            },
            Outcome::Failed(_) => {
                errors += 1;
            },
        }
        k += 1;
    }
    Summary { caught, missed, errors }
}

/// The command that runs the oracle.
pub fn oracle_command(
    runner: Runner,
    tests: &str,
    environment: &Option<String>,
    workers: Option<usize>,
    output_level: OutputLevel,
) -> (r: OracleCommand)
    ensures
        r.program@ == oracle_program(runner),
        r.arguments.deep_view() == oracle_arguments(runner, tests@, environment.deep_view(), workers),
        r.silent == (output_level != OutputLevel::Process),
{
    let mut arguments: Vec<String> = Vec::new();
    let program = match runner {
        Runner::Pytest => {
            arguments.push(String::from_str("-B"));
            arguments.push(String::from_str("-m"));
            arguments.push(String::from_str("pytest"));
            arguments.push(String::from_str(tests));
            arguments.push(String::from_str("-x"));
            match workers {
                Some(n) => {
                    let mut flag = String::from_str("-n ");
                    flag.append(format_decimal(n).as_str());
                    arguments.push(flag);
                },
                None => {},
            }
            String::from_str("python")
        },
        Runner::Tox => {
            match environment {
                Some(name) => {
                    let mut flag = String::from_str("-e ");
                    flag.append(name.as_str());
                    arguments.push(flag);
                },
                None => {},
            }
            String::from_str("tox")
        },
    };
    let silent = match output_level {
        OutputLevel::Process => false,
        _ => true,
    };
    OracleCommand { program, arguments, silent }
}

} // verus!
