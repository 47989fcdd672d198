//! The orchestration of a run: from the arguments, the matched files and
//! the cached results to the mutants to run, and from their outcomes to
//! the new cache and the summary.

use crate::cache::{
    cache_records, csv_records, lemma_merge_distinct, merge, merge_all, mutants_of,
    read_csv_cache, records_text, write_csv_cache,
};
use crate::decimal::{decimal, format_decimal};
use crate::mutants::{
    directory_prefix, distinct_identities, identities, with_separator, Identity, Mutant,
    MutantView,
};
use crate::rules::{active_rules, MutationType};
use crate::runner::{
    count_failures, count_verdicts, record_outcomes, recorded, summarize, MutantResult, Outcome,
    OutputLevel, Runner, Summary,
};
use crate::sample::{select_mutants, subsample};
use crate::scanner::{
    distinct_paths, find_mutants, glob_pattern_valid, lemma_discovery_distinct, scan_files,
    SourceFile, SourceFileView,
};
use vstd::prelude::*;

verus! {

/// The arguments of a run.
#[derive(Debug, PartialEq, Eq)]
pub struct Arguments {
    /// The root of the project.
    pub root: String,
    /// Glob expression, relative to the root, of the modules to mutate.
    pub modules: String,
    /// The tests to run, as a path relative to the root.
    pub tests: String,
    /// The number of workers that run mutants in parallel.
    pub num_threads: usize,
    /// How much is shown.
    pub output_level: OutputLevel,
    /// The test runner.
    pub runner: Runner,
    /// The environment of the runner, where it takes one.
    pub environment: Option<String>,
    /// The bound of the random subsample, if one is wanted.
    pub max_mutants: Option<usize>,
    /// The enabled categories of rules.
    pub mutation_types: Vec<MutationType>,
    /// Whether the mutants are only listed.
    pub list: bool,
    /// The seed of the random subsample.
    pub seed: u64,
}

/// Why a run was given up as a whole.
#[derive(Debug, Copy, Clone, PartialEq, Eq, Structural)]
pub enum RunError {
    /// The glob expression of the modules is not well formed.
    InvalidGlob,
    /// The cache cannot be read as a cache.
    CorruptCache,
    /// The cache cannot be written.
    UnwritableCache,
}

/// What a run leaves behind: the mutants with their new statuses, the
/// text of the cache that holds them, and the counts.
#[derive(Debug, PartialEq, Eq)]
pub struct RunReport {
    pub mutants: Vec<Mutant>,
    pub cache_text: String,
    pub summary: Summary,
}

/// The name of the cache file.
pub open spec fn cache_file_name() -> Seq<char> {
    ".pymute_cache.csv"@
}

/// `path` taken from the directory `root`: `path` itself where it starts
/// at the file-system root, else `root`, a separator and `path`.
pub open spec fn path_from(root: Seq<char>, path: Seq<char>) -> Seq<char> {
    if path.len() > 0 && path[0] == '/' {
        path
    } else {
        directory_prefix(root) + path
    }
}

/// The mutants that a cache holds: `None` for a text that is no cache.
pub open spec fn cached_mutants(text: Seq<char>) -> Option<Seq<MutantView>> {
    match csv_records(text) {
        Some(rows) => mutants_of(rows),
        None => None,
    }
}

/// The mutants to run, or why there is no run: the discovery in `files`
/// under the arguments, subsampled where a bound is set, and merged into
/// the cached results where there is a cache. A glob expression that is
/// not well formed is reported first; then a cache that is corrupt.
pub open spec fn prepared(
    args: Arguments,
    files: Seq<SourceFileView>,
    cache: Option<Seq<char>>,
) -> Result<Seq<MutantView>, RunError> {
    if !glob_pattern_valid(path_from(args.root@, args.modules@)) {
        Err(RunError::InvalidGlob)
    } else {
        let found = scan_files(files, active_rules(args.mutation_types@), files.len() as int);
        let chosen = subsample(found, args.max_mutants, args.seed);
        match cache {
            None => Ok(chosen),
            Some(text) => match cached_mutants(text) {
                Some(cached) => Ok(merge_all(chosen, cached)),
                None => Err(RunError::CorruptCache),
            },
        }
    }
}

/// Whether a cache, if there is one and it can be read, holds no
/// identity twice.
pub open spec fn cache_without_duplicates(cache: Option<Seq<char>>) -> bool {
    match cache {
        Some(text) => match cached_mutants(text) {
            Some(cached) => distinct_identities(cached),
            None => true,
        },
        None => true,
    }
}

/// The view of a list of mutants or an error.
pub open spec fn mutants_view(r: Result<Vec<Mutant>, RunError>) -> Result<
    Seq<MutantView>,
    RunError,
> {
    match r {
        Ok(mutants) => Ok(mutants.deep_view()),
        Err(e) => Err(e),
    }
}

/// The sentence that ends a listing of `n` mutants.
pub open spec fn listing_message(n: nat) -> Seq<char> {
    "Found and listed "@ + decimal(n) + " mutants"@
}

/// What a run persists is as complete and as free of duplicates as what
/// it was given: the recorded list holds the same identities at the same
/// positions, whatever the outcomes and however many there are.
pub proof fn lemma_results_complete(mutants: Seq<MutantView>, outcomes: Seq<Outcome>)
    ensures
        recorded(mutants, outcomes).len() == mutants.len(),
        identities(recorded(mutants, outcomes)) == identities(mutants),
        distinct_identities(mutants) ==> distinct_identities(recorded(mutants, outcomes)),
{
    let after = recorded(mutants, outcomes);
    assert forall|id: Identity| identities(after).contains(id) <==> identities(mutants).contains(
        id,
    ) by {
        if identities(after).contains(id) {
            let i = choose|i: int| 0 <= i < after.len() && after[i].identity() == id;
            assert(mutants[i].identity() == id);
        }
        if identities(mutants).contains(id) {
            let i = choose|i: int| 0 <= i < mutants.len() && mutants[i].identity() == id;
            assert(after[i].identity() == id);
        }
    }
    if distinct_identities(mutants) {
        assert forall|i: int, j: int| 0 <= i < j < after.len() implies #[trigger] after[i].identity()
            != #[trigger] after[j].identity() by {
            assert(after[i].identity() == mutants[i].identity());
            assert(after[j].identity() == mutants[j].identity());
        }
    }
}

/// `path` taken from the directory `root`.
pub fn join_path(root: &str, path: &str) -> (r: String)
    ensures
        r@ == path_from(root@, path@),
{
    if path.unicode_len() > 0 && path.get_char(0) == '/' {
        String::from_str(path)
    } else {
        let mut r = with_separator(root);
        r.append(path);
        r
    }
}

impl Arguments {
    /// The arguments of a run on the project at `root` with nothing else
    /// chosen: all Python files below the root, all tests, one worker,
    /// Pytest, only missed mutants shown, every category of rules, no
    /// subsample, seed 42.
    pub fn with_defaults(root: &str) -> (args: Arguments)
        ensures
            args.root@ == root@,
            args.modules@ == "**/*.py"@,
            args.tests@ == "."@,
            args.num_threads == 1,
            args.output_level == OutputLevel::Missed,
            args.runner == Runner::Pytest,
            args.environment is None,
            args.max_mutants is None,
            args.mutation_types@ == seq![
                MutationType::MathOps,
                MutationType::Conjunctions,
                MutationType::Booleans,
                MutationType::ControlFlow,
                MutationType::CompOps,
                MutationType::Numbers,
            ],
            !args.list,
            args.seed == 42,
    {
        let mut mutation_types: Vec<MutationType> = Vec::new();
        mutation_types.push(MutationType::MathOps);
        mutation_types.push(MutationType::Conjunctions);
        mutation_types.push(MutationType::Booleans);
        mutation_types.push(MutationType::ControlFlow);
        mutation_types.push(MutationType::CompOps);
        mutation_types.push(MutationType::Numbers);
        Arguments {
            root: String::from_str(root),
            modules: String::from_str("**/*.py"),
            tests: String::from_str("."),
            num_threads: 1,
            output_level: OutputLevel::Missed,
            runner: Runner::Pytest,
            environment: None,
            max_mutants: None,
            mutation_types,
            list: false,
            seed: 42,
        }
    }

    /// The glob expression of the modules, taken from the root.
    pub fn glob_expression(&self) -> (r: String)
        ensures
            r@ == path_from(self.root@, self.modules@),
    {
        join_path(self.root.as_str(), self.modules.as_str())
    }

    /// The path of the cache file: in the root of the project.
    pub fn cache_path(&self) -> (r: String)
        ensures
            r@ == directory_prefix(self.root@) + cache_file_name(),
    {
        let mut r = with_separator(self.root.as_str());
        r.append(".pymute_cache.csv");
        r
    }
}

/// The first half of a run: the mutants to run. `files` are the files
/// that the glob expression of the arguments matched, `cache` the text
/// of the cache file where there is one. Where the files have different
/// paths and the cache holds no identity twice, neither does the result.
pub fn prepare(args: &Arguments, files: &[SourceFile], cache: Option<&str>) -> (r: Result<
    Vec<Mutant>,
    RunError,
>)
    ensures
        mutants_view(r) == prepared(*args, files.deep_view(), cache.deep_view()),
        r matches Ok(mutants) ==> distinct_paths(files.deep_view(), files.len() as int)
            && cache_without_duplicates(cache.deep_view()) ==> distinct_identities(
            mutants.deep_view(),
        ),
{
    let expression = args.glob_expression();
    let found = match find_mutants(expression.as_str(), args.mutation_types.as_slice(), files) {
        Ok(found) => found,
        Err(_) => {
            return Err(RunError::InvalidGlob);
        },
    };
    proof {
        if distinct_paths(files.deep_view(), files.len() as int) {
            lemma_discovery_distinct(
                files.deep_view(),
                active_rules(args.mutation_types@),
                files.len() as int,
            );
        }
    }
    let chosen = select_mutants(found, args.max_mutants, args.seed);
    match cache {
        None => Ok(chosen),
        Some(text) => match read_csv_cache(text) {
            Ok(cached) => {
                proof {
                    if distinct_identities(cached.deep_view()) {
                        lemma_merge_distinct(
                            chosen.deep_view(),
                            cached.deep_view(),
                            chosen.len() as int,
                        );
                    }
                }
                Ok(merge(&chosen, &cached))
            },
            Err(_) => Err(RunError::CorruptCache),
        },
    }
}

/// The sentence that ends a listing of `mutants`.
pub fn listing(mutants: &Vec<Mutant>) -> (r: String)
    ensures
        r@ == listing_message(mutants.len() as nat),
{
    let mut r = String::from_str("Found and listed ");
    r.append(format_decimal(mutants.len()).as_str());
    r.append(" mutants");
    r
}

/// The second half of a run: the mutants with the statuses that the
/// outcomes leave them, the text of the cache that holds them all, and
/// the counts of caught and missed mutants and of failed runs.
pub fn conclude(mutants: &Vec<Mutant>, outcomes: &Vec<Outcome>) -> (r: Result<RunReport, RunError>)
    ensures
        match records_text(
            cache_records(recorded(mutants.deep_view(), outcomes@)),
            cache_records(recorded(mutants.deep_view(), outcomes@)).len() as int,
        ) {
            Some(text) => r is Ok && r->Ok_0.cache_text@ == text && r->Ok_0.mutants.deep_view()
                == recorded(mutants.deep_view(), outcomes@) && r->Ok_0.summary.caught
                == count_verdicts(outcomes@, MutantResult::Caught, outcomes.len() as int)
                && r->Ok_0.summary.missed == count_verdicts(
                outcomes@,
                MutantResult::Missed,
                outcomes.len() as int,
            ) && r->Ok_0.summary.errors == count_failures(outcomes@, outcomes.len() as int),
            None => r == Err::<RunReport, RunError>(RunError::UnwritableCache),
        },
{
    let updated = record_outcomes(mutants, outcomes);
    match write_csv_cache(updated.as_slice()) {
        Ok(cache_text) => Ok(RunReport { mutants: updated, cache_text, summary: summarize(outcomes) }),
        Err(_) => Err(RunError::UnwritableCache),
    }
}

} // verus!
