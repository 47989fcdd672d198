use pymute::mutants::{Mutant, MutantStatus};
use pymute::orchestrator::{conclude, join_path, listing, prepare, Arguments, RunError};
use pymute::rules::MutationType;
use pymute::runner::{MutantResult, Outcome, OutputLevel, RunFailure, Runner};
use pymute::sample::{pick, select_mutants};
use pymute::scanner::SourceFile;

const SCRIPT: &str = "def add(a, b):
    return a + b

# this is a + comment
def sub(a, b):
    return a - b

res = sub(5, 6) * add(7, 8)
print(res) # print the result *
";

fn files() -> Vec<SourceFile> {
    vec![SourceFile { path: "/p/script.py".to_string(), content: Some(SCRIPT.to_string()) }]
}

fn numbered(n: usize) -> Vec<Mutant> {
    (1..=n).map(|i| Mutant::new("a.py", i, " + ", " - ", "a + b")).collect()
}

#[test]
fn default_arguments() {
    let args = Arguments::with_defaults("/p");
    assert_eq!(args.root, "/p");
    assert_eq!(args.modules, "**/*.py");
    assert_eq!(args.tests, ".");
    assert_eq!(args.num_threads, 1);
    assert_eq!(args.output_level, OutputLevel::Missed);
    assert_eq!(args.runner, Runner::Pytest);
    assert_eq!(args.environment, None);
    assert_eq!(args.max_mutants, None);
    assert_eq!(args.mutation_types.len(), 6);
    assert_eq!(args.mutation_types[4], MutationType::CompOps);
    assert!(!args.list);
    assert_eq!(args.seed, 42);
    assert_eq!(args.glob_expression(), "/p/**/*.py");
    assert_eq!(args.cache_path(), "/p/.pymute_cache.csv");
}

#[test]
fn paths_are_joined_with_one_separator() {
    assert_eq!(join_path("/p", "a/b.py"), "/p/a/b.py");
    assert_eq!(join_path("/p/", "a/b.py"), "/p/a/b.py");
    assert_eq!(join_path("/p", "/abs/b.py"), "/abs/b.py");
    assert_eq!(join_path("", "b.py"), "/b.py");
}

#[test]
fn prepare_without_cache_is_the_discovery() {
    let args = Arguments::with_defaults("/p");
    let mutants = prepare(&args, &files(), None).unwrap();
    assert_eq!(mutants.len(), 3);
    assert_eq!(mutants[0].line_number, 2);
    assert_eq!(mutants[2].before, " * ");
}

#[test]
fn prepare_merges_into_the_cache() {
    let args = Arguments::with_defaults("/p");
    let cache = "file_path,line_number,before,after,status
/p/script.py,2, + , - ,Caught
/projects/project/script.py,65, - , + ,NotRun
";
    let mutants = prepare(&args, &files(), Some(cache)).unwrap();
    assert_eq!(mutants.len(), 4);
    assert_eq!(mutants[0].status, MutantStatus::Caught);
    assert_eq!(mutants[1].line_number, 65);
    assert_eq!(mutants[2].line_number, 6);
    assert_eq!(mutants[3].line_number, 8);
    assert_eq!(listing(&mutants), "Found and listed 4 mutants");
}

#[test]
fn prepare_reports_run_level_errors() {
    let mut args = Arguments::with_defaults("/p");
    assert_eq!(prepare(&args, &files(), Some("not,a,cache\n")), Err(RunError::CorruptCache));
    args.modules = "a**b".to_string();
    assert_eq!(prepare(&args, &files(), None), Err(RunError::InvalidGlob));
    assert_eq!(prepare(&args, &files(), Some("not,a,cache\n")), Err(RunError::InvalidGlob));
}

#[test]
fn prepare_subsamples_by_seed() {
    let mut args = Arguments::with_defaults("/p");
    args.max_mutants = Some(2);
    args.seed = 34;
    let first = prepare(&args, &files(), None).unwrap();
    let again = prepare(&args, &files(), None).unwrap();
    assert_eq!(first.len(), 2);
    assert_eq!(first, again);
    assert_ne!(first[0].line_number, first[1].line_number);
    args.max_mutants = Some(10);
    assert_eq!(prepare(&args, &files(), None).unwrap().len(), 3);
}

#[test]
fn subsample_holds_distinct_mutants_of_the_discovery() {
    let found = numbered(50);
    let chosen = select_mutants(numbered(50), Some(10), 42);
    assert_eq!(chosen.len(), 10);
    let mut lines: Vec<usize> = chosen.iter().map(|m| m.line_number).collect();
    assert_ne!(lines, (1..=10).collect::<Vec<usize>>());
    lines.sort();
    lines.dedup();
    assert_eq!(lines.len(), 10);
    assert!(chosen.iter().all(|m| found.contains(m)));
    assert_eq!(select_mutants(numbered(50), Some(10), 42), chosen);
    assert_eq!(select_mutants(numbered(5), Some(5), 1), numbered(5));
    assert_eq!(select_mutants(numbered(5), Some(9), 1), numbered(5));
    assert_eq!(select_mutants(numbered(5), None, 1), numbered(5));
    assert_eq!(select_mutants(numbered(5), Some(0), 1), Vec::new());
}

#[test]
fn pick_takes_positions_in_order_and_skips_what_is_beyond() {
    let found = numbered(4);
    let chosen = pick(&found, &vec![3, 0, 7, 0]);
    let lines: Vec<usize> = chosen.iter().map(|m| m.line_number).collect();
    assert_eq!(lines, vec![4, 1, 1]);
    assert_eq!(pick(&found, &Vec::new()), Vec::new());
}

#[test]
fn conclude_gives_cache_and_summary() {
    let mutants = numbered(3);
    let outcomes = vec![
        Outcome::Verdict(MutantResult::Caught),
        Outcome::Failed(RunFailure::Spawn),
        Outcome::Verdict(MutantResult::Missed),
    ];
    let report = conclude(&mutants, &outcomes).unwrap();
    assert_eq!(
        report.cache_text,
        "file_path,line_number,before,after,status\na.py,1, + , - ,Caught\na.py,2, + , - ,NotRun\na.py,3, + , - ,Missed\n"
    );
    assert_eq!(report.summary.caught, 1);
    assert_eq!(report.summary.missed, 1);
    assert_eq!(report.summary.errors, 1);
    assert_eq!(report.mutants[2].status, MutantStatus::Missed);
    let empty = conclude(&Vec::new(), &Vec::new()).unwrap();
    assert_eq!(empty.cache_text, "");
}

fn run_arguments(max_mutants: Option<usize>, list: bool) -> Arguments {
    Arguments {
        root: "/base".to_string(),
        modules: "**/*.py".to_string(),
        tests: ".".to_string(),
        num_threads: 1,
        output_level: OutputLevel::Missed,
        runner: Runner::Pytest,
        environment: None,
        max_mutants,
        mutation_types: vec![
            MutationType::MathOps,
            MutationType::Conjunctions,
            MutationType::Booleans,
            MutationType::ControlFlow,
            MutationType::CompOps,
            MutationType::Numbers,
        ],
        list,
        seed: 34,
    }
}

fn base_files() -> Vec<SourceFile> {
    vec![SourceFile { path: "/base/script.py".to_string(), content: Some(SCRIPT.to_string()) }]
}

#[test]
fn test_run() {
    let args = run_arguments(Some(10), false);
    let mutants = prepare(&args, &base_files(), None).unwrap();
    assert_eq!(mutants.len(), 3);
    let outcomes = vec![Outcome::Verdict(MutantResult::Caught); mutants.len()];
    conclude(&mutants, &outcomes).unwrap();
}

#[test]
fn test_run_no_max_mutants() {
    let args = run_arguments(None, false);
    let mutants = prepare(&args, &base_files(), None).unwrap();
    assert_eq!(mutants.len(), 3);
    let outcomes = vec![Outcome::Verdict(MutantResult::Caught); mutants.len()];
    conclude(&mutants, &outcomes).unwrap();
}

#[test]
fn test_run_with_cache() {
    let serialised = "file_path,line_number,before,after,status
/projects/project/script.py,2, + , - ,NotRun
/projects/project/script.py,65, - , + ,NotRun
";
    let args = run_arguments(None, true);
    let mutants = prepare(&args, &base_files(), Some(serialised)).unwrap();
    assert_eq!(mutants.len(), 5);
    assert_eq!(listing(&mutants), "Found and listed 5 mutants");
}
