use pymute::rules::{build_replacements, MutationType};
use pymute::scanner::replacement_from_line;

fn all_types() -> Vec<MutationType> {
    vec![
        MutationType::MathOps,
        MutationType::Conjunctions,
        MutationType::Booleans,
        MutationType::ControlFlow,
        MutationType::CompOps,
        MutationType::Numbers,
    ]
}

#[test]
fn test_replacement_from_line_with_single_quotes() {
    let line = "print('a + b')";
    let mutation_types = all_types();

    let replacements = build_replacements(&mutation_types);

    let option = replacement_from_line(line, &replacements);
    assert!(option.is_none(), "Expected the option to be None");
}

#[test]
fn test_replacement_from_line_with_double_quotes() {
    let line = "print(\"a + b\")";
    let mutation_types = all_types();

    let replacements = build_replacements(&mutation_types);

    let option = replacement_from_line(line, &replacements);
    assert!(option.is_none(), "Expected the option to be None");
}

#[test]
fn test_replacement_from_line_none() {
    let line = "print('Hello World')";
    let mutation_types = all_types();

    let replacements = build_replacements(&mutation_types);
    let option = replacement_from_line(line, &replacements);
    println!("{:?}", option);
    assert!(option.is_none(), "Expected the option to be None");
}

#[test]
fn test_replacement_from_line_math_operators() {
    let mutation_types = all_types();

    let replacements = build_replacements(&mutation_types);

    let line = "5 + 5";
    let option = replacement_from_line(line, &replacements);
    assert_eq!(option.unwrap(), (" + ".into(), " - ".into()));

    let line = "5 - 5";
    let option = replacement_from_line(line, &replacements);
    assert_eq!(option.unwrap(), (" - ".into(), " + ".into()));

    let line = "5 * 5";
    let option = replacement_from_line(line, &replacements);
    assert_eq!(option.unwrap(), (" * ".into(), " / ".into()));

    let line = "5 / 5";
    let option = replacement_from_line(line, &replacements);
    assert_eq!(option.unwrap(), (" / ".into(), " * ".into()));
}

#[test]
fn test_replacement_from_line_conjunctions() {
    let mutation_types = all_types();

    let replacements = build_replacements(&mutation_types);
    let line = "True and False";
    let option = replacement_from_line(line, &replacements);
    assert_eq!(option.unwrap(), (" and ".into(), " or ".into()));

    let line = "True or False";
    let option = replacement_from_line(line, &replacements);
    assert_eq!(option.unwrap(), (" or ".into(), " and ".into()));
}

#[test]
fn test_replacement_from_line_comparison_operators() {
    let mutation_types = all_types();

    let replacements = build_replacements(&mutation_types);

    let line = "5 == 5";
    let option = replacement_from_line(line, &replacements);
    assert_eq!(option.unwrap(), ("==".into(), "!=".into()));

    let line = "5 != 5";
    let option = replacement_from_line(line, &replacements);
    assert_eq!(option.unwrap(), ("!=".into(), "==".into()));

    let line = "5 > 5";
    let option = replacement_from_line(line, &replacements);
    assert_eq!(option.unwrap(), (" > ".into(), " < ".into()));

    let line = "5 < 5";
    let option = replacement_from_line(line, &replacements);
    assert_eq!(option.unwrap(), (" < ".into(), " > ".into()));
}
