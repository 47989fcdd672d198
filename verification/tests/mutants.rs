use pymute::mutants::{Mutant, MutantStatus, PatchError, PatchedFile};

fn plus_to_minus(path: &str, line: usize, captured: &str) -> Mutant {
    Mutant::new(path, line, " + ", " - ", captured)
}

#[test]
fn insert_replaces_on_the_line_and_keeps_the_rest() {
    let mutant = plus_to_minus("script.py", 2, "    return a + b");
    let text = "def add(a, b):\n    return a + b\n";
    assert_eq!(mutant.insert(text).unwrap(), "def add(a, b):\n    return a - b\n");
    // without a final newline none is added
    let text = "def add(a, b):\n    return a + b";
    assert_eq!(mutant.insert(text).unwrap(), "def add(a, b):\n    return a - b");
}

#[test]
fn insert_replaces_only_the_first_occurrence() {
    let mutant = plus_to_minus("script.py", 1, "a + b + c");
    assert_eq!(mutant.insert("a + b + c\nd + e\n").unwrap(), "a - b + c\nd + e\n");
}

#[test]
fn insert_without_the_trigger_changes_nothing() {
    let mutant = plus_to_minus("script.py", 1, "a * b");
    assert_eq!(mutant.insert("a * b\n").unwrap(), "a * b\n");
}

#[test]
fn insert_keeps_other_line_terminators() {
    let mutant = plus_to_minus("script.py", 2, "b = a + 1\r");
    assert_eq!(mutant.insert("a = 1\r\nb = a + 1\r\n").unwrap(), "a = 1\r\nb = a - 1\r\n");
}

#[test]
fn line_out_of_range_is_an_error() {
    let text = "a + b\nc + d\n";
    assert_eq!(plus_to_minus("s.py", 0, "").insert(text), Err(PatchError::LineOutOfRange));
    assert_eq!(plus_to_minus("s.py", 3, "").insert(text), Err(PatchError::LineOutOfRange));
    assert_eq!(plus_to_minus("s.py", 3, "").remove(text), Err(PatchError::LineOutOfRange));
    assert_eq!(plus_to_minus("s.py", 1, "").insert(""), Err(PatchError::LineOutOfRange));
    assert!(plus_to_minus("s.py", 2, "").insert(text).is_ok());
    // an unterminated last line counts
    assert!(plus_to_minus("s.py", 3, "").insert("a\nb\nc").is_ok());
}

#[test]
fn apply_then_revert_restores_the_text() {
    let texts = [
        "def add(a, b):\n    return a + b\n",
        "def add(a, b):\n    return a + b",
        "x = 1\r\n    return a + b\r\n\r\n",
        "\n    return a + b\n\n\n",
    ];
    for text in texts {
        let line = text.split('\n').nth(1).unwrap();
        let mutant = plus_to_minus("script.py", 2, line);
        let mutated = mutant.insert(text).unwrap();
        assert_ne!(mutated, text);
        assert_eq!(mutant.remove(&mutated).unwrap(), text);
    }
}

#[test]
fn remove_needs_a_captured_line() {
    let mutant = Mutant {
        file_path: "s.py".to_string(),
        line_number: 1,
        before: " + ".to_string(),
        after: " - ".to_string(),
        original_line: None,
        status: MutantStatus::Caught,
    };
    assert!(!mutant.has_captured_line());
    assert!(plus_to_minus("s.py", 1, "a + b").has_captured_line());
    assert_eq!(mutant.remove("a - b\n"), Err(PatchError::LineNotCaptured));
    assert_eq!(mutant.remove(""), Err(PatchError::LineNotCaptured));
}

#[test]
fn path_is_moved_under_the_new_root() {
    let mutant = plus_to_minus("/home/me/project/pkg/mod.py", 1, "a + b");
    assert_eq!(
        mutant.path_in_new_root("/home/me/project", "/tmp/copy").unwrap(),
        "/tmp/copy/pkg/mod.py"
    );
    assert_eq!(
        mutant.path_in_new_root("/home/me/project/", "/tmp/copy/").unwrap(),
        "/tmp/copy/pkg/mod.py"
    );
    assert_eq!(mutant.path_in_new_root("/", "/tmp/copy").unwrap(), "/tmp/copy/home/me/project/pkg/mod.py");
}

#[test]
fn file_outside_the_root_is_a_path_error() {
    let mutant = plus_to_minus("/home/me/project/pkg/mod.py", 1, "a + b");
    assert_eq!(mutant.path_in_new_root("/home/you", "/tmp/copy"), Err(PatchError::NotUnderRoot));
    // a sibling whose name begins like the root is not under it
    assert_eq!(mutant.path_in_new_root("/home/me/pro", "/tmp/copy"), Err(PatchError::NotUnderRoot));
    // the root itself is not under the root
    assert_eq!(
        mutant.path_in_new_root("/home/me/project/pkg/mod.py", "/tmp/copy"),
        Err(PatchError::NotUnderRoot)
    );
    assert_eq!(
        mutant.insert_in_new_root("/home/you", "/tmp/copy", "a + b\n"),
        Err(PatchError::NotUnderRoot)
    );
}

#[test]
fn insert_in_new_root_gives_path_and_text() {
    let mutant = plus_to_minus("/p/script.py", 2, "    return a + b");
    let patched = mutant
        .insert_in_new_root("/p", "/copy", "def add(a, b):\n    return a + b\n")
        .unwrap();
    assert_eq!(
        patched,
        PatchedFile {
            path: "/copy/script.py".to_string(),
            content: "def add(a, b):\n    return a - b\n".to_string(),
        }
    );
    assert_eq!(
        mutant.insert_in_new_root("/p", "/copy", "one line\n"),
        Err(PatchError::LineOutOfRange)
    );
}

#[test]
fn describe_names_replacement_file_and_line() {
    let mutant = plus_to_minus("/p/script.py", 65, "");
    assert_eq!(mutant.describe(), " +  replaced by  -  in file /p/script.py on line 65");
}

#[test]
fn new_mutant_is_not_run() {
    let mutant = Mutant::new("a.py", 3, "==", "!=", "x == y");
    assert_eq!(mutant.status, MutantStatus::NotRun);
    assert_eq!(mutant.line_number, 3);
    assert_eq!(mutant.original_line.as_deref(), Some("x == y"));
    assert_eq!(mutant.clone(), mutant);
}
