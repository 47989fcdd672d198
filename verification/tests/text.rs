use pymute::text::{
    contains_chars, count_matches, ends_with_chars, find_chars, join_text, matches_at,
    replace_first_in, split_text, starts_with_chars, take_before, to_chars,
};

fn chars(s: &str) -> Vec<char> {
    s.chars().collect()
}

#[test]
fn characters_of_a_text() {
    assert_eq!(to_chars("a+é"), vec!['a', '+', 'é']);
    assert_eq!(to_chars(""), Vec::<char>::new());
}

#[test]
fn finding_and_counting() {
    assert_eq!(find_chars(&chars("a + b + c"), &chars(" + "), 0), Some(1));
    assert_eq!(find_chars(&chars("a + b + c"), &chars(" + "), 2), Some(5));
    assert_eq!(find_chars(&chars("a + b + c"), &chars(" + "), 6), None);
    assert_eq!(find_chars(&chars("abc"), &chars(""), 3), Some(3));
    assert_eq!(find_chars(&chars("abc"), &chars(""), 4), None);
    assert_eq!(find_chars(&chars("ab"), &chars("abc"), 0), None);
    assert!(matches_at(&chars("abc"), &chars("bc"), 1));
    assert!(!matches_at(&chars("abc"), &chars("bc"), 0));
    assert!(contains_chars(&chars("x == y"), &chars("==")));
    assert!(!contains_chars(&chars("x = y"), &chars("==")));
    assert!(contains_chars(&chars(""), &chars("")));
    assert_eq!(count_matches(&chars("\"\"\"doc\"\"\""), &chars("\"\"\"")), 2);
    assert_eq!(count_matches(&chars("\"\"\"\"\"\"\""), &chars("\"\"\"")), 2);
    assert_eq!(count_matches(&chars("'''"), &chars("'''")), 1);
    assert_eq!(count_matches(&chars("aaa"), &chars("aa")), 1);
    assert_eq!(count_matches(&chars("aaa"), &chars("")), 0);
    assert!(starts_with_chars(&chars("test_a.py"), &chars("test_")));
    assert!(!starts_with_chars(&chars("tes"), &chars("test_")));
    assert!(ends_with_chars(&chars("a_test.py"), &chars("_test.py")));
    assert!(!ends_with_chars(&chars("a_test.pyc"), &chars("_test.py")));
}

#[test]
fn replacing_the_first_occurrence() {
    assert_eq!(replace_first_in("a + b + c", " + ", " - "), "a - b + c");
    assert_eq!(replace_first_in("abc", "x", "y"), "abc");
    assert_eq!(replace_first_in("abc", "", "-"), "-abc");
    assert_eq!(replace_first_in("héllo == 1", "==", "!="), "héllo != 1");
    assert_eq!(replace_first_in("abc", "abc", ""), "");
}

#[test]
fn part_before_the_comment() {
    assert_eq!(take_before("x = 1 # one # two", '#'), "x = 1 ");
    assert_eq!(take_before("x = 1", '#'), "x = 1");
    assert_eq!(take_before("#", '#'), "");
}

#[test]
fn splitting_and_joining_are_exact() {
    assert_eq!(split_text(""), vec![""]);
    assert_eq!(split_text("a"), vec!["a"]);
    assert_eq!(split_text("a\n"), vec!["a", ""]);
    assert_eq!(split_text("a\r\n\nb"), vec!["a\r", "", "b"]);
    assert_eq!(split_text("\n\n"), vec!["", "", ""]);
    for text in ["", "a", "a\n", "a\r\n\nb", "\n\n", "é\nü\n"] {
        assert_eq!(join_text(&split_text(text)), text);
    }
    assert_eq!(join_text(&Vec::new()), "");
    assert_eq!(join_text(&vec!["a".to_string(), "b".to_string()]), "a\nb");
}
