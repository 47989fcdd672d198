//! Discovery: which lines of a source text are eligible for mutation, what
//! of a line is visible to the rules, and the catalog of mutants of a set
//! of files.

use crate::mutants::{
    applied, count_lines, distinct_identities, file_lines, identities,
    lemma_apply_then_revert_plain, line_count, mutated_line, reverted, Identity, Mutant,
    MutantStatus, MutantView,
};
use crate::rules::{
    active_rules, build_replacements, first_rule_from, first_rule_in, lemma_first_rule_from,
    matched_rule, MutationType, Rule,
};
use crate::text::{
    contains_chars, contains_sub, count_from, count_matches, ends_with_chars, find_from,
    is_prefix, is_suffix, lemma_find_from, lemma_split_shape, newline_free, occurs_at,
    prefix_before, split_lines, split_text, starts_with_chars, take_before, to_chars,
};
use vstd::prelude::*;

verus! {

/// What replacing every match of the regular expression `pattern` in
/// `haystack` by `replacement` gives; `None` where `pattern` is no valid
/// regular expression.
pub uninterp spec fn regex_replaced(
    pattern: Seq<char>,
    haystack: Seq<char>,
    replacement: Seq<char>,
) -> Option<Seq<char>>;

/// Whether `pattern` is a well-formed glob pattern.
pub uninterp spec fn glob_pattern_valid(pattern: Seq<char>) -> bool;

/// `regex::Regex::new` followed by `Regex::replace_all`: compiles
/// `pattern` and replaces all its non-overlapping matches in `haystack`.
/// The contract only names the result: it is what the regex engine gives
/// for these three texts, and `None` where the pattern does not compile.
#[verifier::external_body]
fn regex_replace_all(pattern: &str, haystack: &str, replacement: &str) -> (r: Option<String>)
    ensures
        r.deep_view() == regex_replaced(pattern@, haystack@, replacement@),
{
    match regex::Regex::new(pattern) {
        Ok(re) => Some(re.replace_all(haystack, replacement).into_owned()),
        Err(_) => None,
    }
}

/// `glob::Pattern::new`: whether the glob library accepts `pattern`. The
/// contract only names the answer.
#[verifier::external_body]
fn glob_pattern_compiles(pattern: &str) -> (ok: bool)
    ensures
        ok == glob_pattern_valid(pattern@),
{
    glob::Pattern::new(pattern).is_ok()
}

/// Why discovery failed.
#[derive(Debug, Copy, Clone, PartialEq, Eq, Structural)]
pub enum DiscoveryError {
    /// The glob expression is not well formed.
    InvalidGlob,
}

/// A file that the glob expression matched: its path and, where it could
/// be read, its text.
#[derive(Debug, PartialEq, Eq)]
pub struct SourceFile {
    pub path: String,
    pub content: Option<String>,
}

/// The mathematical value of a `SourceFile`.
pub struct SourceFileView {
    pub path: Seq<char>,
    pub content: Option<Seq<char>>,
}

impl View for SourceFile {
    type V = SourceFileView;

    open spec fn view(&self) -> SourceFileView {
        SourceFileView {
            path: self.path@,
            content: match self.content {
                Some(text) => Some(text@),
                None => None,
            },
        }
    }
}

impl DeepView for SourceFile {
    type V = SourceFileView;

    open spec fn deep_view(&self) -> SourceFileView {
        self@
    }
}

/// The regular expression of a quoted span: a single-quoted or a
/// double-quoted run without the quote character inside.
pub open spec fn quoted_span() -> Seq<char> {
    "'[^']*'|\"[^\"]*\""@
}

/// `s` without its quoted spans, as the regex engine removes them.
pub open spec fn without_quotes(s: Seq<char>) -> Seq<char> {
    match regex_replaced(quoted_span(), s, ""@) {
        Some(rest) => rest,
        None => s,
    }
}

/// What of a line the rules see: the part before the first comment marker,
/// without its quoted spans.
pub open spec fn visible_text(line: Seq<char>) -> Seq<char> {
    without_quotes(prefix_before(line, '#'))
}

/// A line that holds a whole docstring: one of the two delimiters occurs
/// on it exactly twice.
pub open spec fn is_block_line(line: Seq<char>) -> bool {
    count_from(line, "\"\"\""@, 0) == 2 || count_from(line, "'''"@, 0) == 2
}

/// A line that opens or closes a docstring: it holds a delimiter and is
/// no whole docstring.
pub open spec fn toggles_docstring(line: Seq<char>) -> bool {
    !is_block_line(line) && (contains_sub(line, "\"\"\""@) || contains_sub(line, "'''"@))
}

/// Whether a docstring is open after the first `k` lines.
pub open spec fn docstring_open(lines: Seq<Seq<char>>, k: int) -> bool
    decreases k,
{
    if k <= 0 {
        false
    } else if toggles_docstring(lines[k - 1]) {
        !docstring_open(lines, k - 1)
    } else {
        docstring_open(lines, k - 1)
    }
}

/// Whether line `k` (counted from 0) is looked at by the rules: it is no
/// whole docstring, no docstring is open after it, and it is no comment
/// line.
pub open spec fn line_scanned(lines: Seq<Seq<char>>, k: int) -> bool {
    &&& !is_block_line(lines[k])
    &&& !docstring_open(lines, k + 1)
    &&& !is_prefix(seq!['#'], lines[k])
}

/// The mutant of line `k` (counted from 0), if it has one: the first rule
/// that applies to the visible text of a scanned line, with the untouched
/// line captured.
pub open spec fn line_mutant(path: Seq<char>, lines: Seq<Seq<char>>, k: int, rules: Seq<Rule>)
    -> Option<MutantView> {
    if 0 <= k < lines.len() && line_scanned(lines, k) {
        match matched_rule(visible_text(lines[k]), rules) {
            Some(rule) => Some(
                MutantView {
                    file_path: path,
                    line_number: (k + 1) as nat,
                    before: rule.0,
                    after: rule.1,
                    original_line: Some(lines[k]),
                    status: MutantStatus::NotRun,
                },
            ),
            None => None,
        }
    } else {
        None
    }
}

/// The mutants of the first `k` lines, in the order of the lines.
pub open spec fn scan_lines(path: Seq<char>, lines: Seq<Seq<char>>, rules: Seq<Rule>, k: int)
    -> Seq<MutantView>
    decreases k,
{
    if k <= 0 {
        Seq::empty()
    } else {
        match line_mutant(path, lines, k - 1, rules) {
            Some(m) => scan_lines(path, lines, rules, k - 1).push(m),
            None => scan_lines(path, lines, rules, k - 1),
        }
    }
}

/// Where the file name of a path begins: behind its last separator.
pub open spec fn name_start(path: Seq<char>) -> int
    decreases path.len(),
{
    if path.len() == 0 {
        0
    } else if path.last() == '/' {
        path.len() as int
    } else {
        name_start(path.drop_last())
    }
}

/// The file name of a path: what stands behind its last `/`.
pub open spec fn file_name(path: Seq<char>) -> Seq<char> {
    path.subrange(name_start(path), path.len() as int)
}

/// Whether a path names a test file, which discovery leaves alone: its
/// file name begins with `test_` or ends with `_test.py`.
pub open spec fn is_test_file(path: Seq<char>) -> bool {
    is_prefix("test_"@, file_name(path)) || is_suffix("_test.py"@, file_name(path))
}

/// The mutants of one file: none for a test file or a file that could not
/// be read, else those of its lines.
pub open spec fn scan_file(file: SourceFileView, rules: Seq<Rule>) -> Seq<MutantView> {
    match file.content {
        Some(text) => if is_test_file(file.path) {
            Seq::empty()
        } else {
            scan_lines(file.path, file_lines(text), rules, file_lines(text).len() as int)
        },
        None => Seq::empty(),
    }
}

/// The mutants of the first `k` files, file after file.
pub open spec fn scan_files(files: Seq<SourceFileView>, rules: Seq<Rule>, k: int) -> Seq<
    MutantView,
>
    decreases k,
{
    if k <= 0 {
        Seq::empty()
    } else {
        scan_files(files, rules, k - 1) + scan_file(files[k - 1], rules)
    }
}

/// The mutants of a scan are exactly the mutants of its lines.
pub proof fn lemma_scan_lines_members(
    path: Seq<char>,
    lines: Seq<Seq<char>>,
    rules: Seq<Rule>,
    k: int,
    m: MutantView,
)
    ensures
        scan_lines(path, lines, rules, k).contains(m) <==> exists|j: int|
            0 <= j < k && line_mutant(path, lines, j, rules) == Some(m),
    decreases k,
{
    if k > 0 {
        lemma_scan_lines_members(path, lines, rules, k - 1, m);
        let prev = scan_lines(path, lines, rules, k - 1);
        let here = scan_lines(path, lines, rules, k);
        match line_mutant(path, lines, k - 1, rules) {
            Some(_) => {
                if here.contains(m) {
                    let i = choose|i: int| 0 <= i < here.len() && here[i] == m;
                    if i < prev.len() {
                        assert(prev[i] == m);
                    } else {
                        assert(line_mutant(path, lines, k - 1, rules) == Some(m));
                    }
                }
                if exists|j: int| 0 <= j < k && line_mutant(path, lines, j, rules) == Some(m) {
                    let j = choose|j: int|
                        0 <= j < k && line_mutant(path, lines, j, rules) == Some(m);
                    if j == k - 1 {
                        assert(here[prev.len() as int] == m);
                    } else {
                        let i = choose|i: int| 0 <= i < prev.len() && prev[i] == m;
                        assert(here[i] == m);
                    }
                }
            },
            None => {},
        }
    }
}

/// What stands behind the first comment marker of a line is not seen by
/// the rules: a line made of `code`, which holds no marker, then a marker
/// and any `comment`, shows the rules what `code` alone shows them. A
/// trigger that occurs only in the comment yields no mutant that the
/// code would not yield.
pub proof fn lemma_comment_not_visible(code: Seq<char>, comment: Seq<char>, rules: Seq<Rule>)
    requires
        forall|i: int| 0 <= i < code.len() ==> code[i] != '#',
    ensures
        visible_text(code + seq!['#'] + comment) == visible_text(code),
        matched_rule(visible_text(code + seq!['#'] + comment), rules) == matched_rule(
            visible_text(code),
            rules,
        ),
{
    let line = code + seq!['#'] + comment;
    let marker = seq!['#'];
    let at = code.len() as int;
    lemma_find_from(line, marker, 0);
    lemma_find_from(code, marker, 0);
    assert(line.subrange(at, at + 1) =~= marker);
    assert(occurs_at(line, marker, at));
    match find_from(line, marker, 0) {
        Some(i) => {
            if i < at {
                assert(line.subrange(i, i + 1)[0] == line[i]);
                assert(line[i] == code[i]);
            }
            assert(i == at);
            assert(line.subrange(0, at) =~= code);
        },
        None => {},
    }
    match find_from(code, marker, 0) {
        Some(i) => {
            assert(code.subrange(i, i + 1)[0] == code[i]);
        },
        None => {},
    }
}

/// The mutants of a scan come in the order of their lines, one line at
/// most once: line numbers grow strictly along the list, and none
/// exceeds the number of lines scanned. Each carries the path of the
/// scanned file, and no two have the same identity.
pub proof fn lemma_scan_in_line_order(
    path: Seq<char>,
    lines: Seq<Seq<char>>,
    rules: Seq<Rule>,
    k: int,
)
    ensures
        forall|i: int|
            0 <= i < scan_lines(path, lines, rules, k).len() ==> 1 <= (#[trigger] scan_lines(
                path,
                lines,
                rules,
                k,
            )[i]).line_number <= k && scan_lines(path, lines, rules, k)[i].file_path == path,
        forall|i: int, j: int|
            0 <= i < j < scan_lines(path, lines, rules, k).len() ==> (#[trigger] scan_lines(
                path,
                lines,
                rules,
                k,
            )[i]).line_number < (#[trigger] scan_lines(path, lines, rules, k)[j]).line_number,
        distinct_identities(scan_lines(path, lines, rules, k)),
    decreases k,
{
    if k > 0 {
        lemma_scan_in_line_order(path, lines, rules, k - 1);
    }
    let found = scan_lines(path, lines, rules, k);
    assert forall|i: int, j: int| 0 <= i < j < found.len() implies #[trigger] found[i].identity()
        != #[trigger] found[j].identity() by {
        assert(found[i].line_number < found[j].line_number);
    }
}

/// No two files of the first `k` have the same path.
pub open spec fn distinct_paths(files: Seq<SourceFileView>, k: int) -> bool {
    forall|i: int, j: int| 0 <= i < j < k ==> (#[trigger] files[i]).path != (#[trigger] files[j]).path
}

/// Discovery in files of different paths finds no identity twice, and
/// each mutant carries the path of one of the files.
pub proof fn lemma_discovery_distinct(files: Seq<SourceFileView>, rules: Seq<Rule>, k: int)
    requires
        k <= files.len(),
        distinct_paths(files, k),
    ensures
        distinct_identities(scan_files(files, rules, k)),
        forall|i: int|
            0 <= i < scan_files(files, rules, k).len() ==> exists|j: int|
                0 <= j < k && (#[trigger] scan_files(files, rules, k)[i]).file_path
                    == files[j].path,
    decreases k,
{
    if k > 0 {
        lemma_discovery_distinct(files, rules, k - 1);
        let prev = scan_files(files, rules, k - 1);
        let file = files[k - 1];
        let last = scan_file(file, rules);
        let here = scan_files(files, rules, k);
        match file.content {
            Some(text) => {
                lemma_scan_in_line_order(
                    file.path,
                    file_lines(text),
                    rules,
                    file_lines(text).len() as int,
                );
            },
            None => {},
        }
        assert forall|i: int| 0 <= i < last.len() implies (#[trigger] last[i]).file_path
            == file.path by {}
        assert forall|i: int| 0 <= i < here.len() implies exists|j: int|
            0 <= j < k && (#[trigger] here[i]).file_path == files[j].path by {
            if i < prev.len() {
                assert(here[i] == prev[i]);
                let j = choose|j: int| 0 <= j < k - 1 && prev[i].file_path == files[j].path;
                assert(0 <= j < k && here[i].file_path == files[j].path);
            } else {
                assert(here[i] == last[i - prev.len()]);
                assert(here[i].file_path == files[k - 1].path);
            }
        }
        assert forall|i: int, j: int| 0 <= i < j < here.len() implies #[trigger] here[i].identity()
            != #[trigger] here[j].identity() by {
            if j < prev.len() {
                assert(here[i] == prev[i] && here[j] == prev[j]);
            } else if i >= prev.len() {
                assert(here[i] == last[i - prev.len()] && here[j] == last[j - prev.len()]);
            } else {
                assert(here[i] == prev[i]);
                assert(here[j] == last[j - prev.len()]);
                let f = choose|f: int| 0 <= f < k - 1 && prev[i].file_path == files[f].path;
                assert(files[f].path != files[k - 1].path);
            }
        }
    }
}

/// A mutant is found only where its trigger is visible: every mutant of a
/// scan stands on a line of the text whose visible part (the comment cut
/// off, the quoted spans removed) holds the mutant's trigger. A trigger
/// that occurs only in what is cut off or removed yields no mutant.
pub proof fn lemma_hidden_trigger_skipped(
    path: Seq<char>,
    lines: Seq<Seq<char>>,
    rules: Seq<Rule>,
    m: MutantView,
)
    requires
        scan_lines(path, lines, rules, lines.len() as int).contains(m),
    ensures
        1 <= m.line_number <= lines.len(),
        contains_sub(visible_text(lines[m.line_number - 1]), m.before),
        m.original_line == Some(lines[m.line_number - 1]),
{
    lemma_scan_lines_members(path, lines, rules, lines.len() as int, m);
    let j = choose|j: int|
        0 <= j < lines.len() && line_mutant(path, lines, j, rules) == Some(m);
    lemma_first_rule_from(visible_text(lines[j]), rules, 0);
}

/// A mutant that was found in a text can be applied to that text and
/// reverted again, which restores the text exactly: its captured line is
/// the line of its number. This holds where its replacement holds no
/// newline, as those of the rules do, unless the mutant empties the last
/// line of a text that has no final newline.
pub proof fn lemma_found_mutant_reverts(
    path: Seq<char>,
    content: Seq<char>,
    rules: Seq<Rule>,
    m: MutantView,
)
    requires
        scan_lines(path, file_lines(content), rules, file_lines(content).len() as int).contains(m),
        newline_free(m.after),
        1 <= m.line_number <= line_count(content) ==> mutated_line(
            m,
            split_lines(content)[m.line_number - 1],
        ).len() > 0 || m.line_number < split_lines(content).len(),
    ensures
        applied(m, content) is Some,
        reverted(m, applied(m, content)->0) == Some(content),
{
    lemma_split_shape(content);
    lemma_hidden_trigger_skipped(path, file_lines(content), rules, m);
    lemma_apply_then_revert_plain(m, content);
}

/// No mutant inside a docstring: every mutant of a scan stands on a line
/// after which no docstring is open, which is no whole docstring and no
/// comment line.
pub proof fn lemma_docstring_skipped(
    path: Seq<char>,
    lines: Seq<Seq<char>>,
    rules: Seq<Rule>,
    m: MutantView,
)
    requires
        scan_lines(path, lines, rules, lines.len() as int).contains(m),
    ensures
        1 <= m.line_number <= lines.len(),
        !docstring_open(lines, m.line_number as int),
        line_scanned(lines, m.line_number - 1),
{
    lemma_scan_lines_members(path, lines, rules, lines.len() as int, m);
}

/// One mutant per line, for the first rule that applies: every mutant of
/// a scan carries the earliest rule whose trigger its line shows, and it
/// is the only mutant of that line.
pub proof fn lemma_first_rule_only(
    path: Seq<char>,
    lines: Seq<Seq<char>>,
    rules: Seq<Rule>,
    m: MutantView,
    other: MutantView,
)
    requires
        scan_lines(path, lines, rules, lines.len() as int).contains(m),
        scan_lines(path, lines, rules, lines.len() as int).contains(other),
        other.line_number == m.line_number,
    ensures
        1 <= m.line_number <= lines.len(),
        first_rule_from(visible_text(lines[m.line_number - 1]), rules, 0) matches Some(first)
            && 0 <= first < rules.len() && rules[first] == (m.before, m.after) && forall|i: int|
            0 <= i < first ==> !contains_sub(
                visible_text(lines[m.line_number - 1]),
                #[trigger] rules[i].0,
            ),
        other == m,
{
    lemma_scan_lines_members(path, lines, rules, lines.len() as int, m);
    lemma_scan_lines_members(path, lines, rules, lines.len() as int, other);
    let k = m.line_number - 1;
    lemma_first_rule_from(visible_text(lines[k]), rules, 0);
}

/// The identities of a scan of files are those of the scans of each file.
pub proof fn lemma_scan_files_identities(
    files: Seq<SourceFileView>,
    rules: Seq<Rule>,
    k: int,
    id: Identity,
)
    requires
        k <= files.len(),
    ensures
        identities(scan_files(files, rules, k)).contains(id) <==> exists|j: int|
            0 <= j < k && identities(scan_file(#[trigger] files[j], rules)).contains(id),
    decreases k,
{
    if k > 0 {
        lemma_scan_files_identities(files, rules, k - 1, id);
        let prev = scan_files(files, rules, k - 1);
        let last = scan_file(files[k - 1], rules);
        let here = scan_files(files, rules, k);
        if identities(here).contains(id) {
            let i = choose|i: int| 0 <= i < here.len() && here[i].identity() == id;
            if i < prev.len() {
                assert(prev[i].identity() == id);
                assert(identities(prev).contains(id));
            } else {
                assert(last[i - prev.len()].identity() == id);
                assert(identities(scan_file(files[k - 1], rules)).contains(id));
            }
        }
        if exists|j: int|
            0 <= j < k && identities(scan_file(#[trigger] files[j], rules)).contains(id) {
            let j = choose|j: int|
                0 <= j < k && identities(scan_file(#[trigger] files[j], rules)).contains(id);
            if j == k - 1 {
                let i = choose|i: int| 0 <= i < last.len() && last[i].identity() == id;
                assert(here[prev.len() + i].identity() == id);
            } else {
                assert(identities(prev).contains(id));
                let i = choose|i: int| 0 <= i < prev.len() && prev[i].identity() == id;
                assert(here[i].identity() == id);
            }
        }
    }
}

/// Discovery does not depend on the order in which the files come: two
/// lists that hold the same files, in any order and any number of times,
/// give the same set of identities. Run twice on the same list, discovery
/// gives the same list of mutants.
pub proof fn lemma_discovery_order_independent(
    first: Seq<SourceFileView>,
    second: Seq<SourceFileView>,
    rules: Seq<Rule>,
)
    requires
        forall|f: SourceFileView| first.contains(f) <==> second.contains(f),
    ensures
        identities(scan_files(first, rules, first.len() as int)) == identities(
            scan_files(second, rules, second.len() as int),
        ),
{
    let left = identities(scan_files(first, rules, first.len() as int));
    let right = identities(scan_files(second, rules, second.len() as int));
    assert forall|id: Identity| left.contains(id) <==> right.contains(id) by {
        lemma_scan_files_identities(first, rules, first.len() as int, id);
        lemma_scan_files_identities(second, rules, second.len() as int, id);
        if left.contains(id) {
            let j = choose|j: int|
                0 <= j < first.len() && identities(scan_file(#[trigger] first[j], rules)).contains(
                    id,
                );
            assert(first.contains(first[j]));
            let j2 = choose|j2: int| 0 <= j2 < second.len() && second[j2] == first[j];
            assert(identities(scan_file(second[j2], rules)).contains(id));
        }
        if right.contains(id) {
            let j = choose|j: int|
                0 <= j < second.len() && identities(
                    scan_file(#[trigger] second[j], rules),
                ).contains(id);
            assert(second.contains(second[j]));
            let j2 = choose|j2: int| 0 <= j2 < first.len() && first[j2] == second[j];
            assert(identities(scan_file(first[j2], rules)).contains(id));
        }
    }
    assert(left =~= right);
}

/// `input` without its quoted spans, so that string literals are not
/// matched by the rules.
pub fn remove_quotes(input: &str) -> (r: String)
    ensures
        r@ == without_quotes(input@),
{
    match regex_replace_all("'[^']*'|\"[^\"]*\"", input, "") {
        Some(rest) => rest,
        None => String::from_str(input),
    }
}

/// The rule that applies to `line`: the first of `replacements` whose
/// trigger occurs in the line once its quoted spans are removed.
pub fn replacement_from_line(line: &str, replacements: &[(String, String)]) -> (r: Option<
    (String, String),
>)
    ensures
        r.deep_view() == matched_rule(without_quotes(line@), replacements.deep_view()),
{
    let visible = remove_quotes(line);
    first_rule_in(visible.as_str(), replacements)
}

/// Whether `line` holds a whole docstring.
fn holds_whole_docstring(line: &Vec<char>) -> (r: bool)
    ensures
        r == is_block_line(line@),
{
    let double = to_chars("\"\"\"");
    let single = to_chars("'''");
    count_matches(line, &double) == 2 || count_matches(line, &single) == 2
}

/// Whether `line` holds a docstring delimiter.
fn holds_delimiter(line: &Vec<char>) -> (r: bool)
    ensures
        r == (contains_sub(line@, "\"\"\""@) || contains_sub(line@, "'''"@)),
{
    let double = to_chars("\"\"\"");
    let single = to_chars("'''");
    contains_chars(line, &double) || contains_chars(line, &single)
}

/// Whether `line` begins with the comment marker.
fn is_comment_line(line: &Vec<char>) -> (r: bool)
    ensures
        r == is_prefix(seq!['#'], line@),
{
    let mut marker: Vec<char> = Vec::new();
    marker.push('#');
    starts_with_chars(line, &marker)
}

/// Whether `path` names a test file, which discovery leaves alone.
pub fn names_test_file(path: &str) -> (r: bool)
    ensures
        r == is_test_file(path@),
{
    let chars = to_chars(path);
    let mut start: usize = chars.len();
    assert(path@.subrange(0, start as int) =~= path@);
    while start > 0 && chars[start - 1] != '/'
        invariant
            start <= chars.len(),
            chars@ == path@,
            name_start(path@) == name_start(path@.subrange(0, start as int)),
        decreases start,
    {
        assert(path@.subrange(0, start as int).drop_last() =~= path@.subrange(0, start - 1));
        start -= 1;
    }
    let name = path.substring_char(start, chars.len());
    let name_chars = to_chars(name);
    let prefix = to_chars("test_");
    let suffix = to_chars("_test.py");
    starts_with_chars(&name_chars, &prefix) || ends_with_chars(&name_chars, &suffix)
}

/// Appends to `mutant_vec` the mutants of the text `content` of the file
/// at `path`: for each line that is scanned, in order, the first of
/// `replacements` that applies to what is visible of it.
pub fn add_mutants_from_file(
    mutant_vec: &mut Vec<Mutant>,
    path: &str,
    content: &str,
    replacements: &[(String, String)],
)
    ensures
        final(mutant_vec).deep_view() == old(mutant_vec).deep_view() + scan_lines(
            path@,
            file_lines(content@),
            replacements.deep_view(),
            file_lines(content@).len() as int,
        ),
{
    let segments = split_text(content);
    proof {
        lemma_split_shape(content@);
    }
    let count = count_lines(&segments);
    let ghost lines = file_lines(content@);
    let ghost rules = replacements.deep_view();
    let ghost prior = mutant_vec.deep_view();
    let mut in_docstring = false;
    let mut k: usize = 0;
    while k < count
        invariant
            k <= count,
            count == lines.len(),
            count <= segments.len(),
            lines == segments.deep_view().subrange(0, count as int),
            rules == replacements.deep_view(),
            in_docstring == docstring_open(lines, k as int),
            mutant_vec.deep_view() == prior + scan_lines(path@, lines, rules, k as int),
        decreases count - k,
    {
        let line = segments[k].as_str();
        let chars = to_chars(line);
        let ghost found = mutant_vec.deep_view();
        let whole = holds_whole_docstring(&chars);
        if !whole && holds_delimiter(&chars) {
            in_docstring = !in_docstring;
        }
        if !whole && !in_docstring && !is_comment_line(&chars) {
            let code = take_before(line, '#');
            match replacement_from_line(code, replacements) {
                Some((before, after)) => {
                    let mutant = Mutant {
                        file_path: String::from_str(path),
                        line_number: k + 1,
                        before,
                        after,
                        original_line: Some(String::from_str(line)),
                        status: MutantStatus::NotRun,
                    };
                    mutant_vec.push(mutant);
                    assert(mutant_vec.deep_view() =~= found.push(mutant@));
                },
                None => {},
            }
        }
        k += 1;
    }
}

/// The catalog of mutants of `files` under `replacements`: file after
/// file, test files and unreadable files left out.
pub fn scan_sources(files: &[SourceFile], replacements: &[(String, String)]) -> (found: Vec<
    Mutant,
>)
    ensures
        found.deep_view() == scan_files(
            files.deep_view(),
            replacements.deep_view(),
            files.len() as int,
        ),
{
    let mut found: Vec<Mutant> = Vec::new();
    let mut k: usize = 0;
    while k < files.len()
        invariant
            k <= files.len(),
            found.deep_view() == scan_files(
                files.deep_view(),
                replacements.deep_view(),
                k as int,
            ),
        decreases files.len() - k,
    {
        let file = &files[k];
        match &file.content {
            Some(text) => {
                if !names_test_file(file.path.as_str()) {
                    add_mutants_from_file(
                        &mut found,
                        file.path.as_str(),
                        text.as_str(),
                        replacements,
                    );
                }
            },
            None => {},
        }
        k += 1;
    }
    found
}

/// Discovery: the mutants that the enabled categories yield in `files`,
/// the files that `glob_expression` matched. An expression that is no
/// well-formed glob pattern is refused, whatever the files.
pub fn find_mutants(
    glob_expression: &str,
    mutation_types: &[MutationType],
    files: &[SourceFile],
) -> (r: Result<Vec<Mutant>, DiscoveryError>)
    ensures
        match r {
            Ok(found) => glob_pattern_valid(glob_expression@) && found.deep_view() == scan_files(
                files.deep_view(),
                active_rules(mutation_types@),
                files.len() as int,
            ),
            Err(e) => !glob_pattern_valid(glob_expression@) && e == DiscoveryError::InvalidGlob,
        },
{
    if !glob_pattern_compiles(glob_expression) {
        return Err(DiscoveryError::InvalidGlob);
    }
    let replacements = build_replacements(mutation_types);
    Ok(scan_sources(files, replacements.as_slice()))
}

} // verus!
