//! The mutant entity: one candidate single-line alteration of a source
//! file, with the operations that patch it into a text and take it out
//! again.

use crate::text::{
    is_prefix, join_lines, join_text, lemma_find_from, lemma_join_split, lemma_split_join,
    lemma_split_shape, newline_free, replace_first, replace_first_in, split_lines, split_text,
    starts_with_chars, to_chars,
};
use crate::decimal::{decimal, format_decimal};
use vstd::prelude::*;

verus! {

/// The last known verdict of the test suite on a mutant.
#[derive(Debug, Copy, Clone, PartialEq, Eq, Structural)]
pub enum MutantStatus {
    /// The mutant has not been run yet.
    NotRun,
    /// The test suite failed on the mutant: the fault was detected.
    Caught,
    /// The test suite passed on the mutant: the fault went undetected.
    Missed,
}

/// One candidate fault: in file `file_path`, on line `line_number` (counted
/// from 1), `before` is replaced by `after`.
#[derive(Debug, PartialEq, Eq)]
pub struct Mutant {
    /// Path of the file that can be mutated.
    pub file_path: String,
    /// Number of the line to mutate, counted from 1.
    pub line_number: usize,
    /// The text that is replaced.
    pub before: String,
    /// The text that replaces it.
    pub after: String,
    /// The line as it stood when the mutant was found; `None` where it was
    /// not captured, as for a mutant read back from a cache.
    pub original_line: Option<String>,
    /// The last known verdict.
    pub status: MutantStatus,
}

/// The mathematical value of a `Mutant`.
pub struct MutantView {
    pub file_path: Seq<char>,
    pub line_number: nat,
    pub before: Seq<char>,
    pub after: Seq<char>,
    pub original_line: Option<Seq<char>>,
    pub status: MutantStatus,
}

/// What identifies a mutant: file, line, trigger and replacement. The
/// status and the captured line are no part of it.
pub type Identity = (Seq<char>, nat, Seq<char>, Seq<char>);

impl MutantView {
    /// The identity of the mutant.
    pub open spec fn identity(self) -> Identity {
        (self.file_path, self.line_number, self.before, self.after)
    }

    /// The same mutant with another status.
    pub open spec fn with_status(self, status: MutantStatus) -> MutantView {
        MutantView { status, ..self }
    }
}

impl View for Mutant {
    type V = MutantView;

    open spec fn view(&self) -> MutantView {
        MutantView {
            file_path: self.file_path@,
            line_number: self.line_number as nat,
            before: self.before@,
            after: self.after@,
            original_line: match self.original_line {
                Some(line) => Some(line@),
                None => None,
            },
            status: self.status,
        }
    }
}

impl DeepView for Mutant {
    type V = MutantView;

    open spec fn deep_view(&self) -> MutantView {
        self@
    }
}

impl Clone for Mutant {
    fn clone(&self) -> (copy: Self)
        ensures
            copy@ == self@,
    {
        Mutant {
            file_path: self.file_path.clone(),
            line_number: self.line_number,
            before: self.before.clone(),
            after: self.after.clone(),
            original_line: match &self.original_line {
                Some(line) => Some(line.clone()),
                None => None,
            },
            status: self.status,
        }
    }
}

/// Whether a mutant of identity `id` stands in `mutants`.
pub open spec fn has_identity(mutants: Seq<MutantView>, id: Identity) -> bool {
    exists|i: int| 0 <= i < mutants.len() && #[trigger] mutants[i].identity() == id
}

/// The identities that occur in a list of mutants.
pub open spec fn identities(mutants: Seq<MutantView>) -> Set<Identity> {
    Set::new(|id: Identity| has_identity(mutants, id))
}

/// No two mutants of `mutants` share an identity.
pub open spec fn distinct_identities(mutants: Seq<MutantView>) -> bool {
    forall|i: int, j: int|
        0 <= i < j < mutants.len() ==> #[trigger] mutants[i].identity()
            != #[trigger] mutants[j].identity()
}

/// Why a mutant could not be patched into a text or taken out of it.
#[derive(Debug, Copy, Clone, PartialEq, Eq, Structural)]
pub enum PatchError {
    /// The text has no line of the mutant's number.
    LineOutOfRange,
    /// The mutant carries no captured line to restore.
    LineNotCaptured,
    /// The mutant's file does not lie under the given root.
    NotUnderRoot,
}

/// A patched text and the path of the file it belongs in.
#[derive(Debug, PartialEq, Eq)]
pub struct PatchedFile {
    pub path: String,
    pub content: String,
}

/// The number of lines of a text: its newline-separated segments, the
/// last one not counted where it is empty (a text that ends in a newline,
/// or an empty text).
pub open spec fn line_count(content: Seq<char>) -> nat {
    let segments = split_lines(content);
    if segments.last().len() == 0 {
        (segments.len() - 1) as nat
    } else {
        segments.len()
    }
}

/// The lines of a text. A carriage return before a newline belongs to its
/// line.
pub open spec fn file_lines(content: Seq<char>) -> Seq<Seq<char>> {
    split_lines(content).subrange(0, line_count(content) as int)
}

/// `content` with line `line_number` replaced by `line`, every other
/// character kept; `None` where the text has no such line.
pub open spec fn with_line(content: Seq<char>, line_number: nat, line: Seq<char>) -> Option<
    Seq<char>,
> {
    if 1 <= line_number <= line_count(content) {
        Some(join_lines(split_lines(content).update(line_number - 1, line)))
    } else {
        None
    }
}

/// The line that the mutant leaves in place of `line`: the first
/// occurrence of its trigger replaced.
pub open spec fn mutated_line(m: MutantView, line: Seq<char>) -> Seq<char> {
    replace_first(line, m.before, m.after)
}

/// `content` with the mutant applied.
pub open spec fn applied(m: MutantView, content: Seq<char>) -> Option<Seq<char>> {
    if 1 <= m.line_number <= line_count(content) {
        with_line(
            content,
            m.line_number,
            mutated_line(m, split_lines(content)[m.line_number - 1]),
        )
    } else {
        None
    }
}

/// `content` with the mutant's line set back to the captured one.
pub open spec fn reverted(m: MutantView, content: Seq<char>) -> Option<Seq<char>> {
    match m.original_line {
        Some(line) => with_line(content, m.line_number, line),
        None => None,
    }
}

/// The directory `root` as a prefix of the paths below it: with one
/// separator at its end.
pub open spec fn directory_prefix(root: Seq<char>) -> Seq<char> {
    if root.len() > 0 && root.last() == '/' {
        root
    } else {
        root.push('/')
    }
}

/// The path of `path` relative to the directory `root`, where `path` lies
/// below it. Paths are compared as text, with `/` as the separator.
pub open spec fn relative_to(path: Seq<char>, root: Seq<char>) -> Option<Seq<char>> {
    let prefix = directory_prefix(root);
    if is_prefix(prefix, path) && prefix.len() < path.len() {
        Some(path.subrange(prefix.len() as int, path.len() as int))
    } else {
        None
    }
}

/// The path of the mutant's file in a copy of the tree `root` that stands
/// at `new_root`.
pub open spec fn relocated(path: Seq<char>, root: Seq<char>, new_root: Seq<char>) -> Option<
    Seq<char>,
> {
    match relative_to(path, root) {
        Some(rest) => Some(directory_prefix(new_root) + rest),
        None => None,
    }
}

/// The sentence that describes a mutant.
pub open spec fn description(m: MutantView) -> Seq<char> {
    m.before + " replaced by "@ + m.after + " in file "@ + m.file_path + " on line "@ + decimal(
        m.line_number,
    )
}

/// The result of patching line `line_number` of `content`.
pub open spec fn patch_result(patched: Option<Seq<char>>) -> Result<Seq<char>, PatchError> {
    match patched {
        Some(text) => Ok(text),
        None => Err(PatchError::LineOutOfRange),
    }
}

/// The view of a patch result.
pub open spec fn result_view(r: Result<String, PatchError>) -> Result<Seq<char>, PatchError> {
    match r {
        Ok(text) => Ok(text@),
        Err(e) => Err(e),
    }
}

/// Replacing within a newline-free line by newline-free text leaves the
/// line newline-free.
pub proof fn lemma_replace_newline_free(line: Seq<char>, before: Seq<char>, after: Seq<char>)
    requires
        newline_free(line),
        newline_free(after),
    ensures
        newline_free(replace_first(line, before, after)),
{
    lemma_find_from(line, before, 0);
}

/// Setting a line of a text and then setting it back restores the text:
/// for a text `content` with a line `line_number`, and a newline-free
/// `line` that does not leave the text one line shorter (an empty last
/// line of a text without a final newline would), putting `line` there
/// and then the former line again gives `content`.
pub proof fn lemma_set_line_twice(content: Seq<char>, line_number: nat, line: Seq<char>)
    requires
        1 <= line_number <= line_count(content),
        newline_free(line),
        line.len() > 0 || line_number < split_lines(content).len(),
    ensures
        with_line(content, line_number, line) is Some,
        with_line(
            with_line(content, line_number, line)->0,
            line_number,
            split_lines(content)[line_number - 1],
        ) == Some(content),
{
    let segments = split_lines(content);
    let k = line_number - 1;
    lemma_split_shape(content);
    let changed = segments.update(k, line);
    assert forall|j: int| 0 <= j < changed.len() implies newline_free(#[trigger] changed[j]) by {
        if j != k {
            assert(changed[j] == segments[j]);
        }
    }
    lemma_split_join(changed);
    assert(changed.update(k, segments[k]) =~= segments);
    lemma_join_split(content);
}

/// Applying a mutant to a text and reverting it restores the text exactly.
/// This holds for a mutant whose captured line is the line of its number
/// in `content`, provided that the mutated line holds no newline and that
/// the text does not lose its last line by it.
pub proof fn lemma_apply_then_revert(m: MutantView, content: Seq<char>)
    requires
        1 <= m.line_number <= line_count(content),
        m.original_line == Some(split_lines(content)[m.line_number - 1]),
        newline_free(mutated_line(m, split_lines(content)[m.line_number - 1])),
        mutated_line(m, split_lines(content)[m.line_number - 1]).len() > 0 || m.line_number
            < split_lines(content).len(),
    ensures
        applied(m, content) is Some,
        reverted(m, applied(m, content)->0) == Some(content),
{
    lemma_set_line_twice(
        content,
        m.line_number,
        mutated_line(m, split_lines(content)[m.line_number - 1]),
    );
}

/// For a mutant whose replacement holds no newline, as those of the
/// rules do, applying and reverting restores the text, unless the mutant
/// empties the last line of a text that has no final newline.
pub proof fn lemma_apply_then_revert_plain(m: MutantView, content: Seq<char>)
    requires
        1 <= m.line_number <= line_count(content),
        m.original_line == Some(split_lines(content)[m.line_number - 1]),
        newline_free(m.after),
        mutated_line(m, split_lines(content)[m.line_number - 1]).len() > 0 || m.line_number
            < split_lines(content).len(),
    ensures
        applied(m, content) is Some,
        reverted(m, applied(m, content)->0) == Some(content),
{
    lemma_split_shape(content);
    lemma_replace_newline_free(split_lines(content)[m.line_number - 1], m.before, m.after);
    lemma_apply_then_revert(m, content);
}

/// The number of lines of a text already split into `segments`.
pub(crate) fn count_lines(segments: &Vec<String>) -> (n: usize)
    requires
        segments.len() >= 1,
    ensures
        n == if segments.deep_view().last().len() == 0 {
            segments.len() - 1
        } else {
            segments.len() as int
        },
{
    let last = segments.len() - 1;
    if segments[last].as_str().unicode_len() == 0 {
        last
    } else {
        segments.len()
    }
}

/// `content` with line `line_number` replaced by what `mutant` makes of
/// it (`restore` unset), or by `line` (`restore` set).
fn patch_line(content: &str, line_number: usize, mutant: &Mutant, restore: Option<&String>) -> (r:
    Result<String, PatchError>)
    ensures
        result_view(r) == patch_result(
            match restore {
                Some(line) => with_line(content@, line_number as nat, line@),
                None => if 1 <= line_number <= line_count(content@) {
                    with_line(
                        content@,
                        line_number as nat,
                        mutated_line(mutant@, split_lines(content@)[line_number - 1]),
                    )
                } else {
                    None
                },
            },
        ),
{
    let mut segments = split_text(content);
    proof {
        lemma_split_shape(content@);
    }
    let count = count_lines(&segments);
    if line_number < 1 || line_number > count {
        return Err(PatchError::LineOutOfRange);
    }
    let k: usize = line_number - 1;
    let ghost before_update = segments.deep_view();
    let line = match restore {
        Some(line) => line.clone(),
        None => {
            replace_first_in(segments[k].as_str(), mutant.before.as_str(), mutant.after.as_str())
        },
    };
    segments.set(k, line);
    assert(segments.deep_view() =~= before_update.update(k as int, line@));
    Ok(join_text(&segments))
}

/// The directory `root` with one separator at its end.
pub(crate) fn with_separator(root: &str) -> (r: String)
    ensures
        r@ == directory_prefix(root@),
{
    let n = root.unicode_len();
    let mut r = String::from_str(root);
    if n == 0 || root.get_char(n - 1) != '/' {
        r.append("/");
        proof {
            reveal_strlit("/");
        }
    }
    r
}

impl Mutant {
    /// A freshly found mutant: not run yet, with its line captured.
    pub fn new(
        file_path: &str,
        line_number: usize,
        before: &str,
        after: &str,
        original_line: &str,
    ) -> (m: Mutant)
        ensures
            m@ == (MutantView {
                file_path: file_path@,
                line_number: line_number as nat,
                before: before@,
                after: after@,
                original_line: Some(original_line@),
                status: MutantStatus::NotRun,
            }),
    {
        Mutant {
            file_path: String::from_str(file_path),
            line_number,
            before: String::from_str(before),
            after: String::from_str(after),
            original_line: Some(String::from_str(original_line)),
            status: MutantStatus::NotRun,
        }
    }

    /// Whether the mutant carries the line to restore, so that it can be
    /// reverted after it was applied in place.
    pub fn has_captured_line(&self) -> (r: bool)
        ensures
            r == self@.original_line is Some,
    {
        self.original_line.is_some()
    }

    /// The mutant in words: what is replaced by what, in which file and on
    /// which line.
    pub fn describe(&self) -> (r: String)
        ensures
            r@ == description(self@),
    {
        let mut r = self.before.clone();
        r.append(" replaced by ");
        r.append(self.after.as_str());
        r.append(" in file ");
        r.append(self.file_path.as_str());
        r.append(" on line ");
        r.append(format_decimal(self.line_number).as_str());
        r
    }

    /// The text of the mutant's file with the mutant in it: on the line of
    /// its number the first occurrence of `before` is replaced by `after`,
    /// and every other character of `content` is kept, the final newline
    /// too. Fails where `content` has no such line.
    pub fn insert(&self, content: &str) -> (r: Result<String, PatchError>)
        ensures
            result_view(r) == patch_result(applied(self@, content@)),
    {
        patch_line(content, self.line_number, self, None)
    }

    /// The text of the mutant's file with the line of its number set back
    /// to the captured line. Fails where no line was captured, or where
    /// `content` has no such line.
    pub fn remove(&self, content: &str) -> (r: Result<String, PatchError>)
        ensures
            result_view(r) == match self@.original_line {
                Some(line) => patch_result(reverted(self@, content@)),
                None => Err(PatchError::LineNotCaptured),
            },
    {
        match &self.original_line {
            Some(line) => patch_line(content, self.line_number, self, Some(line)),
            None => Err(PatchError::LineNotCaptured),
        }
    }

    /// The path of the mutant's file in a copy of the tree `root` that
    /// stands at `new_root`. Fails where the file does not lie under
    /// `root`.
    pub fn path_in_new_root(&self, root: &str, new_root: &str) -> (r: Result<String, PatchError>)
        ensures
            result_view(r) == match relocated(self@.file_path, root@, new_root@) {
                Some(path) => Ok(path),
                None => Err(PatchError::NotUnderRoot),
            },
    {
        let prefix = with_separator(root);
        let prefix_chars = to_chars(prefix.as_str());
        let path_chars = to_chars(self.file_path.as_str());
        if !starts_with_chars(&path_chars, &prefix_chars) || prefix_chars.len()
            >= path_chars.len() {
            return Err(PatchError::NotUnderRoot);
        }
        let mut target = with_separator(new_root);
        target.append(self.file_path.as_str().substring_char(prefix_chars.len(), path_chars.len()));
        Ok(target)
    }

    /// The mutant applied in a copy of the project: the path of its file
    /// under `new_root`, and the text of that file, `content`, with the
    /// mutant in it. Fails where the file does not lie under `root`, and
    /// then where `content` has no line of the mutant's number.
    pub fn insert_in_new_root(&self, root: &str, new_root: &str, content: &str) -> (r: Result<
        PatchedFile,
        PatchError,
    >)
        ensures
            match relocated(self@.file_path, root@, new_root@) {
                None => r == Err::<PatchedFile, PatchError>(PatchError::NotUnderRoot),
                Some(path) => match applied(self@, content@) {
                    None => r == Err::<PatchedFile, PatchError>(PatchError::LineOutOfRange),
                    Some(text) => r is Ok && r->Ok_0.path@ == path && r->Ok_0.content@ == text,
                },
            },
    {
        match self.path_in_new_root(root, new_root) {
            Err(e) => Err(e),
            Ok(path) => match self.insert(content) {
                Err(e) => Err(e),
                Ok(text) => Ok(PatchedFile { path, content: text }),
            },
        }
    }
}

} // verus!
