//! Text primitives over character sequences: substring search, replacement
//! of a first occurrence, counting of non-overlapping matches, and an exact
//! split of a text into the segments between its newline characters.

use vstd::prelude::*;

verus! {

/// `needle` stands in `hay` at index `i`.
pub open spec fn occurs_at(hay: Seq<char>, needle: Seq<char>, i: int) -> bool {
    0 <= i && i + needle.len() <= hay.len() && hay.subrange(i, i + needle.len()) == needle
}

/// `needle` stands somewhere in `hay`.
pub open spec fn contains_sub(hay: Seq<char>, needle: Seq<char>) -> bool {
    exists|i: int| occurs_at(hay, needle, i)
}

/// The least index at or after `from` at which `needle` stands in `hay`.
pub open spec fn find_from(hay: Seq<char>, needle: Seq<char>, from: int) -> Option<int>
    decreases hay.len() + 1 - from,
{
    if from < 0 || from + needle.len() > hay.len() {
        None
    } else if occurs_at(hay, needle, from) {
        Some(from)
    } else {
        find_from(hay, needle, from + 1)
    }
}

/// `hay` with the first occurrence of `before` replaced by `after`; `hay`
/// itself where `before` does not occur.
pub open spec fn replace_first(hay: Seq<char>, before: Seq<char>, after: Seq<char>) -> Seq<char> {
    match find_from(hay, before, 0) {
        Some(i) => hay.subrange(0, i) + after + hay.subrange(i + before.len(), hay.len() as int),
        None => hay,
    }
}

/// The number of non-overlapping occurrences of `needle` in `hay` at or
/// after `from`, counted from the left. An empty needle counts as absent.
pub open spec fn count_from(hay: Seq<char>, needle: Seq<char>, from: int) -> nat
    decreases hay.len() - from,
{
    match find_from(hay, needle, from) {
        Some(i) => if from <= i && i + needle.len() <= hay.len() && needle.len() > 0 {
            1 + count_from(hay, needle, i + needle.len())
        } else {
            0
        },
        None => 0,
    }
}

/// `prefix` stands at the start of `s`.
pub open spec fn is_prefix(prefix: Seq<char>, s: Seq<char>) -> bool {
    prefix.len() <= s.len() && s.subrange(0, prefix.len() as int) == prefix
}

/// `suffix` stands at the end of `s`.
pub open spec fn is_suffix(suffix: Seq<char>, s: Seq<char>) -> bool {
    suffix.len() <= s.len() && s.subrange(s.len() - suffix.len(), s.len() as int) == suffix
}

/// The part of `s` before the first `c`; all of `s` where `c` is absent.
pub open spec fn prefix_before(s: Seq<char>, c: char) -> Seq<char> {
    match find_from(s, seq![c], 0) {
        Some(i) => s.subrange(0, i),
        None => s,
    }
}

/// The segments of `s` between its newline characters. A text with `n`
/// newlines has `n + 1` segments; none of them holds a newline.
pub open spec fn split_lines(s: Seq<char>) -> Seq<Seq<char>>
    decreases s.len(),
{
    if s.len() == 0 {
        seq![Seq::<char>::empty()]
    } else {
        let head = split_lines(s.drop_last());
        if s.last() == '\n' {
            head.push(Seq::<char>::empty())
        } else {
            head.drop_last().push(head.last().push(s.last()))
        }
    }
}

/// The segments joined again, one newline between two neighbours.
pub open spec fn join_lines(lines: Seq<Seq<char>>) -> Seq<char>
    decreases lines.len(),
{
    if lines.len() == 0 {
        Seq::<char>::empty()
    } else if lines.len() == 1 {
        lines[0]
    } else {
        join_lines(lines.drop_last()) + seq!['\n'] + lines.last()
    }
}

/// No newline character in `s`.
pub open spec fn newline_free(s: Seq<char>) -> bool {
    forall|i: int| 0 <= i < s.len() ==> s[i] != '\n'
}

/// No newline character in any of `lines`.
pub open spec fn all_newline_free(lines: Seq<Seq<char>>) -> bool {
    forall|k: int| 0 <= k < lines.len() ==> newline_free(#[trigger] lines[k])
}

/// What `find_from` returns is an occurrence, and the first one from `from`.
pub proof fn lemma_find_from(hay: Seq<char>, needle: Seq<char>, from: int)
    requires
        0 <= from,
    ensures
        match find_from(hay, needle, from) {
            Some(i) => from <= i && occurs_at(hay, needle, i) && forall|j: int|
                from <= j < i ==> !occurs_at(hay, needle, j),
            None => forall|j: int| from <= j ==> !occurs_at(hay, needle, j),
        },
    decreases hay.len() + 1 - from,
{
    if from + needle.len() <= hay.len() && !occurs_at(hay, needle, from) {
        lemma_find_from(hay, needle, from + 1);
    }
}

/// Searching from the start finds something exactly where `needle` occurs.
pub proof fn lemma_find_contains(hay: Seq<char>, needle: Seq<char>)
    ensures
        find_from(hay, needle, 0) is Some <==> contains_sub(hay, needle),
{
    lemma_find_from(hay, needle, 0);
}

/// A split has at least one segment, and no segment holds a newline.
pub proof fn lemma_split_shape(s: Seq<char>)
    ensures
        split_lines(s).len() >= 1,
        all_newline_free(split_lines(s)),
    decreases s.len(),
{
    if s.len() > 0 {
        lemma_split_shape(s.drop_last());
        let head = split_lines(s.drop_last());
        let out = split_lines(s);
        assert forall|k: int| 0 <= k < out.len() implies newline_free(#[trigger] out[k]) by {
            if k < out.len() - 1 {
                assert(out[k] == head[k]);
            }
        }
    }
}

/// Joining the segments of a text gives the text back.
pub proof fn lemma_join_split(s: Seq<char>)
    ensures
        join_lines(split_lines(s)) == s,
    decreases s.len(),
{
    if s.len() > 0 {
        let t = s.drop_last();
        lemma_join_split(t);
        lemma_split_shape(t);
        let head = split_lines(t);
        let out = split_lines(s);
        if s.last() == '\n' {
            assert(out.drop_last() =~= head);
        } else if head.len() > 1 {
            assert(out.drop_last() =~= head.drop_last());
            assert(join_lines(out) =~= join_lines(head).push(s.last()));
        }
    }
}

/// Appending newline-free text to a text extends its last segment.
pub proof fn lemma_split_append(s: Seq<char>, tail: Seq<char>)
    requires
        newline_free(tail),
    ensures
        split_lines(s).len() >= 1,
        split_lines(s + tail) == split_lines(s).drop_last().push(split_lines(s).last() + tail),
    decreases tail.len(),
{
    lemma_split_shape(s);
    let base = split_lines(s);
    if tail.len() > 0 {
        let shorter = tail.drop_last();
        lemma_split_append(s, shorter);
        let whole = s + tail;
        assert(whole.drop_last() =~= s + shorter);
        let mid = split_lines(s + shorter);
        assert(mid.last().push(tail.last()) =~= base.last() + tail);
    }
}

/// Splitting a join of newline-free segments gives the segments back.
pub proof fn lemma_split_join(lines: Seq<Seq<char>>)
    requires
        lines.len() >= 1,
        all_newline_free(lines),
    ensures
        split_lines(join_lines(lines)) == lines,
    decreases lines.len(),
{
    if lines.len() == 1 {
        let empty = Seq::<char>::empty();
        lemma_split_append(empty, lines[0]);
    } else {
        let front = lines.drop_last();
        assert forall|k: int| 0 <= k < front.len() implies newline_free(#[trigger] front[k]) by {
            assert(front[k] == lines[k]);
        }
        lemma_split_join(front);
        let a = join_lines(front) + seq!['\n'];
        assert(a.drop_last() =~= join_lines(front));
        lemma_split_append(a, lines.last());
    }
}

/// The characters of `s`, in order.
pub fn to_chars(s: &str) -> (v: Vec<char>)
    ensures
        v@ == s@,
{
    let mut v: Vec<char> = Vec::new();
    for c in it: s.chars()
        invariant
            it.seq() == s@,
            v@ == s@.subrange(0, it.index() as int),
    {
        v.push(c);
    }
    v
}

/// Whether `needle` stands in `hay` at index `i`.
pub fn matches_at(hay: &Vec<char>, needle: &Vec<char>, i: usize) -> (r: bool)
    ensures
        r == occurs_at(hay@, needle@, i as int),
{
    if needle.len() > hay.len() || i > hay.len() - needle.len() {
        return false;
    }
    let mut k: usize = 0;
    while k < needle.len()
        invariant
            k <= needle.len(),
            i + needle.len() <= hay.len(),
            forall|j: int| 0 <= j < k ==> hay@[i + j] == needle@[j],
        decreases needle.len() - k,
    {
        if hay[i + k] != needle[k] {
            return false;
        }
        k += 1;
    }
    assert(hay@.subrange(i as int, i + needle.len()) =~= needle@);
    true
}

/// Whether `prefix` stands at the start of `s`.
pub fn starts_with_chars(s: &Vec<char>, prefix: &Vec<char>) -> (r: bool)
    ensures
        r == is_prefix(prefix@, s@),
{
    matches_at(s, prefix, 0)
}

/// Whether `suffix` stands at the end of `s`.
pub fn ends_with_chars(s: &Vec<char>, suffix: &Vec<char>) -> (r: bool)
    ensures
        r == is_suffix(suffix@, s@),
{
    if suffix.len() > s.len() {
        return false;
    }
    matches_at(s, suffix, s.len() - suffix.len())
}

/// The first index at or after `from` at which `needle` stands in `hay`.
pub fn find_chars(hay: &Vec<char>, needle: &Vec<char>, from: usize) -> (r: Option<usize>)
    ensures
        match r {
            Some(i) => find_from(hay@, needle@, from as int) == Some(i as int),
            None => find_from(hay@, needle@, from as int) is None,
        },
{
    if needle.len() > hay.len() || from > hay.len() - needle.len() {
        return None;
    }
    let last: usize = hay.len() - needle.len();
    let mut i: usize = from;
    loop
        invariant
            from <= i <= last,
            last == hay.len() - needle.len(),
            find_from(hay@, needle@, from as int) == find_from(hay@, needle@, i as int),
        decreases last - i,
    {
        if matches_at(hay, needle, i) {
            return Some(i);
        }
        if i == last {
            assert(find_from(hay@, needle@, i + 1) is None);
            return None;
        }
        i += 1;
    }
}

/// Whether `needle` occurs in `hay`.
pub fn contains_chars(hay: &Vec<char>, needle: &Vec<char>) -> (r: bool)
    ensures
        r == contains_sub(hay@, needle@),
{
    proof {
        lemma_find_contains(hay@, needle@);
    }
    find_chars(hay, needle, 0).is_some()
}

/// The number of non-overlapping occurrences of `needle` in `hay`.
pub fn count_matches(hay: &Vec<char>, needle: &Vec<char>) -> (r: usize)
    ensures
        r == count_from(hay@, needle@, 0),
{
    if needle.len() == 0 {
        return 0;
    }
    let mut count: usize = 0;
    let mut from: usize = 0;
    loop
        invariant
            needle.len() > 0,
            from <= hay.len(),
            count <= from,
            count_from(hay@, needle@, 0) == count + count_from(hay@, needle@, from as int),
        decreases hay.len() - from,
    {
        match find_chars(hay, needle, from) {
            Some(i) => {
                proof {
                    lemma_find_from(hay@, needle@, from as int);
                }
                count += 1;
                from = i + needle.len();
            },
            None => {
                return count;
            },
        }
    }
}

/// `hay` with the first occurrence of `before` replaced by `after`.
pub fn replace_first_in(hay: &str, before: &str, after: &str) -> (r: String)
    ensures
        r@ == replace_first(hay@, before@, after@),
{
    let hay_chars = to_chars(hay);
    let before_chars = to_chars(before);
    match find_chars(&hay_chars, &before_chars, 0) {
        Some(i) => {
            proof {
                lemma_find_from(hay@, before@, 0);
            }
            let total: usize = hay_chars.len();
            let end: usize = i + before_chars.len();
            let mut out = String::from_str(hay.substring_char(0, i));
            out.append(after);
            out.append(hay.substring_char(end, total));
            out
        },
        None => String::from_str(hay),
    }
}

/// The part of `s` before the first `c`.
pub fn take_before<'a>(s: &'a str, c: char) -> (r: &'a str)
    ensures
        r@ == prefix_before(s@, c),
{
    let chars = to_chars(s);
    let mut needle: Vec<char> = Vec::new();
    needle.push(c);
    match find_chars(&chars, &needle, 0) {
        Some(i) => {
            proof {
                lemma_find_from(s@, seq![c], 0);
            }
            s.substring_char(0, i)
        },
        None => s,
    }
}

/// The segments of `content` between its newline characters.
pub fn split_text(content: &str) -> (lines: Vec<String>)
    ensures
        lines.deep_view() == split_lines(content@),
{
    let chars = to_chars(content);
    let mut lines: Vec<String> = Vec::new();
    let mut start: usize = 0;
    let mut i: usize = 0;
    assert(content@.subrange(0, 0) =~= Seq::<char>::empty());
    while i < chars.len()
        invariant
            chars@ == content@,
            start <= i <= chars.len(),
            lines.deep_view().push(content@.subrange(start as int, i as int)) == split_lines(
                content@.subrange(0, i as int),
            ),
        decreases chars.len() - i,
    {
        let ghost upto = content@.subrange(0, i + 1);
        proof {
            assert(upto.drop_last() =~= content@.subrange(0, i as int));
        }
        if chars[i] == '\n' {
            lines.push(String::from_str(content.substring_char(start, i)));
            proof {
                assert(content@.subrange(i + 1, i + 1) =~= Seq::<char>::empty());
            }
            start = i + 1;
        } else {
            proof {
                let head = split_lines(upto.drop_last());
                assert(head.last().push(upto.last()) =~= content@.subrange(
                    start as int,
                    i + 1,
                ));
            }
        }
        i += 1;
    }
    lines.push(String::from_str(content.substring_char(start, i)));
    proof {
        assert(content@.subrange(0, i as int) =~= content@);
    }
    lines
}

/// The segments joined again, one newline between two neighbours.
pub fn join_text(lines: &Vec<String>) -> (content: String)
    ensures
        content@ == join_lines(lines.deep_view()),
{
    let mut content = String::new();
    let mut k: usize = 0;
    while k < lines.len()
        invariant
            k <= lines.len(),
            content@ == join_lines(lines.deep_view().subrange(0, k as int)),
        decreases lines.len() - k,
    {
        let ghost next = lines.deep_view().subrange(0, k + 1);
        proof {
            assert(next.drop_last() =~= lines.deep_view().subrange(0, k as int));
        }
        if k > 0 {
            content.append("\n");
            proof {
                reveal_strlit("\n");
            }
        }
        content.append(lines[k].as_str());
        k += 1;
    }
    assert(lines.deep_view().subrange(0, k as int) =~= lines.deep_view());
    content
}

} // verus!
