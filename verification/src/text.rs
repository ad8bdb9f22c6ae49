//! Texts as sequences of characters: searching them and comparing them.

use vstd::prelude::*;
use vstd::slice::{slice_subrange, slice_to_vec};

verus! {

/// Whether `needle` stands in `text` at position `at`.
pub open spec fn occurs_at(text: Seq<char>, needle: Seq<char>, at: int) -> bool {
    &&& 0 <= at
    &&& at + needle.len() <= text.len()
    &&& text.subrange(at, at + needle.len()) == needle
}

/// Whether `needle` stands somewhere in `text`.
pub open spec fn occurs_in(text: Seq<char>, needle: Seq<char>) -> bool {
    exists|at: int| occurs_at(text, needle, at)
}

/// Whether `at` is the last position at which `needle` stands in `text`.
pub open spec fn is_last_occurrence(text: Seq<char>, needle: Seq<char>, at: int) -> bool {
    &&& occurs_at(text, needle, at)
    &&& forall|later: int| at < later ==> !occurs_at(text, needle, later)
}

/// Whether `at` is the first position of `text` that holds the character
/// `c`.
pub open spec fn is_first_index_of(text: Seq<char>, c: char, at: int) -> bool {
    &&& 0 <= at < text.len()
    &&& text[at] == c
    &&& forall|earlier: int| 0 <= earlier < at ==> text[earlier] != c
}

/// Whether `at` is the last position of `text` that holds the character `c`.
pub open spec fn is_last_index_of(text: Seq<char>, c: char, at: int) -> bool {
    &&& 0 <= at < text.len()
    &&& text[at] == c
    &&& forall|later: int| at < later < text.len() ==> text[later] != c
}

/// The part of `text` behind the last `c`, or all of `text` where it holds
/// no `c`.
pub open spec fn after_last(text: Seq<char>, c: char) -> Seq<char> {
    if text.contains(c) {
        text.skip((choose|at: int| is_last_index_of(text, c, at)) + 1)
    } else {
        text
    }
}

/// The part of `text` in front of the first `c`, or all of `text` where it
/// holds no `c`.
pub open spec fn before_first(text: Seq<char>, c: char) -> Seq<char> {
    if text.contains(c) {
        text.take(choose|at: int| is_first_index_of(text, c, at))
    } else {
        text
    }
}

/// Whether `a` comes before `b` in the order of the dictionary, characters
/// compared by their code points: at the first place where the two differ `a`
/// has the smaller character, or `a` ends there and `b` goes on.
pub open spec fn comes_before(a: Seq<char>, b: Seq<char>) -> bool
    decreases a.len(),
{
    if b.len() == 0 {
        false
    } else if a.len() == 0 {
        true
    } else if a[0] != b[0] {
        (a[0] as int) < (b[0] as int)
    } else {
        comes_before(a.drop_first(), b.drop_first())
    }
}

/// No text comes before itself.
pub proof fn lemma_order_irreflexive(a: Seq<char>)
    ensures
        !comes_before(a, a),
    decreases a.len(),
{
    if a.len() > 0 {
        lemma_order_irreflexive(a.drop_first());
    }
}

/// The order is transitive.
pub proof fn lemma_order_transitive(a: Seq<char>, b: Seq<char>, c: Seq<char>)
    requires
        comes_before(a, b),
        comes_before(b, c),
    ensures
        comes_before(a, c),
    decreases a.len(),
{
    if a.len() > 0 && a[0] == b[0] && b[0] == c[0] {
        lemma_order_transitive(a.drop_first(), b.drop_first(), c.drop_first());
    }
}

/// Where neither `a` comes before `b` nor `b` before `c`, `a` does not come
/// before `c`: the order is total.
pub proof fn lemma_order_total(a: Seq<char>, b: Seq<char>, c: Seq<char>)
    requires
        !comes_before(a, b),
        !comes_before(b, c),
    ensures
        !comes_before(a, c),
    decreases a.len(),
{
    if a.len() > 0 && b.len() > 0 && c.len() > 0 && a[0] == b[0] && b[0] == c[0] {
        lemma_order_total(a.drop_first(), b.drop_first(), c.drop_first());
    }
}

/// Tells whether two texts are the same text.
pub fn same_text(a: &str, b: &str) -> (same: bool)
    ensures
        same == (a@ == b@),
{
    let left = a.to_owned();
    let right = b.to_owned();
    left == right
}

/// The characters of a text, one after the other.
pub fn chars_of(text: &str) -> (chars: Vec<char>)
    ensures
        chars@ == text@,
{
    let mut chars: Vec<char> = Vec::new();
    for c in it: text.chars()
        invariant
            it.seq() == text@,
            chars@ == it.seq().take(it.index() as int),
    {
        chars.push(c);
        assert(it.seq().take(it.index() + 1) =~= it.seq().take(it.index() as int).push(c));
    }
    assert(text@.take(text@.len() as int) =~= text@);
    chars
}

/// Tells whether `needle` stands in `text` at position `at`.
pub fn matches_at(text: &[char], needle: &[char], at: usize) -> (found: bool)
    ensures
        found == occurs_at(text@, needle@, at as int),
{
    if needle.len() > text.len() || at > text.len() - needle.len() {
        return false;
    }
    let mut i: usize = 0;
    while i < needle.len()
        invariant
            i <= needle@.len(),
            at + needle@.len() <= text@.len(),
            text@.len() <= usize::MAX,
            forall|k: int| 0 <= k < i ==> text@[at + k] == needle@[k],
        decreases needle@.len() - i,
    {
        if text[at + i] != needle[i] {
            assert(text@.subrange(at as int, at + needle@.len())[i as int] != needle@[i as int]);
            return false;
        }
        i += 1;
    }
    assert(text@.subrange(at as int, at + needle@.len()) =~= needle@);
    true
}

/// Tells whether `needle` stands somewhere in `text`.
pub fn contains_text(text: &[char], needle: &[char]) -> (found: bool)
    ensures
        found == occurs_in(text@, needle@),
{
    if needle.len() > text.len() {
        return false;
    }
    let last: usize = text.len() - needle.len();
    let mut at: usize = 0;
    loop
        invariant
            at <= last,
            last == text@.len() - needle@.len(),
            forall|k: int| 0 <= k < at ==> !occurs_at(text@, needle@, k),
        decreases last - at,
    {
        if matches_at(text, needle, at) {
            return true;
        }
        if at == last {
            return false;
        }
        at += 1;
    }
}

/// Finds the last position at which `needle` stands in `text`.
pub fn find_last(text: &[char], needle: &[char]) -> (found: Option<usize>)
    ensures
        found is Some <==> occurs_in(text@, needle@),
        found is Some ==> is_last_occurrence(text@, needle@, found->0 as int),
{
    if needle.len() > text.len() {
        return None;
    }
    let mut at: usize = text.len() - needle.len();
    loop
        invariant
            at + needle@.len() <= text@.len(),
            forall|k: int| at < k ==> !occurs_at(text@, needle@, k),
        decreases at,
    {
        if matches_at(text, needle, at) {
            return Some(at);
        }
        if at == 0 {
            return None;
        }
        at -= 1;
    }
}

/// Finds the first position of `text` that holds the character `c`.
pub fn first_index_of(text: &[char], c: char) -> (found: Option<usize>)
    ensures
        found is Some <==> text@.contains(c),
        found is Some ==> is_first_index_of(text@, c, found->0 as int),
{
    let mut at: usize = 0;
    while at < text.len()
        invariant
            at <= text@.len(),
            forall|k: int| 0 <= k < at ==> text@[k] != c,
        decreases text@.len() - at,
    {
        if text[at] == c {
            return Some(at);
        }
        at += 1;
    }
    None
}

/// Finds the last position of `text` that holds the character `c`.
pub fn last_index_of(text: &[char], c: char) -> (found: Option<usize>)
    ensures
        found is Some <==> text@.contains(c),
        found is Some ==> is_last_index_of(text@, c, found->0 as int),
{
    let mut at: usize = text.len();
    while at > 0
        invariant
            at <= text@.len(),
            forall|k: int| at <= k < text@.len() ==> text@[k] != c,
        decreases at,
    {
        at -= 1;
        if text[at] == c {
            return Some(at);
        }
    }
    None
}

/// Copies the part of `text` behind the last `c`.
pub fn part_after_last(text: &[char], c: char) -> (part: Vec<char>)
    ensures
        part@ == after_last(text@, c),
{
    let length: usize = text.len();
    match last_index_of(text, c) {
        Some(at) => {
            proof {
                let chosen = choose|k: int| is_last_index_of(text@, c, k);
                assert(is_last_index_of(text@, c, at as int));
                assert(chosen == at) by {
                    if chosen < at {
                        assert(text@[at as int] == c);
                    } else if at < chosen {
                        assert(text@[chosen] == c);
                    }
                }
                assert(text@.skip(at + 1) =~= text@.subrange(at + 1, text@.len() as int));
            }
            slice_to_vec(slice_subrange(text, at + 1, length))
        },
        None => {
            assert(text@.subrange(0, text@.len() as int) =~= text@);
            slice_to_vec(slice_subrange(text, 0, text.len()))
        },
    }
}

/// Copies the part of `text` in front of the first `c`.
pub fn part_before_first(text: &[char], c: char) -> (part: Vec<char>)
    ensures
        part@ == before_first(text@, c),
{
    match first_index_of(text, c) {
        Some(at) => {
            proof {
                let chosen = choose|k: int| is_first_index_of(text@, c, k);
                assert(is_first_index_of(text@, c, at as int));
                assert(chosen == at) by {
                    if chosen < at {
                        assert(text@[chosen] == c);
                    } else if at < chosen {
                        assert(text@[at as int] == c);
                    }
                }
                assert(text@.take(at as int) =~= text@.subrange(0, at as int));
            }
            slice_to_vec(slice_subrange(text, 0, at))
        },
        None => {
            assert(text@.subrange(0, text@.len() as int) =~= text@);
            slice_to_vec(slice_subrange(text, 0, text.len()))
        },
    }
}

/// Tells whether `a` comes before `b` in the order of the dictionary.
pub fn precedes(a: &[char], b: &[char]) -> (before: bool)
    ensures
        before == comes_before(a@, b@),
{
    let mut i: usize = 0;
    assert(a@.skip(0) =~= a@ && b@.skip(0) =~= b@);
    while i < a.len() && i < b.len()
        invariant
            i <= a@.len(),
            i <= b@.len(),
            comes_before(a@, b@) == comes_before(a@.skip(i as int), b@.skip(i as int)),
        decreases a@.len() - i,
    {
        let left: char = a[i];
        let right: char = b[i];
        proof {
            assert(a@.skip(i as int)[0] == left);
            assert(b@.skip(i as int)[0] == right);
            assert(a@.skip(i as int).drop_first() =~= a@.skip(i + 1));
            assert(b@.skip(i as int).drop_first() =~= b@.skip(i + 1));
        }
        if left != right {
            return left < right;
        }
        i += 1;
    }
    a.len() < b.len()
}

/// Whether Unicode gives the character the property `White_Space`.
pub uninterp spec fn white_space(c: char) -> bool;

/// Which of the first 128 characters are white space: the space, and the
/// controls from the horizontal tab to the carriage return.
pub open spec fn ascii_white_space(c: char) -> bool {
    c as u32 == 32 || 9 <= c as u32 <= 13
}

/// Asks `char::is_whitespace` of the standard library. The answer depends on
/// the character alone; it is what [`white_space`] names. For the first 128
/// characters the contract also says which they are; beyond them it leaves
/// the answer to Unicode.
#[verifier::external_body]
pub(crate) fn is_white_space(c: char) -> (blank: bool)
    ensures
        blank == white_space(c),
        (c as u32) < 128 ==> blank == ascii_white_space(c),
{
    c.is_whitespace()
}

/// Tells whether a character is white space. Of the first 128 characters
/// the answer is known beforehand: see [`ascii_white_space`].
pub fn white_space_at(c: char) -> (blank: bool)
    ensures
        blank == white_space(c),
        (c as u32) < 128 ==> white_space(c) == ascii_white_space(c),
{
    is_white_space(c)
}

/// Collects characters into a `String` with `String::from_iter` of the
/// standard library, which keeps them as they are and in their order.
#[verifier::external_body]
pub(crate) fn text_of(chars: &[char]) -> (text: String)
    ensures
        text@ == chars@,
{
    String::from_iter(chars)
}

/// A line without the carriage return at its end, if it has one.
pub open spec fn without_return(line: Seq<char>) -> Seq<char> {
    if line.len() > 0 && line.last() == '\r' {
        line.drop_last()
    } else {
        line
    }
}

/// The lines of a text. A line ends with a line feed, or with a carriage
/// return and a line feed; neither belongs to the line. The last line needs
/// no line feed, and a text that ends with one has no empty line behind it.
pub open spec fn lines_of(text: Seq<char>) -> Seq<Seq<char>>
    decreases text.len(),
    via lines_of_shorten
{
    if text.len() == 0 {
        Seq::empty()
    } else if text.contains('\n') {
        let at = choose|at: int| is_first_index_of(text, '\n', at);
        seq![without_return(text.take(at))] + lines_of(text.skip(at + 1))
    } else {
        seq![text]
    }
}

#[via_fn]
proof fn lines_of_shorten(text: Seq<char>) {
    if text.len() != 0 && text.contains('\n') {
        let k = choose|k: int| 0 <= k < text.len() && text[k] == '\n';
        lemma_first_index_exists(text, '\n', k);
    }
}

/// A text that holds `c` at `k` holds it somewhere first.
pub proof fn lemma_first_index_exists(text: Seq<char>, c: char, k: int)
    requires
        0 <= k < text.len(),
        text[k] == c,
    ensures
        exists|at: int| is_first_index_of(text, c, at),
    decreases k,
{
    if exists|earlier: int| 0 <= earlier < k && text[earlier] == c {
        let earlier = choose|earlier: int| 0 <= earlier < k && text[earlier] == c;
        lemma_first_index_exists(text, c, earlier);
    } else {
        assert(is_first_index_of(text, c, k));
    }
}

/// Whether the characters from `start` up to `end` are the last word of
/// `line`: they hold no white space, only white space follows them, and
/// white space or nothing stands in front of them.
pub open spec fn is_last_word(line: Seq<char>, start: int, end: int) -> bool {
    &&& 0 <= start < end <= line.len()
    &&& forall|k: int| start <= k < end ==> !white_space(#[trigger] line[k])
    &&& forall|k: int| end <= k < line.len() ==> white_space(#[trigger] line[k])
    &&& start > 0 ==> white_space(line[start - 1])
}

/// Whether every character of `line` is white space.
pub open spec fn is_blank(line: Seq<char>) -> bool {
    forall|k: int| 0 <= k < line.len() ==> white_space(#[trigger] line[k])
}

/// Whether the characters from `start` up to `end` are what is left of
/// `line` when the white space at both ends is taken away.
pub open spec fn is_trimmed_span(line: Seq<char>, start: int, end: int) -> bool {
    if is_blank(line) {
        start == end && 0 <= start <= line.len()
    } else {
        &&& 0 <= start < end <= line.len()
        &&& !white_space(line[start])
        &&& !white_space(line[end - 1])
        &&& forall|k: int| 0 <= k < start ==> white_space(#[trigger] line[k])
        &&& forall|k: int| end <= k < line.len() ==> white_space(#[trigger] line[k])
    }
}

/// The last word of a line that is not blank.
pub open spec fn last_word(line: Seq<char>) -> Seq<char>
    recommends
        !is_blank(line),
{
    let (start, end) = choose|start: int, end: int| is_last_word(line, start, end);
    line.subrange(start, end)
}

/// What is left of a line when the white space at both ends is taken away.
pub open spec fn trimmed(line: Seq<char>) -> Seq<char> {
    let (start, end) = choose|start: int, end: int| is_trimmed_span(line, start, end);
    line.subrange(start, end)
}

/// Whatever span [`is_trimmed_span`] accepts holds the trimmed line.
pub proof fn lemma_trimmed(line: Seq<char>, start: int, end: int)
    requires
        is_trimmed_span(line, start, end),
    ensures
        trimmed(line) == line.subrange(start, end),
{
    let (s, e) = choose|s: int, e: int| is_trimmed_span(line, s, e);
    if is_blank(line) {
        assert(line.subrange(s, e) =~= line.subrange(start, end));
    } else {
        if s < start {
            assert(white_space(line[s]));
        } else if start < s {
            assert(white_space(line[start]));
        }
        if e < end {
            assert(white_space(line[end - 1]));
        } else if end < e {
            assert(white_space(line[e - 1]));
        }
    }
}

/// Whatever span [`is_last_word`] accepts holds the last word.
pub proof fn lemma_last_word(line: Seq<char>, start: int, end: int)
    requires
        is_last_word(line, start, end),
    ensures
        last_word(line) == line.subrange(start, end),
{
    let (s, e) = choose|s: int, e: int| is_last_word(line, s, e);
    lemma_last_word_unique(line, s, e, start, end);
}

/// Whatever position [`is_last_occurrence`] accepts is the one chosen.
pub proof fn lemma_last_occurrence(text: Seq<char>, needle: Seq<char>, at: int)
    requires
        is_last_occurrence(text, needle, at),
    ensures
        at == choose|k: int| is_last_occurrence(text, needle, k),
{
    let k = choose|k: int| is_last_occurrence(text, needle, k);
    if k < at {
        assert(occurs_at(text, needle, at));
    } else if at < k {
        assert(occurs_at(text, needle, k));
    }
}

/// A line has at most one last word.
pub proof fn lemma_last_word_unique(line: Seq<char>, s1: int, e1: int, s2: int, e2: int)
    requires
        is_last_word(line, s1, e1),
        is_last_word(line, s2, e2),
    ensures
        s1 == s2,
        e1 == e2,
{
    if e1 < e2 {
        assert(white_space(line[e2 - 1]));
    } else if e2 < e1 {
        assert(white_space(line[e1 - 1]));
    }
    if s1 < s2 {
        assert(!white_space(line[s2 - 1]));
    } else if s2 < s1 {
        assert(!white_space(line[s1 - 1]));
    }
}

/// Splits a text into its lines.
pub fn split_lines(text: &[char]) -> (lines: Vec<Vec<char>>)
    ensures
        lines@.len() == lines_of(text@).len(),
        forall|i: int| 0 <= i < lines@.len() ==> (#[trigger] lines@[i])@ == lines_of(text@)[i],
{
    let mut lines: Vec<Vec<char>> = Vec::new();
    let mut start: usize = 0;
    let ghost mut done: Seq<Seq<char>> = Seq::empty();
    assert(text@.skip(0) =~= text@);
    while start < text.len()
        invariant
            start <= text@.len(),
            lines@.len() == done.len(),
            forall|i: int| 0 <= i < lines@.len() ==> (#[trigger] lines@[i])@ == done[i],
            done + lines_of(text@.skip(start as int)) == lines_of(text@),
        decreases text@.len() - start,
    {
        let rest = slice_subrange(text, start, text.len());
        assert(rest@ =~= text@.skip(start as int));
        match first_index_of(rest, '\n') {
            Some(at) => {
                proof {
                    let chosen = choose|k: int| is_first_index_of(rest@, '\n', k);
                    assert(is_first_index_of(rest@, '\n', at as int));
                    assert(chosen == at) by {
                        if chosen < at {
                            assert(rest@[chosen] == '\n');
                        } else if at < chosen {
                            assert(rest@[at as int] == '\n');
                        }
                    }
                    assert(rest@.skip(at + 1) =~= text@.skip(start + at + 1));
                }
                let raw = slice_subrange(rest, 0, at);
                assert(raw@ =~= rest@.take(at as int));
                let line = if at > 0 && raw[at - 1] == '\r' {
                    assert(raw@.subrange(0, at - 1) =~= raw@.drop_last());
                    slice_to_vec(slice_subrange(raw, 0, at - 1))
                } else {
                    assert(raw@.subrange(0, at as int) =~= raw@);
                    slice_to_vec(slice_subrange(raw, 0, at))
                };
                proof {
                    let tail = lines_of(text@.skip(start + at + 1));
                    assert(lines_of(rest@) == seq![line@] + tail);
                    assert(done.push(line@) + tail =~= done + (seq![line@] + tail));
                    done = done.push(line@);
                }
                lines.push(line);
                start = start + at + 1;
            },
            None => {
                proof {
                    assert(lines_of(rest@) == seq![rest@]);
                    assert(text@.skip(text@.len() as int) =~= Seq::<char>::empty());
                    assert(done.push(rest@) + lines_of(text@.skip(text@.len() as int)) =~= done
                        + seq![rest@]);
                    done = done.push(rest@);
                }
                lines.push(slice_to_vec(rest));
                start = text.len();
            },
        }
    }
    proof {
        assert(text@.skip(text@.len() as int) =~= Seq::<char>::empty());
        assert(done + Seq::<Seq<char>>::empty() =~= done);
    }
    lines
}

/// A stretch of a text: the characters from `start` up to, not including,
/// `end`.
#[derive(Clone, Copy, Debug, PartialEq, Eq, Structural)]
pub struct Span {
    pub start: usize,
    pub end: usize,
}

/// Finds the last word of a line, if the line has a word.
pub fn last_word_of(line: &[char]) -> (word: Option<Span>)
    ensures
        word is None <==> is_blank(line@),
        word is Some ==> is_last_word(line@, word->0.start as int, word->0.end as int),
{
    let mut end: usize = line.len();
    while end > 0 && is_white_space(line[end - 1])
        invariant
            end <= line@.len(),
            forall|k: int| end <= k < line@.len() ==> white_space(#[trigger] line@[k]),
        decreases end,
    {
        end -= 1;
    }
    if end == 0 {
        return None;
    }
    let mut start: usize = end - 1;
    while start > 0 && !is_white_space(line[start - 1])
        invariant
            start < end <= line@.len(),
            forall|k: int| start <= k < end ==> !white_space(#[trigger] line@[k]),
        decreases start,
    {
        start -= 1;
    }
    assert(!is_blank(line@)) by {
        assert(!white_space(line@[end - 1]));
    }
    Some(Span { start, end })
}

/// Finds what is left of a line when the white space at both ends is taken
/// away.
pub fn trimmed_span_of(line: &[char]) -> (span: Span)
    ensures
        is_trimmed_span(line@, span.start as int, span.end as int),
{
    let mut end: usize = line.len();
    while end > 0 && is_white_space(line[end - 1])
        invariant
            end <= line@.len(),
            forall|k: int| end <= k < line@.len() ==> white_space(#[trigger] line@[k]),
        decreases end,
    {
        end -= 1;
    }
    if end == 0 {
        return Span { start: 0, end: 0 };
    }
    assert(!is_blank(line@)) by {
        assert(!white_space(line@[end - 1]));
    }
    let mut start: usize = 0;
    while start < end - 1 && is_white_space(line[start])
        invariant
            start < end <= line@.len(),
            forall|k: int| 0 <= k < start ==> white_space(#[trigger] line@[k]),
            !white_space(line@[end - 1]),
        decreases end - start,
    {
        start += 1;
    }
    Span { start, end }
}

} // verus!
