//! Text as sequences of characters: the operations that the rest of the crate
//! builds on, each with a mathematical description of its result.
use vstd::prelude::*;
use vstd::slice::slice_subrange;

verus! {

/// `String::push` appends one character at the end of the string.
pub assume_specification[ String::push ](text: &mut String, c: char)
    ensures
        final(text)@ == old(text)@.push(c),
;

/// The characters of `text`, in order.
pub fn chars_of(text: &str) -> (chars: Vec<char>)
    ensures
        chars@ == text@,
{
    let mut chars: Vec<char> = Vec::new();
    for c in it: text.chars()
        invariant
            chars@ == it.seq().take(it.index() as int),
            it.seq() == text@,
    {
        chars.push(c);
    }
    chars
}

/// The string made of `chars`.
pub fn string_of(chars: &[char]) -> (text: String)
    ensures
        text@ == chars@,
{
    let mut text = String::new();
    let mut i: usize = 0;
    while i < chars.len()
        invariant
            i <= chars.len(),
            text@ == chars@.take(i as int),
        decreases chars.len() - i,
    {
        text.push(chars[i]);
        i += 1;
    }
    text
}

/// Appends the characters of `more` to `out`.
pub fn push_chars(out: &mut Vec<char>, more: &[char])
    ensures
        final(out)@ == old(out)@ + more@,
{
    let ghost before = out@;
    let mut i: usize = 0;
    while i < more.len()
        invariant
            i <= more.len(),
            out@ == before + more@.take(i as int),
        decreases more.len() - i,
    {
        out.push(more[i]);
        i += 1;
    }
}

/// Appends the characters of `more` to `out`.
pub fn push_text(out: &mut Vec<char>, more: &str)
    ensures
        final(out)@ == old(out)@ + more@,
{
    let chars = chars_of(more);
    push_chars(out, chars.as_slice());
}

/// The view of optional text.
pub open spec fn opt_view(text: Option<String>) -> Option<Seq<char>> {
    match text {
        Some(found) => Some(found@),
        None => None,
    }
}

/// The view of a list of strings.
pub open spec fn texts_view(texts: Seq<String>) -> Seq<Seq<char>> {
    Seq::new(texts.len(), |i: int| texts[i]@)
}

/// The view of a list of character vectors.
pub open spec fn chars_view(texts: Seq<Vec<char>>) -> Seq<Seq<char>> {
    Seq::new(texts.len(), |i: int| texts[i]@)
}

/// Whether `a` and `b` hold the same characters.
pub fn same_chars(a: &[char], b: &[char]) -> (same: bool)
    ensures
        same == (a@ == b@),
{
    if a.len() != b.len() {
        return false;
    }
    let mut i: usize = 0;
    while i < a.len()
        invariant
            i <= a.len(),
            a.len() == b.len(),
            forall|k: int| 0 <= k < i ==> a@[k] == b@[k],
        decreases a.len() - i,
    {
        if a[i] != b[i] {
            assert(a@[i as int] != b@[i as int]);
            return false;
        }
        i += 1;
    }
    assert(a@ =~= b@);
    true
}

/// Whether `a` and `b` are the same text.
pub fn same_text(a: &str, b: &str) -> (same: bool)
    ensures
        same == (a@ == b@),
{
    let left = chars_of(a);
    let right = chars_of(b);
    same_chars(left.as_slice(), right.as_slice())
}

/// Whether the optional text `a` is present and equal to `b`.
pub fn is_text(a: &Option<String>, b: &str) -> (same: bool)
    ensures
        same == (opt_view(*a) == Some(b@)),
{
    match a {
        Some(found) => same_text(found.as_str(), b),
        None => false,
    }
}

// ---------------------------------------------------------------------------
// Runs
// ---------------------------------------------------------------------------
/// The first position at or after `from` whose element does not satisfy
/// `keep`, or the length of `s` where every one does.
pub open spec fn run_end<T>(s: Seq<T>, from: int, keep: spec_fn(T) -> bool) -> int
    decreases s.len() - from,
{
    if from < 0 || from >= s.len() {
        s.len() as int
    } else if keep(s[from]) {
        run_end(s, from + 1, keep)
    } else {
        from
    }
}

/// A run ends inside the sequence, holds only kept elements and stops at one
/// that is not kept.
pub proof fn lemma_run_end<T>(s: Seq<T>, from: int, keep: spec_fn(T) -> bool)
    requires
        0 <= from <= s.len(),
    ensures
        from <= run_end(s, from, keep) <= s.len(),
        forall|k: int| from <= k < run_end(s, from, keep) ==> keep(#[trigger] s[k]),
        run_end(s, from, keep) < s.len() ==> !keep(s[run_end(s, from, keep)]),
    decreases s.len() - from,
{
    if from < s.len() && keep(s[from]) {
        lemma_run_end(s, from + 1, keep);
    }
}

/// The end of a run is the only position with the properties of
/// `lemma_run_end`.
pub proof fn lemma_run_end_is<T>(s: Seq<T>, from: int, keep: spec_fn(T) -> bool, end: int)
    requires
        0 <= from <= end <= s.len(),
        forall|k: int| from <= k < end ==> keep(#[trigger] s[k]),
        end < s.len() ==> !keep(s[end]),
    ensures
        run_end(s, from, keep) == end,
    decreases end - from,
{
    if from < end {
        assert(keep(s[from]));
        lemma_run_end_is(s, from + 1, keep, end);
    }
}

/// The characters other than `c`.
pub open spec fn other_than(c: char) -> spec_fn(char) -> bool {
    |x: char| x != c
}

/// The character `c` alone.
pub open spec fn only(c: char) -> spec_fn(char) -> bool {
    |x: char| x == c
}

/// The first position of `c` in `s` at or after `from`.
pub open spec fn index_from(s: Seq<char>, from: int, c: char) -> Option<int> {
    let end = run_end(s, from, other_than(c));
    if 0 <= end < s.len() {
        Some(end)
    } else {
        None
    }
}

/// Finds the first `c` in `s` at or after `from`.
pub fn find_char(s: &[char], from: usize, c: char) -> (found: Option<usize>)
    requires
        from <= s@.len(),
    ensures
        match found {
            Some(i) => index_from(s@, from as int, c) == Some(i as int),
            None => index_from(s@, from as int, c) is None,
        },
        found matches Some(i) ==> from <= i < s@.len() && s@[i as int] == c,
{
    let mut i: usize = from;
    while i < s.len()
        invariant
            from <= i <= s.len(),
            forall|k: int| from <= k < i ==> s@[k] != c,
        decreases s.len() - i,
    {
        if s[i] == c {
            proof {
                lemma_run_end_is(s@, from as int, other_than(c), i as int);
            }
            return Some(i);
        }
        i += 1;
    }
    proof {
        lemma_run_end_is(s@, from as int, other_than(c), i as int);
    }
    None
}

/// The length of the run of `c` at the start of `s`.
pub fn leading(s: &[char], c: char) -> (count: usize)
    ensures
        count == run_end(s@, 0, only(c)),
        count <= s@.len(),
{
    let mut i: usize = 0;
    while i < s.len() && s[i] == c
        invariant
            i <= s.len(),
            forall|k: int| 0 <= k < i ==> s@[k] == c,
        decreases s.len() - i,
    {
        i += 1;
    }
    proof {
        lemma_run_end_is(s@, 0, only(c), i as int);
    }
    i
}

// ---------------------------------------------------------------------------
// White space and trimming
// ---------------------------------------------------------------------------
/// The characters with the Unicode property White_Space.
pub open spec fn is_white_space(c: char) -> bool {
    ||| '\u{9}' <= c <= '\u{d}'
    ||| c == ' '
    ||| c == '\u{85}'
    ||| c == '\u{a0}'
    ||| c == '\u{1680}'
    ||| '\u{2000}' <= c <= '\u{200a}'
    ||| c == '\u{2028}'
    ||| c == '\u{2029}'
    ||| c == '\u{202f}'
    ||| c == '\u{205f}'
    ||| c == '\u{3000}'
}

/// Whether `c` is white space.
pub fn white_space(c: char) -> (yes: bool)
    ensures
        yes == is_white_space(c),
{
    ('\u{9}' <= c && c <= '\u{d}') || c == ' ' || c == '\u{85}' || c == '\u{a0}' || c == '\u{1680}'
        || ('\u{2000}' <= c && c <= '\u{200a}') || c == '\u{2028}' || c == '\u{2029}' || c
        == '\u{202f}' || c == '\u{205f}' || c == '\u{3000}'
}

/// The white space characters, as a predicate.
pub open spec fn white() -> spec_fn(char) -> bool {
    |c: char| is_white_space(c)
}

/// The characters that are not white space, as a predicate.
pub open spec fn not_white() -> spec_fn(char) -> bool {
    |c: char| !is_white_space(c)
}

/// `s` without its leading characters that satisfy `drop`.
pub open spec fn skip_run(s: Seq<char>, drop: spec_fn(char) -> bool) -> Seq<char> {
    s.skip(run_end(s, 0, drop))
}

/// `s` without its trailing characters that satisfy `drop`.
pub open spec fn cut_run(s: Seq<char>, drop: spec_fn(char) -> bool) -> Seq<char>
    decreases s.len(),
{
    if s.len() > 0 && drop(s.last()) {
        cut_run(s.drop_last(), drop)
    } else {
        s
    }
}

/// `s` without leading white space.
pub open spec fn trim_start(s: Seq<char>) -> Seq<char> {
    skip_run(s, white())
}

/// `s` without trailing white space.
pub open spec fn trim_end(s: Seq<char>) -> Seq<char> {
    cut_run(s, white())
}

/// `s` without leading and trailing white space.
pub open spec fn trim(s: Seq<char>) -> Seq<char> {
    trim_end(trim_start(s))
}

/// Text with something other than white space in it.
pub open spec fn has_ink(s: Seq<char>) -> bool {
    trim(s).len() > 0
}

/// What is left of `s` after its trailing run was cut is the longest prefix
/// that does not end in a dropped character.
pub proof fn lemma_cut_run_is(s: Seq<char>, drop: spec_fn(char) -> bool, end: int)
    requires
        0 <= end <= s.len(),
        forall|k: int| end <= k < s.len() ==> drop(#[trigger] s[k]),
        end > 0 ==> !drop(s[end - 1]),
    ensures
        cut_run(s, drop) == s.take(end),
    decreases s.len() - end,
{
    if end < s.len() {
        assert(drop(s[s.len() - 1]));
        assert(s.drop_last().take(end) =~= s.take(end));
        lemma_cut_run_is(s.drop_last(), drop, end);
    } else {
        assert(s.take(end) =~= s);
    }
}

/// Cutting the trailing run keeps a prefix, followed by dropped characters only.
pub proof fn lemma_cut_run(s: Seq<char>, drop: spec_fn(char) -> bool)
    ensures
        cut_run(s, drop).len() <= s.len(),
        cut_run(s, drop) == s.take(cut_run(s, drop).len() as int),
        forall|k: int| cut_run(s, drop).len() <= k < s.len() ==> drop(#[trigger] s[k]),
        cut_run(s, drop).len() > 0 ==> !drop(cut_run(s, drop).last()),
    decreases s.len(),
{
    if s.len() > 0 && drop(s.last()) {
        lemma_cut_run(s.drop_last(), drop);
        let n = cut_run(s, drop).len() as int;
        assert(s.drop_last().take(n) =~= s.take(n));
        assert forall|k: int| n <= k < s.len() implies drop(#[trigger] s[k]) by {
            if k < s.len() - 1 {
                assert(s.drop_last()[k] == s[k]);
            }
        }
    } else {
        assert(s.take(s.len() as int) =~= s);
    }
}

/// `s` without leading white space.
pub fn trimmed_start(s: &[char]) -> (out: &[char])
    ensures
        out@ == trim_start(s@),
{
    let mut i: usize = 0;
    while i < s.len() && white_space(s[i])
        invariant
            i <= s.len(),
            forall|k: int| 0 <= k < i ==> is_white_space(s@[k]),
        decreases s.len() - i,
    {
        i += 1;
    }
    proof {
        lemma_run_end_is(s@, 0, white(), i as int);
        assert(s@.skip(i as int) =~= s@.subrange(i as int, s@.len() as int));
    }
    slice_subrange(s, i, s.len())
}

/// `s` without trailing white space.
pub fn trimmed_end(s: &[char]) -> (out: &[char])
    ensures
        out@ == trim_end(s@),
{
    let mut end: usize = s.len();
    while end > 0 && white_space(s[end - 1])
        invariant
            end <= s.len(),
            forall|k: int| end <= k < s@.len() ==> is_white_space(s@[k]),
        decreases end,
    {
        end -= 1;
    }
    proof {
        lemma_cut_run_is(s@, white(), end as int);
        assert(s@.take(end as int) =~= s@.subrange(0, end as int));
    }
    slice_subrange(s, 0, end)
}

/// `s` without leading and trailing white space.
pub fn trimmed(s: &[char]) -> (out: &[char])
    ensures
        out@ == trim(s@),
{
    trimmed_end(trimmed_start(s))
}

/// `text` without leading and trailing white space.
pub fn trimmed_text(text: &str) -> (out: String)
    ensures
        out@ == trim(text@),
{
    let chars = chars_of(text);
    string_of(trimmed(chars.as_slice()))
}

/// Whether `text` holds nothing but white space.
pub fn is_blank(text: &str) -> (blank: bool)
    ensures
        blank == !has_ink(text@),
{
    let chars = chars_of(text);
    trimmed(chars.as_slice()).len() == 0
}

/// `text` without the trailing run of `c`.
pub fn cut_trailing(text: &str, c: char) -> (out: String)
    ensures
        out@ == cut_run(text@, only(c)),
{
    let chars = chars_of(text);
    let s = chars.as_slice();
    let mut end: usize = s.len();
    while end > 0 && s[end - 1] == c
        invariant
            end <= s.len(),
            forall|k: int| end <= k < s@.len() ==> s@[k] == c,
        decreases end,
    {
        end -= 1;
    }
    proof {
        lemma_cut_run_is(s@, only(c), end as int);
        assert(s@.take(end as int) =~= s@.subrange(0, end as int));
    }
    string_of(slice_subrange(s, 0, end))
}

/// The optional text without surrounding white space, where any is left.
pub open spec fn trimmed_ink(text: Option<Seq<char>>) -> Option<Seq<char>> {
    match text {
        Some(found) => if has_ink(found) {
            Some(trim(found))
        } else {
            None
        },
        None => None,
    }
}

/// The optional text without surrounding white space, where any is left.
pub fn ink_of(text: &Option<String>) -> (out: Option<String>)
    ensures
        opt_view(out) == trimmed_ink(opt_view(*text)),
{
    match text {
        Some(found) => {
            let kept = trimmed_text(found.as_str());
            if kept.as_str().is_empty() {
                None
            } else {
                Some(kept)
            }
        },
        None => None,
    }
}

} // verus!
