//! Searching, replacing, splitting and joining text.
use vstd::prelude::*;
use vstd::slice::slice_subrange;

use crate::text::{
    chars_of, chars_view, find_char, index_from, lemma_run_end, lemma_run_end_is, other_than,
    push_chars, run_end, string_of, texts_view,
};

verus! {

// ---------------------------------------------------------------------------
// Prefixes
// ---------------------------------------------------------------------------
/// Whether `part` stands in `s` at position `at`.
pub open spec fn stands_at(s: Seq<char>, at: int, part: Seq<char>) -> bool {
    &&& 0 <= at
    &&& at + part.len() <= s.len()
    &&& s.subrange(at, at + part.len()) == part
}

/// `s` without the leading `prefix`, where it starts with it.
pub open spec fn without_prefix(s: Seq<char>, prefix: Seq<char>) -> Option<Seq<char>> {
    if prefix.is_prefix_of(s) {
        Some(s.skip(prefix.len() as int))
    } else {
        None
    }
}

/// Whether `part` stands in `s` at position `at`.
pub fn matches_at(s: &[char], at: usize, part: &[char]) -> (yes: bool)
    requires
        at <= s@.len(),
    ensures
        yes == stands_at(s@, at as int, part@),
{
    if part.len() > s.len() - at {
        return false;
    }
    let mut i: usize = 0;
    while i < part.len()
        invariant
            i <= part.len(),
            part.len() <= s.len() - at,
            forall|k: int| 0 <= k < i ==> s@[at + k] == part@[k],
        decreases part.len() - i,
    {
        if s[at + i] != part[i] {
            assert(s@.subrange(at as int, at + part@.len())[i as int] != part@[i as int]);
            return false;
        }
        i += 1;
    }
    assert(s@.subrange(at as int, at + part@.len()) =~= part@);
    true
}

/// Whether `s` starts with `prefix`.
pub fn starts_with(s: &[char], prefix: &[char]) -> (yes: bool)
    ensures
        yes == prefix@.is_prefix_of(s@),
{
    let yes = matches_at(s, 0, prefix);
    proof {
        if prefix@.len() <= s@.len() {
            assert(s@.take(prefix@.len() as int) =~= s@.subrange(0, prefix@.len() as int));
        }
    }
    yes
}

/// Whether `s` starts with the text `prefix`.
pub fn starts_with_text(s: &[char], prefix: &str) -> (yes: bool)
    ensures
        yes == prefix@.is_prefix_of(s@),
{
    let chars = chars_of(prefix);
    starts_with(s, chars.as_slice())
}

/// Whether `text` starts with `prefix`.
pub fn text_starts_with(text: &str, prefix: &str) -> (yes: bool)
    ensures
        yes == prefix@.is_prefix_of(text@),
{
    let chars = chars_of(text);
    starts_with_text(chars.as_slice(), prefix)
}

/// `s` without the leading `prefix`, where it starts with it.
pub fn strip_prefix<'a>(s: &'a [char], prefix: &str) -> (rest: Option<&'a [char]>)
    ensures
        match rest {
            Some(found) => without_prefix(s@, prefix@) == Some(found@),
            None => without_prefix(s@, prefix@) is None,
        },
{
    let chars = chars_of(prefix);
    if starts_with(s, chars.as_slice()) {
        let rest = slice_subrange(s, chars.len(), s.len());
        assert(rest@ =~= s@.skip(prefix@.len() as int));
        Some(rest)
    } else {
        None
    }
}

// ---------------------------------------------------------------------------
// Search
// ---------------------------------------------------------------------------
/// The first position at or after `from` at which `part` stands in `s`.
pub open spec fn find_from(s: Seq<char>, from: int, part: Seq<char>) -> Option<int>
    decreases s.len() - from + 1,
{
    if from < 0 || from > s.len() {
        None
    } else if stands_at(s, from, part) {
        Some(from)
    } else {
        find_from(s, from + 1, part)
    }
}

/// The position found is the first match at or after `from`.
pub proof fn lemma_find_from(s: Seq<char>, from: int, part: Seq<char>)
    requires
        0 <= from,
    ensures
        match find_from(s, from, part) {
            Some(at) => {
                &&& from <= at
                &&& stands_at(s, at, part)
                &&& forall|k: int| from <= k < at ==> !#[trigger] stands_at(s, k, part)
            },
            None => forall|k: int| from <= k ==> !#[trigger] stands_at(s, k, part),
        },
    decreases s.len() - from + 1,
{
    if from <= s.len() && !stands_at(s, from, part) {
        lemma_find_from(s, from + 1, part);
    }
}

/// The first match is the only position with the properties of
/// `lemma_find_from`.
pub proof fn lemma_find_from_is(s: Seq<char>, from: int, part: Seq<char>, at: int)
    requires
        0 <= from <= at,
        stands_at(s, at, part),
        forall|k: int| from <= k < at ==> !#[trigger] stands_at(s, k, part),
    ensures
        find_from(s, from, part) == Some(at),
    decreases at - from,
{
    if from < at {
        assert(!stands_at(s, from, part));
        lemma_find_from_is(s, from + 1, part, at);
    }
}

/// Finds the first match of `part` at or after `from`.
pub fn find_part(s: &[char], from: usize, part: &[char]) -> (found: Option<usize>)
    requires
        from <= s@.len(),
    ensures
        match found {
            Some(at) => find_from(s@, from as int, part@) == Some(at as int),
            None => find_from(s@, from as int, part@) is None,
        },
        found matches Some(at) ==> from <= at && stands_at(s@, at as int, part@),
{
    let mut i: usize = from;
    while i < s.len()
        invariant
            from <= i <= s.len(),
            forall|k: int| from <= k < i ==> !#[trigger] stands_at(s@, k, part@),
        decreases s.len() - i,
    {
        if matches_at(s, i, part) {
            proof {
                lemma_find_from_is(s@, from as int, part@, i as int);
            }
            return Some(i);
        }
        i += 1;
    }
    if matches_at(s, i, part) {
        proof {
            lemma_find_from_is(s@, from as int, part@, i as int);
        }
        return Some(i);
    }
    proof {
        lemma_find_from(s@, from as int, part@);
    }
    None
}

/// Whether `part` stands somewhere in `s`.
pub open spec fn contains_text(s: Seq<char>, part: Seq<char>) -> bool {
    exists|at: int| #[trigger] stands_at(s, at, part)
}

/// Whether `part` stands somewhere in `text`.
pub fn text_contains(text: &str, part: &str) -> (yes: bool)
    ensures
        yes == contains_text(text@, part@),
{
    let s = chars_of(text);
    let p = chars_of(part);
    let found = find_part(s.as_slice(), 0, p.as_slice());
    proof {
        lemma_find_from(s@, 0, p@);
    }
    found.is_some()
}

// ---------------------------------------------------------------------------
// Replacement
// ---------------------------------------------------------------------------
/// `s` with every match of `part`, taken from the left and without overlaps,
/// replaced by `with`.
pub open spec fn replace_all(s: Seq<char>, part: Seq<char>, with: Seq<char>) -> Seq<char>
    decreases s.len(),
{
    if s.len() == 0 || part.len() == 0 {
        s
    } else if part.is_prefix_of(s) {
        with + replace_all(s.skip(part.len() as int), part, with)
    } else {
        seq![s[0]] + replace_all(s.skip(1), part, with)
    }
}

/// Where there is no match, nothing is replaced.
pub proof fn lemma_nothing_replaced(s: Seq<char>, part: Seq<char>, with: Seq<char>)
    requires
        !contains_text(s, part),
    ensures
        replace_all(s, part, with) == s,
    decreases s.len(),
{
    if s.len() > 0 && part.len() > 0 {
        if part.is_prefix_of(s) {
            assert(s.subrange(0, part.len() as int) =~= s.take(part.len() as int));
            assert(stands_at(s, 0, part));
        }
        let rest = s.skip(1);
        assert forall|at: int| !stands_at(rest, at, part) by {
            if stands_at(rest, at, part) {
                assert(rest.subrange(at, at + part.len()) =~= s.subrange(
                    at + 1,
                    at + 1 + part.len(),
                ));
                assert(stands_at(s, at + 1, part));
            }
        }
        lemma_nothing_replaced(rest, part, with);
        assert(seq![s[0]] + rest =~= s);
    }
}

/// Replaces every match of `part` in `s` by `with`.
pub fn replaced(s: &[char], part: &[char], with: &[char]) -> (out: Vec<char>)
    requires
        part@.len() > 0,
    ensures
        out@ == replace_all(s@, part@, with@),
{
    let mut out: Vec<char> = Vec::new();
    let mut i: usize = 0;
    assert(s@.skip(0) =~= s@);
    while i < s.len()
        invariant
            i <= s.len(),
            part@.len() > 0,
            replace_all(s@, part@, with@) == out@ + replace_all(s@.skip(i as int), part@, with@),
        decreases s.len() - i,
    {
        let ghost rest = s@.skip(i as int);
        let ghost before = out@;
        if matches_at(s, i, part) {
            push_chars(&mut out, with);
            proof {
                let n = part@.len() as int;
                assert(rest.take(n) =~= s@.subrange(i as int, i + n));
                assert(part@.is_prefix_of(rest));
                assert(rest.skip(n) =~= s@.skip(i + n));
                assert(before + (with@ + replace_all(s@.skip(i + n), part@, with@)) =~= out@
                    + replace_all(s@.skip(i + n), part@, with@));
            }
            i += part.len();
        } else {
            out.push(s[i]);
            proof {
                let n = part@.len() as int;
                if part@.is_prefix_of(rest) {
                    assert(rest.take(n) =~= s@.subrange(i as int, i + n));
                }
                assert(rest.skip(1) =~= s@.skip(i + 1));
                assert(before + (seq![rest[0]] + replace_all(s@.skip(i + 1), part@, with@)) =~= out@
                    + replace_all(s@.skip(i + 1), part@, with@));
            }
            i += 1;
        }
    }
    assert(s@.skip(i as int).len() == 0);
    assert(out@ + replace_all(s@.skip(i as int), part@, with@) =~= out@);
    out
}

/// Replaces every match of the text `part` in `s` by `with`.
pub fn replaced_text(s: &[char], part: &str, with: &str) -> (out: Vec<char>)
    requires
        part@.len() > 0,
    ensures
        out@ == replace_all(s@, part@, with@),
{
    let p = chars_of(part);
    let w = chars_of(with);
    replaced(s, p.as_slice(), w.as_slice())
}

/// Every character of `s`, with `c` replaced by `with`.
pub open spec fn replace_char(s: Seq<char>, c: char, with: Seq<char>) -> Seq<char> {
    replace_all(s, seq![c], with)
}

/// Replaces every `c` in `s` by `with`.
pub fn replaced_char(s: &[char], c: char, with: &str) -> (out: Vec<char>)
    ensures
        out@ == replace_char(s@, c, with@),
{
    let mut part: Vec<char> = Vec::new();
    part.push(c);
    let w = chars_of(with);
    assert(part@ =~= seq![c]);
    replaced(s, part.as_slice(), w.as_slice())
}

/// A character that is replaced by text without it is gone.
pub proof fn lemma_replaced_char_is_gone(s: Seq<char>, c: char, with: Seq<char>)
    requires
        !with.contains(c),
    ensures
        !replace_char(s, c, with).contains(c),
    decreases s.len(),
{
    if s.len() > 0 {
        lemma_replaced_char_is_gone(s.skip(1), c, with);
        let rest = replace_char(s.skip(1), c, with);
        let out = replace_char(s, c, with);
        let head = if s[0] == c {
            with
        } else {
            seq![s[0]]
        };
        if s[0] == c {
            assert(seq![c] =~= s.take(1));
        } else {
            assert(s.take(1)[0] != seq![c][0]);
        }
        assert(out == head + rest);
        assert forall|i: int| 0 <= i < out.len() implies #[trigger] out[i] != c by {
            if i < head.len() {
                assert(head.contains(head[i]));
            } else {
                assert(rest.contains(rest[i - head.len()]));
            }
        }
    }
}

// ---------------------------------------------------------------------------
// Lines
// ---------------------------------------------------------------------------
/// `line` without one carriage return at its end.
pub open spec fn without_cr(line: Seq<char>) -> Seq<char> {
    if line.len() > 0 && line.last() == '\r' {
        line.drop_last()
    } else {
        line
    }
}

/// The lines of `s`. A line ends at a line feed, which may follow a carriage
/// return; the last line needs no ending, and an empty one does not count.
pub open spec fn lines(s: Seq<char>) -> Seq<Seq<char>>
    decreases s.len(),
{
    match index_from(s, 0, '\n') {
        Some(at) => {
            if 0 <= at < s.len() {
                seq![without_cr(s.take(at))] + lines(s.skip(at + 1))
            } else {
                seq![]
            }
        },
        None => if s.len() == 0 {
            seq![]
        } else {
            seq![s]
        },
    }
}

/// Splits `s` into its lines.
pub fn lines_of(s: &[char]) -> (out: Vec<Vec<char>>)
    ensures
        chars_view(out@) == lines(s@),
{
    let mut out: Vec<Vec<char>> = Vec::new();
    let mut i: usize = 0;
    assert(s@.skip(0) =~= s@);
    assert(chars_view(out@) + lines(s@) =~= lines(s@));
    while i < s.len()
        invariant
            i <= s.len(),
            lines(s@) == chars_view(out@) + lines(s@.skip(i as int)),
        decreases s.len() - i,
    {
        let ghost rest = s@.skip(i as int);
        let ghost before = out@;
        proof {
            lemma_index_shift(s@, i as int, '\n');
        }
        match find_char(s, i, '\n') {
            Some(at) => {
                let mut end: usize = at;
                if end > i && s[end - 1] == '\r' {
                    end -= 1;
                }
                let mut line: Vec<char> = Vec::new();
                push_chars(&mut line, slice_subrange(s, i, end));
                proof {
                    let cut = rest.take(at - i);
                    assert(cut =~= s@.subrange(i as int, at as int));
                    assert(line@ =~= s@.subrange(i as int, end as int));
                    assert(without_cr(cut) =~= line@);
                    assert(rest.skip(at - i + 1) =~= s@.skip(at + 1));
                }
                out.push(line);
                proof {
                    assert(chars_view(out@) =~= chars_view(before).push(line@));
                    assert(chars_view(before) + (seq![line@] + lines(s@.skip(at + 1)))
                        =~= chars_view(out@) + lines(s@.skip(at + 1)));
                }
                i = at + 1;
            },
            None => {
                let mut line: Vec<char> = Vec::new();
                push_chars(&mut line, slice_subrange(s, i, s.len()));
                assert(line@ =~= rest);
                out.push(line);
                i = s.len();
                proof {
                    assert(chars_view(out@) =~= chars_view(before).push(rest));
                    assert(s@.skip(i as int) =~= Seq::<char>::empty());
                    lemma_run_end(s@.skip(i as int), 0, other_than('\n'));
                    assert(chars_view(before) + seq![rest] =~= chars_view(out@) + lines(
                        s@.skip(i as int),
                    ));
                }
            },
        }
    }
    proof {
        assert(s@.skip(i as int) =~= Seq::<char>::empty());
        lemma_run_end(s@.skip(i as int), 0, other_than('\n'));
        assert(chars_view(out@) + lines(s@.skip(i as int)) =~= chars_view(out@));
    }
    out
}

/// Searching from a position is searching what follows it.
pub proof fn lemma_index_shift(s: Seq<char>, from: int, c: char)
    requires
        0 <= from <= s.len(),
    ensures
        match index_from(s, from, c) {
            Some(at) => from <= at < s.len() && s[at] == c && index_from(s.skip(from), 0, c) == Some(
                at - from,
            ),
            None => index_from(s.skip(from), 0, c) is None,
        },
{
    let keep = other_than(c);
    let end = run_end(s, from, keep);
    let rest = s.skip(from);
    lemma_run_end(s, from, keep);
    assert forall|k: int| 0 <= k < end - from implies keep(#[trigger] rest[k]) by {
        assert(keep(s[from + k]));
    }
    lemma_run_end_is(rest, 0, keep, end - from);
}

// ---------------------------------------------------------------------------
// Joining
// ---------------------------------------------------------------------------
/// `parts` one after another, with `sep` between neighbours.
pub open spec fn join(parts: Seq<Seq<char>>, sep: Seq<char>) -> Seq<char>
    decreases parts.len(),
{
    if parts.len() == 0 {
        seq![]
    } else if parts.len() == 1 {
        parts[0]
    } else {
        join(parts.drop_last(), sep) + sep + parts.last()
    }
}

/// Joins `parts` with `sep`.
pub fn joined(parts: &Vec<Vec<char>>, sep: &str) -> (out: Vec<char>)
    ensures
        out@ == join(chars_view(parts@), sep@),
{
    let sep_chars = chars_of(sep);
    let mut out: Vec<char> = Vec::new();
    let mut i: usize = 0;
    let ghost views = chars_view(parts@);
    while i < parts.len()
        invariant
            i <= parts.len(),
            views == chars_view(parts@),
            sep_chars@ == sep@,
            out@ == join(views.take(i as int), sep@),
        decreases parts.len() - i,
    {
        if i > 0 {
            push_chars(&mut out, sep_chars.as_slice());
        }
        push_chars(&mut out, parts[i].as_slice());
        proof {
            assert(views.take(i + 1).drop_last() =~= views.take(i as int));
            assert(views.take(i + 1).last() == parts@[i as int]@);
            if i == 0 {
                assert(out@ =~= parts@[0]@);
            }
        }
        i += 1;
    }
    assert(views.take(i as int) =~= views);
    out
}

/// Joins `parts` with `sep`.
pub fn joined_texts(parts: &Vec<String>, sep: &str) -> (out: String)
    ensures
        out@ == join(texts_view(parts@), sep@),
{
    let mut chars: Vec<Vec<char>> = Vec::new();
    let mut i: usize = 0;
    while i < parts.len()
        invariant
            i <= parts.len(),
            chars@.len() == i,
            forall|k: int| 0 <= k < i ==> (#[trigger] chars@[k])@ == parts@[k]@,
        decreases parts.len() - i,
    {
        chars.push(chars_of(parts[i].as_str()));
        i += 1;
    }
    assert(chars_view(chars@) =~= texts_view(parts@));
    let out = joined(&chars, sep);
    string_of(out.as_slice())
}

} // verus!
