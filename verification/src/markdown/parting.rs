//! Line endings, and texts with an empty line between them.
use vstd::prelude::*;

use crate::markdown::blocks::{
    block_at, blocks_from, bullet_items, bullet_lines, bullet_of, code_lines, fence_of, heading_of,
    is_quote, lemma_block_at, markdown_html, numbered_items, numbered_lines, numbered_of,
    paragraph_lines, quote_items, quote_lines, trimmed_items, with_line_feeds,
};
use crate::patterns::{
    join, lemma_replaced_char_is_gone, lines, replace_all, replace_char, without_cr,
};
use crate::text::{
    has_ink, index_from, is_white_space, lemma_cut_run, lemma_run_end, lemma_run_end_is,
    other_than, run_end, trim, trim_start, white,
};

verus! {

/// Whether no line of `text` opens fenced code.
pub open spec fn opens_no_fence(text: Seq<char>) -> bool {
    fence_free(lines(with_line_feeds(text)))
}

/// Whether none of the lines opens fenced code.
pub open spec fn fence_free(ls: Seq<Seq<char>>) -> bool {
    forall|i: int| 0 <= i < ls.len() ==> fence_of(trim(#[trigger] ls[i])) is None
}

// ---------------------------------------------------------------------------
// Line endings
// ---------------------------------------------------------------------------
/// A character is replaced wherever it stands.
proof fn lemma_replace_char_add(s: Seq<char>, t: Seq<char>, c: char, with: Seq<char>)
    ensures
        replace_char(s + t, c, with) == replace_char(s, c, with) + replace_char(t, c, with),
    decreases s.len(),
{
    let all = s + t;
    if s.len() == 0 {
        assert(all =~= t);
        assert(replace_char(s, c, with) + replace_char(t, c, with) =~= replace_char(t, c, with));
    } else {
        lemma_replace_char_add(s.skip(1), t, c, with);
        assert(all.skip(1) =~= s.skip(1) + t);
        assert(all.take(1) =~= s.take(1));
        let rest = replace_char(s.skip(1), c, with);
        let last = replace_char(t, c, with);
        let head = if seq![c].is_prefix_of(s) {
            with
        } else {
            seq![s[0]]
        };
        assert(seq![c].is_prefix_of(all) == seq![c].is_prefix_of(s));
        assert(head + (rest + last) =~= head + rest + last);
    }
}

/// How the line endings of a text are rewritten from its start.
proof fn lemma_line_feeds_step(s: Seq<char>)
    requires
        s.len() > 0,
    ensures
        s.len() > 1 && s[0] == '\r' && s[1] == '\n' ==> with_line_feeds(s) == seq!['\n']
            + with_line_feeds(s.skip(2)),
        !(s.len() > 1 && s[0] == '\r' && s[1] == '\n') ==> with_line_feeds(s) == seq![
            if s[0] == '\r' {
                '\n'
            } else {
                s[0]
            },
        ] + with_line_feeds(s.skip(1)),
{
    reveal_strlit("\r\n");
    reveal_strlit("\n");
    let feed = "\n"@;
    assert(feed =~= seq!['\n']);
    if s.len() > 1 && s[0] == '\r' && s[1] == '\n' {
        assert("\r\n"@ =~= s.take(2));
        let rest = replace_all(s.skip(2), "\r\n"@, feed);
        lemma_replace_char_add(feed, rest, '\r', feed);
        lemma_replace_char_one('\n', '\r', feed);
    } else {
        if "\r\n"@.is_prefix_of(s) {
            assert(s.take(2)[0] == '\r');
            assert(s.take(2)[1] == '\n');
        }
        let rest = replace_all(s.skip(1), "\r\n"@, feed);
        lemma_replace_char_add(seq![s[0]], rest, '\r', feed);
        lemma_replace_char_one(s[0], '\r', feed);
    }
}

/// What becomes of a single character.
proof fn lemma_replace_char_one(x: char, c: char, with: Seq<char>)
    ensures
        replace_char(seq![x], c, with) == if x == c {
            with
        } else {
            seq![x]
        },
{
    let s = seq![x];
    assert(s.skip(1) =~= Seq::<char>::empty());
    assert(replace_char(s.skip(1), c, with) =~= Seq::<char>::empty());
    if x == c {
        assert(seq![c] =~= s.take(1));
        assert(with + Seq::<char>::empty() =~= with);
    } else {
        assert(s.take(1)[0] != seq![c][0]);
        assert(s + Seq::<char>::empty() =~= s);
    }
}

/// Line endings are rewritten apart, unless the texts are parted inside one.
proof fn lemma_line_feeds_add(s: Seq<char>, t: Seq<char>)
    requires
        s.len() > 0 && t.len() > 0 ==> !(s.last() == '\r' && t[0] == '\n'),
    ensures
        with_line_feeds(s + t) == with_line_feeds(s) + with_line_feeds(t),
    decreases s.len(),
{
    let all = s + t;
    if s.len() == 0 {
        assert(all =~= t);
        assert(with_line_feeds(s) =~= Seq::<char>::empty());
        assert(with_line_feeds(s) + with_line_feeds(t) =~= with_line_feeds(t));
    } else {
        lemma_line_feeds_step(s);
        lemma_line_feeds_step(all);
        let n: int = if s.len() > 1 && s[0] == '\r' && s[1] == '\n' {
            2
        } else {
            1
        };
        let rest = s.skip(n);
        assert(all.skip(n) =~= rest + t);
        if rest.len() > 0 {
            assert(rest.last() == s.last());
        }
        lemma_line_feeds_add(rest, t);
        let head = seq![
            if s[0] == '\r' {
                '\n'
            } else {
                s[0]
            },
        ];
        assert(head + (with_line_feeds(rest) + with_line_feeds(t)) =~= head + with_line_feeds(rest)
            + with_line_feeds(t));
    }
}

/// Rewritten text holds no carriage return.
proof fn lemma_no_carriage_return(s: Seq<char>)
    ensures
        !with_line_feeds(s).contains('\r'),
{
    reveal_strlit("\n");
    lemma_replaced_char_is_gone(replace_all(s, "\r\n"@, "\n"@), '\r', "\n"@);
}

/// Text whose line feeds were written in another way gets them back.
proof fn lemma_line_feeds_back(s: Seq<char>, ending: Seq<char>)
    requires
        !s.contains('\r'),
        ending == seq!['\r'] || ending == seq!['\r', '\n'],
    ensures
        with_line_feeds(replace_char(s, '\n', ending)) == s,
    decreases s.len(),
{
    if s.len() > 0 {
        let rest = s.skip(1);
        let end = replace_char(rest, '\n', ending);
        assert(!rest.contains('\r')) by {
            if rest.contains('\r') {
                let i = rest.index_of('\r');
                assert(s[i + 1] == '\r');
            }
        }
        assert(s[0] != '\r') by {
            assert(s.contains(s[0]));
        }
        lemma_line_feeds_back(rest, ending);
        assert(s =~= seq![s[0]] + rest);
        lemma_replace_char_add(seq![s[0]], rest, '\n', ending);
        lemma_replace_char_one(s[0], '\n', ending);
        if s[0] == '\n' {
            let all = ending + end;
            lemma_line_feeds_step(all);
            if ending == seq!['\r', '\n'] {
                assert(all.skip(2) =~= end);
            } else {
                assert(all.skip(1) =~= end);
                if ending == seq!['\r'] {
                    lemma_replaced_char_is_gone(rest, '\n', ending);
                    if end.len() > 0 {
                        assert(end.contains(end[0]));
                    }
                }
            }
        } else {
            let all = seq![s[0]] + end;
            lemma_line_feeds_step(all);
            assert(all.skip(1) =~= end);
        }
    } else {
        assert(replace_char(s, '\n', ending) =~= s);
        assert(with_line_feeds(s) =~= s);
    }
}

/// Text with line feeds only is rendered alike when its lines end with carriage
/// returns, or with both.
pub proof fn law_line_endings_are_alike(text: Seq<char>)
    requires
        !text.contains('\r'),
    ensures
        markdown_html(replace_char(text, '\n', seq!['\r', '\n'])) == markdown_html(text),
        markdown_html(replace_char(text, '\n', seq!['\r'])) == markdown_html(text),
{
    lemma_line_feeds_back(text, seq!['\r', '\n']);
    lemma_line_feeds_back(text, seq!['\r']);
    lemma_feeds_stay(text);
}

/// Whatever the line endings of a text are, it is rendered as with line feeds.
pub proof fn law_rendered_as_with_line_feeds(text: Seq<char>)
    ensures
        markdown_html(with_line_feeds(text)) == markdown_html(text),
{
    lemma_no_carriage_return(text);
    lemma_feeds_stay(with_line_feeds(text));
}

/// Text without carriage returns has the right line endings.
pub proof fn lemma_feeds_stay(s: Seq<char>)
    requires
        !s.contains('\r'),
    ensures
        with_line_feeds(s) == s,
    decreases s.len(),
{
    if s.len() > 0 {
        let rest = s.skip(1);
        assert(!rest.contains('\r')) by {
            if rest.contains('\r') {
                let i = rest.index_of('\r');
                assert(s[i + 1] == '\r');
            }
        }
        assert(s.contains(s[0]));
        lemma_feeds_stay(rest);
        lemma_line_feeds_step(s);
        assert(seq![s[0]] + rest =~= s);
    } else {
        assert(with_line_feeds(s) =~= s);
    }
}

// ---------------------------------------------------------------------------
// Lines
// ---------------------------------------------------------------------------
/// The first line ending of a text stays the first when text follows.
proof fn lemma_first_feed(x: Seq<char>, z: Seq<char>)
    requires
        x.contains('\n'),
    ensures
        ({
            let at = run_end(x, 0, other_than('\n'));
            &&& 0 <= at < x.len()
            &&& x[at] == '\n'
            &&& run_end(x + z, 0, other_than('\n')) == at
        }),
{
    lemma_run_end(x, 0, other_than('\n'));
    let at = run_end(x, 0, other_than('\n'));
    let i = x.index_of('\n');
    assert(x[i] == '\n');
    if at >= x.len() {
        assert(other_than('\n')(x[i]));
    }
    assert forall|k: int| 0 <= k < at implies other_than('\n')(#[trigger] (x + z)[k]) by {
        assert(other_than('\n')(x[k]));
    }
    lemma_run_end_is(x + z, 0, other_than('\n'), at);
}

/// Text that ends with a line feed is split apart from what follows.
pub proof fn lemma_lines_add(x: Seq<char>, z: Seq<char>)
    requires
        x.len() > 0,
        x.last() == '\n',
    ensures
        lines(x + z) == lines(x) + lines(z),
    decreases x.len(),
{
    assert(x[x.len() - 1] == '\n');
    lemma_first_feed(x, z);
    let at = run_end(x, 0, other_than('\n'));
    let rest = x.skip(at + 1);
    let head = seq![without_cr(x.take(at))];
    assert((x + z).take(at) =~= x.take(at));
    assert((x + z).skip(at + 1) =~= rest + z);
    assert(lines(x + z) == head + lines(rest + z));
    assert(lines(x) == head + lines(rest));
    if rest.len() == 0 {
        assert(rest + z =~= z);
        assert(index_from(rest, 0, '\n') is None);
        assert(lines(rest) =~= Seq::<Seq<char>>::empty());
        assert(head + lines(z) =~= head + lines(rest) + lines(z));
    } else {
        assert(rest.last() == x.last());
        lemma_lines_add(rest, z);
        assert(head + (lines(rest) + lines(z)) =~= head + lines(rest) + lines(z));
    }
}

/// A line feed at the end closes the last line, or makes an empty one.
pub proof fn lemma_lines_closed(x: Seq<char>)
    requires
        !x.contains('\r'),
    ensures
        lines(x.push('\n')) == if x.len() == 0 || x.last() == '\n' {
            lines(x).push(seq![])
        } else {
            lines(x)
        },
    decreases x.len(),
{
    let closed = x.push('\n');
    let none = Seq::<char>::empty();
    if x.contains('\n') {
        lemma_first_feed(x, seq!['\n']);
        assert(closed =~= x + seq!['\n']);
        let at = run_end(x, 0, other_than('\n'));
        let rest = x.skip(at + 1);
        let head = seq![without_cr(x.take(at))];
        assert(closed.take(at) =~= x.take(at));
        assert(closed.skip(at + 1) =~= rest.push('\n'));
        assert(lines(closed) == head + lines(rest.push('\n')));
        assert(lines(x) == head + lines(rest));
        assert(!rest.contains('\r')) by {
            if rest.contains('\r') {
                let i = rest.index_of('\r');
                assert(x[at + 1 + i] == '\r');
            }
        }
        lemma_lines_closed(rest);
        if rest.len() > 0 {
            assert(rest.last() == x.last());
        } else {
            assert(x.last() == x[at]);
        }
        assert(head + lines(rest).push(seq![]) =~= (head + lines(rest)).push(seq![]));
    } else {
        assert forall|k: int| 0 <= k < x.len() implies other_than('\n')(#[trigger] x[k]) by {
            assert(x.contains(x[k]));
        }
        assert forall|k: int| 0 <= k < x.len() implies other_than('\n')(#[trigger] closed[k]) by {
            assert(other_than('\n')(x[k]));
        }
        lemma_run_end_is(closed, 0, other_than('\n'), x.len() as int);
        lemma_run_end_is(x, 0, other_than('\n'), x.len() as int);
        assert(closed.take(x.len() as int) =~= x);
        assert(closed.skip(x.len() as int + 1) =~= none);
        assert(index_from(none, 0, '\n') is None);
        assert(lines(none) =~= Seq::<Seq<char>>::empty());
        if x.len() > 0 {
            assert(x.contains(x.last()));
            assert(lines(closed) =~= seq![x]);
            assert(lines(x) =~= seq![x]);
        } else {
            assert(x =~= none);
            assert(lines(closed) =~= seq![none]);
            assert(lines(x).push(seq![]) =~= seq![none]);
        }
    }
}

// ---------------------------------------------------------------------------
// Blocks
// ---------------------------------------------------------------------------
/// A run in the rest of a sequence is the run in the whole.
proof fn lemma_run_end_shift<T>(pre: Seq<T>, s: Seq<T>, from: int, keep: spec_fn(T) -> bool)
    requires
        0 <= from <= s.len(),
    ensures
        run_end(pre + s, pre.len() + from, keep) == pre.len() + run_end(s, from, keep),
{
    lemma_run_end(s, from, keep);
    let end = run_end(s, from, keep);
    let all = pre + s;
    assert forall|k: int| pre.len() + from <= k < pre.len() + end implies keep(
        #[trigger] all[k],
    ) by {
        assert(keep(s[k - pre.len()]));
    }
    lemma_run_end_is(all, pre.len() + from, keep, pre.len() + end);
}

/// A block is the same whatever lines stand before it.
proof fn lemma_block_shift(pre: Seq<Seq<char>>, ls: Seq<Seq<char>>, i: int)
    requires
        0 <= i < ls.len(),
    ensures
        block_at(pre + ls, pre.len() + i).html == block_at(ls, i).html,
        block_at(pre + ls, pre.len() + i).next == pre.len() + block_at(ls, i).next,
{
    let all = pre + ls;
    let n = pre.len() as int;
    let t = trim(ls[i]);
    assert(all[n + i] == ls[i]);
    if fence_of(t) is Some {
        let keep = code_lines(fence_of(t)->0);
        lemma_run_end_shift(pre, ls, i + 1, keep);
        lemma_run_end(ls, i + 1, keep);
        let end = run_end(ls, i + 1, keep);
        assert(all.subrange(n + i + 1, n + end) =~= ls.subrange(i + 1, end));
    } else if heading_of(t) is Some {
    } else if is_quote(t) {
        lemma_run_end_shift(pre, ls, i, quote_lines());
        lemma_run_end(ls, i, quote_lines());
        let end = run_end(ls, i, quote_lines());
        assert(quote_items(all, n + i, n + end) =~= quote_items(ls, i, end));
    } else if bullet_of(t) is Some {
        lemma_run_end_shift(pre, ls, i, bullet_lines());
        lemma_run_end(ls, i, bullet_lines());
        let end = run_end(ls, i, bullet_lines());
        assert(bullet_items(all, n + i, n + end) =~= bullet_items(ls, i, end));
    } else if numbered_of(t) is Some {
        lemma_run_end_shift(pre, ls, i, numbered_lines());
        lemma_run_end(ls, i, numbered_lines());
        let end = run_end(ls, i, numbered_lines());
        assert(numbered_items(all, n + i, n + end) =~= numbered_items(ls, i, end));
    } else {
        lemma_run_end_shift(pre, ls, i + 1, paragraph_lines());
        lemma_run_end(ls, i + 1, paragraph_lines());
        let end = run_end(ls, i + 1, paragraph_lines());
        assert(trimmed_items(all, n + i, n + end) =~= trimmed_items(ls, i, end));
    }
}

/// Blocks are the same whatever lines stand before them.
pub proof fn lemma_blocks_shift(pre: Seq<Seq<char>>, ls: Seq<Seq<char>>, i: int)
    requires
        0 <= i <= ls.len(),
    ensures
        blocks_from(pre + ls, pre.len() + i) == blocks_from(ls, i),
    decreases ls.len() - i,
{
    if i < ls.len() {
        assert((pre + ls)[pre.len() + i] == ls[i]);
        if trim(ls[i]).len() == 0 {
            lemma_blocks_shift(pre, ls, i + 1);
        } else {
            lemma_block_at(ls, i);
            lemma_block_shift(pre, ls, i);
            lemma_blocks_shift(pre, ls, block_at(ls, i).next);
        }
    }
}

/// A blank line is part of no quote, list or paragraph.
proof fn lemma_blank_ends(line: Seq<char>)
    requires
        trim(line).len() == 0,
    ensures
        !quote_lines()(line),
        !bullet_lines()(line),
        !numbered_lines()(line),
        !paragraph_lines()(line),
{
    reveal_strlit("- ");
    reveal_strlit("* ");
    reveal_strlit("+ ");
}

/// A run ends before an element that is not kept.
proof fn lemma_run_end_cut<T>(s: Seq<T>, rest: Seq<T>, from: int, keep: spec_fn(T) -> bool)
    requires
        0 <= from <= s.len(),
        rest.len() > 0,
        !keep(rest[0]),
    ensures
        run_end(s + rest, from, keep) == run_end(s, from, keep),
{
    lemma_run_end(s, from, keep);
    let end = run_end(s, from, keep);
    let all = s + rest;
    assert forall|k: int| from <= k < end implies keep(#[trigger] all[k]) by {
        assert(keep(s[k]));
    }
    if end < s.len() {
        assert(all[end] == s[end]);
    } else {
        assert(all[end] == rest[0]);
    }
    lemma_run_end_is(all, from, keep, end);
}

/// A block other than fenced code ends before a blank line.
proof fn lemma_block_cut(ls: Seq<Seq<char>>, rest: Seq<Seq<char>>, i: int)
    requires
        0 <= i < ls.len(),
        fence_of(trim(ls[i])) is None,
        rest.len() > 0,
        trim(rest[0]).len() == 0,
    ensures
        block_at(ls + rest, i) == block_at(ls, i),
{
    let all = ls + rest;
    let t = trim(ls[i]);
    assert(all[i] == ls[i]);
    lemma_blank_ends(rest[0]);
    if heading_of(t) is Some {
    } else if is_quote(t) {
        lemma_run_end_cut(ls, rest, i, quote_lines());
        lemma_run_end(ls, i, quote_lines());
        let end = run_end(ls, i, quote_lines());
        assert(quote_items(all, i, end) =~= quote_items(ls, i, end));
    } else if bullet_of(t) is Some {
        lemma_run_end_cut(ls, rest, i, bullet_lines());
        lemma_run_end(ls, i, bullet_lines());
        let end = run_end(ls, i, bullet_lines());
        assert(bullet_items(all, i, end) =~= bullet_items(ls, i, end));
    } else if numbered_of(t) is Some {
        lemma_run_end_cut(ls, rest, i, numbered_lines());
        lemma_run_end(ls, i, numbered_lines());
        let end = run_end(ls, i, numbered_lines());
        assert(numbered_items(all, i, end) =~= numbered_items(ls, i, end));
    } else {
        lemma_run_end_cut(ls, rest, i + 1, paragraph_lines());
        lemma_run_end(ls, i + 1, paragraph_lines());
        let end = run_end(ls, i + 1, paragraph_lines());
        assert(trimmed_items(all, i, end) =~= trimmed_items(ls, i, end));
    }
}

/// Blocks before a blank line are the same whatever follows it.
proof fn lemma_blocks_cut(ls: Seq<Seq<char>>, rest: Seq<Seq<char>>, i: int)
    requires
        0 <= i <= ls.len(),
        fence_free(ls),
        rest.len() > 0,
        trim(rest[0]).len() == 0,
    ensures
        blocks_from(ls + rest, i) == blocks_from(ls, i) + blocks_from(rest, 0),
    decreases ls.len() - i,
{
    let all = ls + rest;
    let last = blocks_from(rest, 0);
    if i == ls.len() {
        lemma_blocks_shift(ls, rest, 0);
        assert(blocks_from(ls, i) + last =~= last);
    } else {
        assert(all[i] == ls[i]);
        if trim(ls[i]).len() == 0 {
            lemma_blocks_cut(ls, rest, i + 1);
        } else {
            assert(fence_of(trim(ls[i])) is None);
            lemma_block_at(ls, i);
            lemma_block_cut(ls, rest, i);
            let block = block_at(ls, i);
            lemma_blocks_cut(ls, rest, block.next);
            let head = seq![block.html];
            assert(head + (blocks_from(ls, block.next) + last) =~= head + blocks_from(
                ls,
                block.next,
            ) + last);
        }
    }
}

// ---------------------------------------------------------------------------
// What is there
// ---------------------------------------------------------------------------
/// Whether something other than white space stands in `s`.
spec fn inked(s: Seq<char>) -> bool {
    exists|i: int| 0 <= i < s.len() && !is_white_space(#[trigger] s[i])
}

proof fn lemma_ink_is_inked(s: Seq<char>)
    ensures
        has_ink(s) <==> inked(s),
{
    lemma_run_end(s, 0, white());
    let start = run_end(s, 0, white());
    let u = trim_start(s);
    lemma_cut_run(u, white());
    if has_ink(s) {
        assert(!white()(s[start]));
        assert(!is_white_space(s[start]));
    }
    if inked(s) {
        let i = choose|i: int| 0 <= i < s.len() && !is_white_space(#[trigger] s[i]);
        if i < start {
            assert(white()(s[i]));
        }
        assert(u[i - start] == s[i]);
        if trim(s).len() == 0 {
            assert(white()(u[i - start]));
        }
    }
}

proof fn lemma_line_feeds_inked(s: Seq<char>)
    requires
        inked(s),
    ensures
        inked(with_line_feeds(s)),
    decreases s.len(),
{
    let i = choose|i: int| 0 <= i < s.len() && !is_white_space(#[trigger] s[i]);
    lemma_line_feeds_step(s);
    if i == 0 {
        assert(with_line_feeds(s)[0] == s[0]);
    } else {
        let n: int = if s.len() > 1 && s[0] == '\r' && s[1] == '\n' {
            2
        } else {
            1
        };
        let rest = s.skip(n);
        assert(rest[i - n] == s[i]);
        lemma_line_feeds_inked(rest);
        let out = with_line_feeds(rest);
        let k = choose|k: int| 0 <= k < out.len() && !is_white_space(#[trigger] out[k]);
        assert(with_line_feeds(s)[k + 1] == out[k]);
    }
}

/// Text with ink has a line with ink.
proof fn lemma_inked_line(x: Seq<char>) -> (k: int)
    requires
        inked(x),
    ensures
        0 <= k < lines(x).len(),
        inked(lines(x)[k]),
    decreases x.len(),
{
    let i = choose|i: int| 0 <= i < x.len() && !is_white_space(#[trigger] x[i]);
    lemma_run_end(x, 0, other_than('\n'));
    let at = run_end(x, 0, other_than('\n'));
    if at < x.len() {
        assert(x[at] == '\n');
        let first = x.take(at);
        let rest = x.skip(at + 1);
        assert(lines(x) == seq![without_cr(first)] + lines(rest));
        if i < at {
            assert(first[i] == x[i]);
            assert(without_cr(first)[i] == x[i]);
            assert(inked(lines(x)[0]));
            0
        } else {
            assert(rest[i - at - 1] == x[i]);
            let k = lemma_inked_line(rest);
            assert(lines(x)[k + 1] == lines(rest)[k]);
            k + 1
        }
    } else {
        assert(lines(x) == seq![x]);
        0
    }
}

proof fn lemma_some_block(ls: Seq<Seq<char>>, i: int, k: int)
    requires
        0 <= i <= k < ls.len(),
        has_ink(ls[k]),
    ensures
        blocks_from(ls, i).len() > 0,
    decreases ls.len() - i,
{
    if trim(ls[i]).len() == 0 {
        lemma_some_block(ls, i + 1, k);
    } else {
        lemma_block_at(ls, i);
    }
}

/// Text with ink renders to something.
pub proof fn lemma_text_has_blocks(text: Seq<char>)
    requires
        has_ink(text),
    ensures
        blocks_from(lines(with_line_feeds(text)), 0).len() > 0,
{
    lemma_ink_is_inked(text);
    lemma_line_feeds_inked(text);
    let x = with_line_feeds(text);
    let k = lemma_inked_line(x);
    lemma_ink_is_inked(lines(x)[k]);
    lemma_some_block(lines(x), 0, k);
}

pub proof fn lemma_join_add(a: Seq<Seq<char>>, b: Seq<Seq<char>>, sep: Seq<char>)
    requires
        a.len() > 0,
        b.len() > 0,
    ensures
        join(a + b, sep) == join(a, sep) + sep + join(b, sep),
    decreases b.len(),
{
    let all = a + b;
    assert(all.last() == b.last());
    if b.len() == 1 {
        assert(all.drop_last() =~= a);
    } else {
        assert(all.drop_last() =~= a + b.drop_last());
        lemma_join_add(a, b.drop_last(), sep);
        let first = join(a, sep) + sep;
        let rest = join(b.drop_last(), sep);
        assert(first + rest + sep + b.last() =~= first + (rest + sep + b.last()));
    }
}

// ---------------------------------------------------------------------------
// The law
// ---------------------------------------------------------------------------
/// The lines of two texts with an empty line between them.
proof fn lemma_parted_lines(a: Seq<char>, b: Seq<char>) -> (more: Seq<Seq<char>>)
    ensures
        lines(with_line_feeds(a + "\n\n"@ + b)) == lines(with_line_feeds(a)) + more + lines(
            with_line_feeds(b),
        ),
        more.len() > 0,
        forall|i: int| 0 <= i < more.len() ==> (#[trigger] more[i]).len() == 0,
{
    reveal_strlit("\n\n");
    let feed = seq!['\n'];
    let none = Seq::<char>::empty();
    let y = with_line_feeds(b);
    let tail = "\n\n"@ + b;
    assert(tail.skip(1).skip(1) =~= b);
    lemma_line_feeds_step(tail);
    lemma_line_feeds_step(tail.skip(1));
    assert(with_line_feeds(tail) =~= feed + (feed + y));
    assert(a + "\n\n"@ + b =~= a + tail);
    lemma_no_carriage_return(a);
    assert(feed.last() == '\n');
    lemma_lines_add(feed, y);
    assert(feed =~= none.push('\n'));
    lemma_lines_closed(none);
    assert(index_from(none, 0, '\n') is None);
    assert(lines(none) =~= Seq::<Seq<char>>::empty());
    assert(lines(feed) =~= seq![none]);
    if a.len() > 0 && a.last() == '\r' {
        let head = a.drop_last();
        let cut = seq!['\r'] + tail;
        lemma_line_feeds_add(head, seq!['\r']);
        assert(head + seq!['\r'] =~= a);
        lemma_line_feeds_step(seq!['\r']);
        assert(seq!['\r'].skip(1) =~= none);
        assert(with_line_feeds(none) =~= none);
        assert(with_line_feeds(a) =~= with_line_feeds(head) + feed);
        lemma_line_feeds_add(head, cut);
        assert(a + tail =~= head + cut);
        lemma_line_feeds_step(cut);
        assert(cut.skip(2) =~= tail.skip(1));
        assert(with_line_feeds(cut) =~= feed + (feed + y));
        assert(with_line_feeds(a + tail) =~= with_line_feeds(a) + (feed + y));
        lemma_lines_add(with_line_feeds(a), feed + y);
        let more = seq![none];
        assert(lines(with_line_feeds(a)) + (lines(feed) + lines(y)) =~= lines(with_line_feeds(a))
            + more + lines(y));
        more
    } else {
        lemma_line_feeds_add(a, tail);
        let x = with_line_feeds(a);
        let closed = x.push('\n');
        assert(with_line_feeds(a + tail) =~= closed + (feed + y));
        lemma_lines_add(closed, feed + y);
        lemma_lines_closed(x);
        if x.len() == 0 || x.last() == '\n' {
            let more = seq![none, none];
            assert(lines(closed) + (lines(feed) + lines(y)) =~= lines(x) + more + lines(y));
            more
        } else {
            let more = seq![none];
            assert(lines(closed) + (lines(feed) + lines(y)) =~= lines(x) + more + lines(y));
            more
        }
    }
}

/// Empty lines make no blocks.
proof fn lemma_empty_lines(more: Seq<Seq<char>>, ls: Seq<Seq<char>>, i: int)
    requires
        0 <= i <= more.len(),
        forall|k: int| 0 <= k < more.len() ==> (#[trigger] more[k]).len() == 0,
    ensures
        blocks_from(more + ls, i) == blocks_from(ls, 0),
    decreases more.len() - i,
{
    if i < more.len() {
        let line = more[i];
        assert((more + ls)[i] == line);
        lemma_run_end(line, 0, white());
        lemma_cut_run(trim_start(line), white());
        lemma_empty_lines(more, ls, i + 1);
    } else {
        lemma_blocks_shift(more, ls, 0);
    }
}

/// Two texts with an empty line between them render apart, with an empty line
/// between, unless code that the first opens may hold the second.
pub proof fn law_texts_render_apart(a: Seq<char>, b: Seq<char>)
    requires
        has_ink(a),
        has_ink(b),
        opens_no_fence(a),
    ensures
        markdown_html(a + "\n\n"@ + b) == markdown_html(a) + "\n\n"@ + markdown_html(b),
{
    let la = lines(with_line_feeds(a));
    let lb = lines(with_line_feeds(b));
    let more = lemma_parted_lines(a, b);
    let rest = more + lb;
    assert(la + more + lb =~= la + rest);
    assert(rest[0] == more[0]);
    lemma_run_end(more[0], 0, white());
    lemma_cut_run(trim_start(more[0]), white());
    lemma_blocks_cut(la, rest, 0);
    lemma_empty_lines(more, lb, 0);
    lemma_text_has_blocks(a);
    lemma_text_has_blocks(b);
    lemma_join_add(blocks_from(la, 0), blocks_from(lb, 0), "\n\n"@);
}

} // verus!
