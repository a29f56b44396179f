//! Which tags and entities stand in rendered text.
use vstd::prelude::*;

use crate::markdown::blocks::{
    block_at, blocks_from, bullet_item, bullet_items, bullet_lines, bullet_of, code_lines,
    fence_of, heading_of, is_quote, lemma_block_at, markdown_html, numbered_item, numbered_items,
    numbered_lines, numbered_of, paragraph_lines, quote_item, quote_items, quote_lines,
    trimmed_items, with_line_feeds,
};
use crate::markdown::inline::{
    attribute_text, bolded_from, closing_paren, code_html, escaped, escaped_char, inline_html,
    italic_upto, lemma_closing_paren, link_address, link_html, link_opening, linked_from,
    lone_star, placeholder, protected_from, restored_from, span_close,
};
use crate::markdown::laws::law_escaped_holds_no_brackets;
use crate::markdown::message::{law_text_without_tags_stays, sanitized};
use crate::numbers::{decimal, is_digit, lemma_decimal_digits};
use crate::patterns::{find_from, join, lemma_find_from, lines, replace_all, stands_at};
use crate::text::{
    index_from, is_white_space, lemma_cut_run, lemma_run_end, not_white, only, other_than, run_end,
    skip_run, trim, trim_start, white,
};

verus! {

/// The tags that the renderer writes. That of a link stands for its start.
pub open spec fn is_tag(tag: Seq<char>) -> bool {
    ||| tag == "<b>"@
    ||| tag == "</b>"@
    ||| tag == "<i>"@
    ||| tag == "</i>"@
    ||| tag == "<code>"@
    ||| tag == "</code>"@
    ||| tag == "<pre>"@
    ||| tag == "</pre>"@
    ||| tag == "<blockquote>"@
    ||| tag == "</blockquote>"@
    ||| tag == "<a href=\""@
    ||| tag == "</a>"@
}

/// The entities that the renderer writes.
pub open spec fn is_entity(entity: Seq<char>) -> bool {
    ||| entity == "&amp;"@
    ||| entity == "&lt;"@
    ||| entity == "&gt;"@
    ||| entity == "&quot;"@
}

/// What means something in HTML.
pub enum Mark {
    Tag,
    Entity,
}

/// The character that every mark of a kind starts with.
pub open spec fn opener(kind: Mark) -> char {
    match kind {
        Mark::Tag => '<',
        Mark::Entity => '&',
    }
}

/// The marks of a kind.
pub open spec fn is_mark(kind: Mark, text: Seq<char>) -> bool {
    match kind {
        Mark::Tag => is_tag(text),
        Mark::Entity => is_entity(text),
    }
}

/// Whether a mark stands in `s` at `at`.
pub open spec fn mark_at(kind: Mark, s: Seq<char>, at: int) -> bool {
    exists|mark: Seq<char>| #[trigger] stands_at(s, at, mark) && is_mark(kind, mark)
}

/// Whether a mark stands wherever `s` holds the character that starts one.
pub open spec fn only_marks(kind: Mark, s: Seq<char>) -> bool {
    forall|i: int| 0 <= i < s.len() && #[trigger] s[i] == opener(kind) ==> mark_at(kind, s, i)
}

/// Whether every opening angle bracket in `s` opens one of the tags.
pub open spec fn only_tags(s: Seq<char>) -> bool {
    only_marks(Mark::Tag, s)
}

/// Whether every ampersand in `s` starts one of the entities.
pub open spec fn only_entities(s: Seq<char>) -> bool {
    only_marks(Mark::Entity, s)
}

/// Whether this holds of all parts.
spec fn parts_only_marks(kind: Mark, parts: Seq<Seq<char>>) -> bool {
    forall|i: int| 0 <= i < parts.len() ==> only_marks(kind, #[trigger] parts[i])
}

/// Text without the character that starts a mark.
spec fn free_of(kind: Mark, s: Seq<char>) -> bool {
    forall|i: int| 0 <= i < s.len() ==> #[trigger] s[i] != opener(kind)
}

/// Whether `c` stands in no mark.
spec fn is_outside(kind: Mark, c: char) -> bool {
    forall|mark: Seq<char>, i: int|
        is_mark(kind, mark) && 0 <= i < mark.len() ==> #[trigger] mark[i] != c
}

// ---------------------------------------------------------------------------
// Marks
// ---------------------------------------------------------------------------
proof fn lemma_tag(tag: Seq<char>)
    requires
        is_tag(tag),
    ensures
        tag.len() > 2,
        tag[0] == '<',
        forall|i: int| 0 < i < tag.len() ==> #[trigger] tag[i] != '<',
        forall|i: int|
            0 <= i < tag.len() ==> #[trigger] tag[i] != '*' && tag[i] != '@' && tag[i] != '&',
{
    reveal_strlit("<b>");
    reveal_strlit("</b>");
    reveal_strlit("<i>");
    reveal_strlit("</i>");
    reveal_strlit("<code>");
    reveal_strlit("</code>");
    reveal_strlit("<pre>");
    reveal_strlit("</pre>");
    reveal_strlit("<blockquote>");
    reveal_strlit("</blockquote>");
    reveal_strlit("<a href=\"");
    reveal_strlit("</a>");
}

/// An entity is an ampersand, letters and a semicolon.
proof fn lemma_entity(entity: Seq<char>)
    requires
        is_entity(entity),
    ensures
        entity.len() > 2,
        entity[0] == '&',
        forall|i: int|
            0 < i < entity.len() ==> 'a' <= #[trigger] entity[i] <= 'z' || entity[i] == ';',
{
    reveal_strlit("&amp;");
    reveal_strlit("&lt;");
    reveal_strlit("&gt;");
    reveal_strlit("&quot;");
}

/// A mark starts with the only character that starts one.
proof fn lemma_mark(kind: Mark, mark: Seq<char>)
    requires
        is_mark(kind, mark),
    ensures
        mark.len() > 0,
        mark[0] == opener(kind),
        forall|i: int| 0 < i < mark.len() ==> #[trigger] mark[i] != opener(kind),
{
    match kind {
        Mark::Tag => lemma_tag(mark),
        Mark::Entity => lemma_entity(mark),
    }
}

/// Characters that stand in no tag and no entity, and some that stand in no
/// entity.
proof fn lemma_outside(kind: Mark, c: char)
    requires
        c == '*' || c == '@' || kind is Entity && (c == ']' || c == ')' || c == '"'
            || is_white_space(c)),
    ensures
        is_outside(kind, c),
{
    assert forall|mark: Seq<char>, i: int|
        is_mark(kind, mark) && 0 <= i < mark.len() implies #[trigger] mark[i] != c by {
        match kind {
            Mark::Tag => lemma_tag(mark),
            Mark::Entity => lemma_entity(mark),
        }
    }
}

proof fn lemma_mark_alone(kind: Mark, mark: Seq<char>)
    requires
        is_mark(kind, mark),
    ensures
        only_marks(kind, mark),
{
    lemma_mark(kind, mark);
    assert(mark.subrange(0, mark.len() as int) =~= mark);
    assert(stands_at(mark, 0, mark));
}

/// A tag by itself holds nothing unknown.
proof fn lemma_tag_alone(kind: Mark, tag: Seq<char>)
    requires
        is_tag(tag),
    ensures
        only_marks(kind, tag),
{
    match kind {
        Mark::Tag => lemma_mark_alone(kind, tag),
        Mark::Entity => lemma_tag(tag),
    }
}

proof fn lemma_add(kind: Mark, a: Seq<char>, b: Seq<char>)
    requires
        only_marks(kind, a),
        only_marks(kind, b),
    ensures
        only_marks(kind, a + b),
{
    let s = a + b;
    assert forall|i: int| 0 <= i < s.len() && #[trigger] s[i] == opener(kind) implies mark_at(
        kind,
        s,
        i,
    ) by {
        if i < a.len() {
            assert(a[i] == opener(kind));
            let mark = choose|mark: Seq<char>|
                #[trigger] stands_at(a, i, mark) && is_mark(kind, mark);
            assert(s.subrange(i, i + mark.len()) =~= a.subrange(i, i + mark.len()));
            assert(stands_at(s, i, mark));
        } else {
            let j = i - a.len();
            assert(b[j] == opener(kind));
            let mark = choose|mark: Seq<char>|
                #[trigger] stands_at(b, j, mark) && is_mark(kind, mark);
            assert(s.subrange(i, i + mark.len()) =~= b.subrange(j, j + mark.len()));
            assert(stands_at(s, i, mark));
        }
    }
}

/// A piece of text that ends before a character that stands in no mark, or at
/// the end of the text, cuts no mark.
proof fn lemma_piece(kind: Mark, s: Seq<char>, from: int, to: int)
    requires
        only_marks(kind, s),
        0 <= from <= to <= s.len(),
        to < s.len() ==> is_outside(kind, s[to]),
    ensures
        only_marks(kind, s.subrange(from, to)),
{
    let piece = s.subrange(from, to);
    assert forall|i: int| 0 <= i < piece.len() && #[trigger] piece[i] == opener(
        kind,
    ) implies mark_at(kind, piece, i) by {
        let at = from + i;
        assert(s[at] == opener(kind));
        let mark = choose|mark: Seq<char>|
            #[trigger] stands_at(s, at, mark) && is_mark(kind, mark);
        if at + mark.len() > to {
            assert(s.subrange(at, at + mark.len())[to - at] == s[to]);
            assert(mark[to - at] != s[to]);
        }
        assert(piece.subrange(i, i + mark.len()) =~= s.subrange(at, at + mark.len()));
        assert(stands_at(piece, i, mark));
    }
}

proof fn lemma_rest(kind: Mark, s: Seq<char>, from: int)
    requires
        only_marks(kind, s),
        0 <= from <= s.len(),
    ensures
        only_marks(kind, s.skip(from)),
{
    lemma_piece(kind, s, from, s.len() as int);
    assert(s.skip(from) =~= s.subrange(from, s.len() as int));
}

proof fn lemma_join(kind: Mark, parts: Seq<Seq<char>>, sep: Seq<char>)
    requires
        parts_only_marks(kind, parts),
        free_of(kind, sep),
    ensures
        only_marks(kind, join(parts, sep)),
    decreases parts.len(),
{
    if parts.len() > 1 {
        assert forall|i: int| 0 <= i < parts.drop_last().len() implies only_marks(
            kind,
            #[trigger] parts.drop_last()[i],
        ) by {
            assert(only_marks(kind, parts[i]));
        }
        lemma_join(kind, parts.drop_last(), sep);
        assert(only_marks(kind, parts[parts.len() - 1]));
        lemma_add(kind, join(parts.drop_last(), sep), sep);
        lemma_add(kind, join(parts.drop_last(), sep) + sep, parts.last());
    } else if parts.len() == 1 {
        assert(only_marks(kind, parts[0]));
    }
}

// ---------------------------------------------------------------------------
// Replacement
// ---------------------------------------------------------------------------
/// Where a replaced part cannot start in the first characters, they stay.
proof fn lemma_head_stays(s: Seq<char>, part: Seq<char>, with: Seq<char>, n: int)
    requires
        0 <= n <= s.len(),
        part.len() > 0,
        forall|i: int| 0 <= i < n ==> #[trigger] s[i] != part[0],
    ensures
        replace_all(s, part, with) == s.take(n) + replace_all(s.skip(n), part, with),
    decreases n,
{
    if n == 0 {
        assert(s.skip(0) =~= s);
        assert(s.take(0) + replace_all(s, part, with) =~= replace_all(s, part, with));
    } else {
        if part.is_prefix_of(s) {
            assert(s.take(part.len() as int)[0] == part[0]);
            assert(s[0] == part[0]);
        }
        let rest = s.skip(1);
        assert forall|i: int| 0 <= i < n - 1 implies #[trigger] rest[i] != part[0] by {
            assert(s[i + 1] != part[0]);
        }
        lemma_head_stays(rest, part, with, n - 1);
        assert(rest.skip(n - 1) =~= s.skip(n));
        assert(seq![s[0]] + (rest.take(n - 1) + replace_all(s.skip(n), part, with)) =~= s.take(n)
            + replace_all(s.skip(n), part, with));
    }
}

/// Putting text with known marks in place of something that cannot start in a
/// mark brings in no other mark.
proof fn lemma_replaced(kind: Mark, s: Seq<char>, part: Seq<char>, with: Seq<char>)
    requires
        only_marks(kind, s),
        only_marks(kind, with),
        part.len() > 0,
        is_outside(kind, part[0]),
    ensures
        only_marks(kind, replace_all(s, part, with)),
    decreases s.len(),
{
    if s.len() > 0 {
        if part.is_prefix_of(s) {
            let n = part.len() as int;
            lemma_rest(kind, s, n);
            lemma_replaced(kind, s.skip(n), part, with);
            lemma_add(kind, with, replace_all(s.skip(n), part, with));
        } else if s[0] == opener(kind) {
            let mark = choose|mark: Seq<char>|
                #[trigger] stands_at(s, 0, mark) && is_mark(kind, mark);
            lemma_mark(kind, mark);
            let n = mark.len() as int;
            assert(s.take(n) =~= mark) by {
                assert(s.take(n) =~= s.subrange(0, n));
            }
            assert forall|i: int| 0 <= i < n implies #[trigger] s[i] != part[0] by {
                assert(s.take(n)[i] == mark[i]);
            }
            lemma_head_stays(s, part, with, n);
            lemma_rest(kind, s, n);
            lemma_replaced(kind, s.skip(n), part, with);
            lemma_mark_alone(kind, mark);
            lemma_add(kind, mark, replace_all(s.skip(n), part, with));
        } else {
            lemma_rest(kind, s, 1);
            lemma_replaced(kind, s.skip(1), part, with);
            assert(free_of(kind, seq![s[0]]));
            lemma_add(kind, seq![s[0]], replace_all(s.skip(1), part, with));
        }
    }
}

proof fn lemma_replaced_free(kind: Mark, s: Seq<char>, part: Seq<char>, with: Seq<char>)
    requires
        free_of(kind, s),
        free_of(kind, with),
    ensures
        free_of(kind, replace_all(s, part, with)),
    decreases s.len(),
{
    if s.len() > 0 && part.len() > 0 {
        let n: int = if part.is_prefix_of(s) {
            part.len() as int
        } else {
            1
        };
        let rest = s.skip(n);
        assert forall|i: int| 0 <= i < rest.len() implies #[trigger] rest[i] != opener(kind) by {
            assert(s[i + n] != opener(kind));
        }
        lemma_replaced_free(kind, rest, part, with);
        assert(s[0] != opener(kind));
    }
}

// ---------------------------------------------------------------------------
// Inline text
// ---------------------------------------------------------------------------
proof fn lemma_escaped(kind: Mark, s: Seq<char>)
    ensures
        only_marks(kind, escaped(s)),
    decreases s.len(),
{
    if s.len() > 0 {
        lemma_escaped(kind, s.drop_last());
        reveal_strlit("&amp;");
        reveal_strlit("&lt;");
        reveal_strlit("&gt;");
        let last = escaped_char(s.last());
        if kind is Entity && is_entity(last) {
            lemma_mark_alone(kind, last);
        } else {
            assert(free_of(kind, last));
        }
        lemma_add(kind, escaped(s.drop_last()), last);
    }
}

proof fn lemma_escaped_free(s: Seq<char>)
    ensures
        free_of(Mark::Tag, escaped(s)),
{
    law_escaped_holds_no_brackets(s);
    assert forall|i: int| 0 <= i < escaped(s).len() implies #[trigger] escaped(s)[i] != '<' by {
        assert(escaped(s).contains(escaped(s)[i]));
    }
}

proof fn lemma_code_html(kind: Mark, code: Seq<char>)
    ensures
        only_marks(kind, code_html(code)),
{
    lemma_escaped(kind, code);
    lemma_tag_alone(kind, "<code>"@);
    lemma_tag_alone(kind, "</code>"@);
    lemma_wrapped(kind, "<code>"@, escaped(code), "</code>"@);
}

/// A slice of escaped text that ends before a character that stands in no
/// entity, or at the end of the text.
proof fn lemma_slice(kind: Mark, s: Seq<char>, from: int, to: int)
    requires
        free_of(Mark::Tag, s),
        only_marks(kind, s),
        0 <= from <= to <= s.len(),
        to < s.len() ==> s[to] == ']' || s[to] == ')' || is_white_space(s[to]),
    ensures
        free_of(Mark::Tag, s.subrange(from, to)),
        only_marks(kind, s.subrange(from, to)),
{
    let slice = s.subrange(from, to);
    assert forall|i: int| 0 <= i < slice.len() implies #[trigger] slice[i] != '<' by {
        assert(s[from + i] != '<');
    }
    if kind is Entity {
        if to < s.len() {
            lemma_outside(kind, s[to]);
        }
        lemma_piece(kind, s, from, to);
    }
}

/// The address of a link is a part of what stands in its parentheses.
proof fn lemma_address(kind: Mark, target: Seq<char>)
    requires
        free_of(Mark::Tag, target),
        only_marks(kind, target),
    ensures
        link_address(target) matches Some(href) ==> free_of(Mark::Tag, href) && only_marks(
            kind,
            href,
        ),
{
    let t = trim(target);
    let start = trim_start(target);
    lemma_run_end(target, 0, white());
    lemma_cut_run(start, white());
    let from = run_end(target, 0, white());
    let to = from + t.len();
    if to < target.len() {
        assert(white()(start[t.len() as int]));
        assert(start[t.len() as int] == target[to]);
    }
    assert(t =~= target.subrange(from, to));
    lemma_slice(kind, target, from, to);
    if t.len() > 0 {
        assert(t[0] != '<');
        lemma_run_end(t, 0, not_white());
        let end = run_end(t, 0, not_white());
        if end < t.len() {
            assert(!not_white()(t[end]));
        }
        assert(t.take(end) =~= t.subrange(0, end));
        lemma_slice(kind, t, 0, end);
    }
}

/// An address in a quoted attribute.
proof fn lemma_attribute(kind: Mark, href: Seq<char>)
    requires
        free_of(Mark::Tag, href),
        only_marks(kind, href),
    ensures
        only_marks(kind, attribute_text(href)),
{
    reveal_strlit("&quot;");
    match kind {
        Mark::Tag => lemma_replaced_free(kind, href, seq!['"'], "&quot;"@),
        Mark::Entity => {
            lemma_mark_alone(kind, "&quot;"@);
            lemma_outside(kind, '"');
            lemma_replaced(kind, href, seq!['"'], "&quot;"@);
        },
    }
}

proof fn lemma_link(kind: Mark, s: Seq<char>, i: int)
    requires
        free_of(Mark::Tag, s),
        only_marks(kind, s),
        0 <= i < s.len(),
    ensures
        link_opening(s, i) matches Some(link) ==> only_marks(kind, link_html(link)) && i
            < link.next <= s.len(),
{
    if let Some(link) = link_opening(s, i) {
        lemma_run_end(s, i + 1, other_than(']'));
        let label_end = index_from(s, i + 1, ']')->0;
        lemma_closing_paren(s, label_end + 2, 0);
        let url_end = closing_paren(s, label_end + 2, 0)->0;
        let target = s.subrange(label_end + 2, url_end);
        lemma_slice(kind, s, label_end + 2, url_end);
        lemma_address(kind, target);
        assert(!other_than(']')(s[label_end]));
        lemma_slice(kind, s, i + 1, label_end);
        lemma_attribute(kind, link.href);
        reveal_strlit("\">");
        assert(free_of(kind, "\">"@));
        let attribute = attribute_text(link.href);
        lemma_tag_alone(kind, "<a href=\""@);
        lemma_tag_alone(kind, "</a>"@);
        lemma_add(kind, "<a href=\""@, attribute);
        lemma_add(kind, "<a href=\""@ + attribute, "\">"@);
        lemma_add(kind, "<a href=\""@ + attribute + "\">"@, link.label);
        lemma_add(kind, "<a href=\""@ + attribute + "\">"@ + link.label, "</a>"@);
    }
}

/// Characters that open no link are copied.
pub proof fn lemma_linked_copies(s: Seq<char>, from: int, to: int)
    requires
        0 <= from <= to <= s.len(),
        forall|k: int| from <= k < to ==> #[trigger] s[k] != '[',
    ensures
        linked_from(s, from) == s.subrange(from, to) + linked_from(s, to),
    decreases to - from,
{
    if from < to {
        assert(s[from] != '[');
        lemma_linked_copies(s, from + 1, to);
        assert(seq![s[from]] + (s.subrange(from + 1, to) + linked_from(s, to)) =~= s.subrange(
            from,
            to,
        ) + linked_from(s, to));
    } else {
        assert(s.subrange(from, to) + linked_from(s, to) =~= linked_from(s, to));
    }
}

proof fn lemma_linked(kind: Mark, s: Seq<char>, i: int)
    requires
        free_of(Mark::Tag, s),
        only_marks(kind, s),
        0 <= i <= s.len(),
    ensures
        only_marks(kind, linked_from(s, i)),
    decreases s.len() - i,
{
    if i < s.len() {
        lemma_link(kind, s, i);
        match link_opening(s, i) {
            Some(link) => {
                lemma_linked(kind, s, link.next);
                lemma_add(kind, link_html(link), linked_from(s, link.next));
            },
            None => {
                if s[i] == opener(kind) {
                    let mark = choose|mark: Seq<char>|
                        #[trigger] stands_at(s, i, mark) && is_mark(kind, mark);
                    assert(s[i] != '<');
                    lemma_entity(mark);
                    let to = i + mark.len();
                    assert forall|k: int| i <= k < to implies #[trigger] s[k] != '[' by {
                        assert(s.subrange(i, to)[k - i] == mark[k - i]);
                    }
                    lemma_linked_copies(s, i, to);
                    lemma_linked(kind, s, to);
                    lemma_mark_alone(kind, mark);
                    lemma_add(kind, mark, linked_from(s, to));
                } else {
                    lemma_linked(kind, s, i + 1);
                    assert(free_of(kind, seq![s[i]]));
                    lemma_add(kind, seq![s[i]], linked_from(s, i + 1));
                }
            },
        }
    }
}

proof fn lemma_bolded(kind: Mark, s: Seq<char>, i: int)
    requires
        only_marks(kind, s),
        0 <= i <= s.len(),
    ensures
        only_marks(kind, bolded_from(s, i)),
    decreases s.len() - i,
{
    reveal_strlit("**");
    lemma_find_from(s, i, "**"@);
    lemma_outside(kind, '*');
    lemma_rest(kind, s, i);
    if let Some(open) = find_from(s, i, "**"@) {
        assert(s.subrange(open, open + 2)[0] == '*');
        lemma_find_from(s, open + 2, "**"@);
        if let Some(close) = find_from(s, open + 2, "**"@) {
            assert(s.subrange(close, close + 2)[0] == '*');
            lemma_bolded(kind, s, close + 2);
            lemma_piece(kind, s, i, open);
            lemma_piece(kind, s, open + 2, close);
            lemma_tag_alone(kind, "<b>"@);
            lemma_tag_alone(kind, "</b>"@);
            let a = s.subrange(i, open);
            let b = s.subrange(open + 2, close);
            lemma_add(kind, a, "<b>"@);
            lemma_add(kind, a + "<b>"@, b);
            lemma_add(kind, a + "<b>"@ + b, "</b>"@);
            lemma_add(kind, a + "<b>"@ + b + "</b>"@, bolded_from(s, close + 2));
        }
    }
}

/// Characters without a lone asterisk among them are copied.
pub proof fn lemma_italic_copies(s: Seq<char>, from: int, to: int)
    requires
        0 <= from <= to <= s.len(),
        forall|k: int| from <= k < to ==> !#[trigger] lone_star(s, k),
    ensures
        italic_upto(s, to).0 == italic_upto(s, from).0 + s.subrange(from, to),
    decreases to - from,
{
    if from < to {
        assert(!lone_star(s, to - 1));
        lemma_italic_copies(s, from, to - 1);
        assert(italic_upto(s, from).0 + s.subrange(from, to - 1).push(s[to - 1]) =~= italic_upto(
            s,
            from,
        ).0 + s.subrange(from, to));
        assert((italic_upto(s, from).0 + s.subrange(from, to - 1)).push(s[to - 1]) =~= italic_upto(
            s,
            from,
        ).0 + s.subrange(from, to));
    } else {
        assert(italic_upto(s, from).0 + s.subrange(from, to) =~= italic_upto(s, from).0);
    }
}

proof fn lemma_italic(kind: Mark, s: Seq<char>, from: int, to: int)
    requires
        only_marks(kind, s),
        0 <= from <= to <= s.len(),
        to < s.len() ==> s[to] == '*',
        forall|k: int| from <= k < to ==> !#[trigger] lone_star(s, k),
    ensures
        only_marks(kind, italic_upto(s, to).0),
    decreases to, from,
{
    lemma_outside(kind, '*');
    if from == 0 {
        lemma_italic_copies(s, 0, to);
        lemma_piece(kind, s, 0, to);
        assert(italic_upto(s, 0).0 + s.subrange(0, to) =~= s.subrange(0, to));
    } else if lone_star(s, from - 1) {
        lemma_italic(kind, s, from - 1, from - 1);
        lemma_italic_copies(s, from, to);
        lemma_piece(kind, s, from, to);
        lemma_tag_alone(kind, "<i>"@);
        lemma_tag_alone(kind, "</i>"@);
        let (text, open) = italic_upto(s, from - 1);
        lemma_add(kind, text, "<i>"@);
        lemma_add(kind, text, "</i>"@);
        lemma_add(kind, italic_upto(s, from).0, s.subrange(from, to));
    } else {
        lemma_italic(kind, s, from - 1, to);
    }
}

proof fn lemma_placeholder(n: nat)
    ensures
        placeholder(n).len() > 0,
        placeholder(n)[0] == '@',
{
    reveal_strlit("@@CODE_SPAN_");
    reveal_strlit("@@");
}

proof fn lemma_restored(kind: Mark, text: Seq<char>, spans: Seq<Seq<char>>, k: nat)
    requires
        only_marks(kind, text),
        parts_only_marks(kind, spans),
    ensures
        only_marks(kind, restored_from(text, spans, k)),
    decreases spans.len() - k,
{
    if k < spans.len() {
        assert(only_marks(kind, spans[k as int]));
        lemma_placeholder(k);
        lemma_outside(kind, '@');
        lemma_replaced(kind, text, placeholder(k), spans[k as int]);
        lemma_restored(kind, replace_all(text, placeholder(k), spans[k as int]), spans, k + 1);
    }
}

proof fn lemma_spans(kind: Mark, s: Seq<char>, i: int, n: nat)
    requires
        0 <= i,
    ensures
        parts_only_marks(kind, protected_from(s, i, n).1),
    decreases s.len() - i,
{
    if i < s.len() {
        match span_close(s, i) {
            Some(end) => {
                lemma_run_end(s, i + 1, other_than('`'));
                let code = s.subrange(i + 1, end);
                lemma_code_html(kind, code);
                lemma_spans(kind, s, end + 1, n + 1);
                let rest = protected_from(s, end + 1, n + 1).1;
                let spans = protected_from(s, i, n).1;
                assert(spans =~= seq![code_html(code)] + rest);
                assert forall|k: int| 0 <= k < spans.len() implies only_marks(
                    kind,
                    #[trigger] spans[k],
                ) by {
                    if k > 0 {
                        assert(only_marks(kind, rest[k - 1]));
                    }
                }
            },
            None => {
                lemma_spans(kind, s, i + 1, n);
                assert(protected_from(s, i, n).1 == protected_from(s, i + 1, n).1);
            },
        }
    }
}

proof fn lemma_inline(kind: Mark, s: Seq<char>)
    ensures
        only_marks(kind, inline_html(s)),
{
    let (text, spans) = protected_from(s, 0, 0);
    lemma_escaped(kind, text);
    lemma_escaped_free(text);
    lemma_linked(kind, escaped(text), 0);
    let links = linked_from(escaped(text), 0);
    lemma_bolded(kind, links, 0);
    let bold = bolded_from(links, 0);
    lemma_italic(kind, bold, bold.len() as int, bold.len() as int);
    lemma_spans(kind, s, 0, 0);
    lemma_restored(kind, italic_upto(bold, bold.len() as int).0, spans, 0);
}

/// Every opening angle bracket in rendered inline text opens one of the
/// renderer's tags: markup in the text itself is shown, never obeyed.
pub proof fn law_inline_holds_known_tags(s: Seq<char>)
    ensures
        only_tags(inline_html(s)),
{
    lemma_inline(Mark::Tag, s);
}

/// Every ampersand in rendered inline text starts one of the renderer's
/// entities: entities in the text itself are shown, never obeyed.
pub proof fn law_inline_holds_known_entities(s: Seq<char>)
    ensures
        only_entities(inline_html(s)),
{
    lemma_inline(Mark::Entity, s);
}

// ---------------------------------------------------------------------------
// Blocks
// ---------------------------------------------------------------------------
proof fn lemma_wrapped(kind: Mark, open: Seq<char>, body: Seq<char>, close: Seq<char>)
    requires
        only_marks(kind, open),
        only_marks(kind, body),
        only_marks(kind, close),
    ensures
        only_marks(kind, open + body + close),
{
    lemma_add(kind, open, body);
    lemma_add(kind, open + body, close);
}

proof fn lemma_pre_tags(kind: Mark)
    ensures
        only_marks(kind, "<pre><code>"@),
        only_marks(kind, "</code></pre>"@),
{
    reveal_strlit("<pre>");
    reveal_strlit("<code>");
    reveal_strlit("</code>");
    reveal_strlit("</pre>");
    reveal_strlit("<pre><code>");
    reveal_strlit("</code></pre>");
    assert("<pre><code>"@ =~= "<pre>"@ + "<code>"@);
    assert("</code></pre>"@ =~= "</code>"@ + "</pre>"@);
    lemma_tag_alone(kind, "<pre>"@);
    lemma_tag_alone(kind, "<code>"@);
    lemma_tag_alone(kind, "</code>"@);
    lemma_tag_alone(kind, "</pre>"@);
    lemma_add(kind, "<pre>"@, "<code>"@);
    lemma_add(kind, "</code>"@, "</pre>"@);
}

proof fn lemma_bullet(kind: Mark, line: Seq<char>)
    ensures
        only_marks(kind, bullet_item(line)),
{
    reveal_strlit("• ");
    let text = trim(bullet_of(trim(line))->0);
    lemma_inline(kind, text);
    lemma_add(kind, "• "@, inline_html(text));
}

proof fn lemma_number(kind: Mark, line: Seq<char>, n: nat)
    ensures
        only_marks(kind, numbered_item(line, n)),
{
    reveal_strlit(". ");
    lemma_decimal_digits(n);
    assert forall|i: int| 0 <= i < decimal(n).len() implies #[trigger] decimal(n)[i] != '<' by {
        assert(is_digit(decimal(n)[i]));
    }
    let text = trim(numbered_of(trim(line))->0);
    lemma_inline(kind, text);
    lemma_add(kind, decimal(n), ". "@);
    lemma_add(kind, decimal(n) + ". "@, inline_html(text));
}

proof fn lemma_block(kind: Mark, ls: Seq<Seq<char>>, i: int)
    requires
        0 <= i < ls.len(),
    ensures
        only_marks(kind, block_at(ls, i).html),
{
    reveal_strlit("\n");
    let t = trim(ls[i]);
    lemma_block_at(ls, i);
    if fence_of(t) is Some {
        let end = run_end(ls, i + 1, code_lines(fence_of(t)->0));
        let code = join(ls.subrange(i + 1, end), "\n"@);
        lemma_escaped(kind, code);
        lemma_pre_tags(kind);
        lemma_wrapped(kind, "<pre><code>"@, escaped(code), "</code></pre>"@);
    } else if heading_of(t) is Some {
        let text = trim(heading_of(t)->0);
        lemma_inline(kind, text);
        lemma_tag_alone(kind, "<b>"@);
        lemma_tag_alone(kind, "</b>"@);
        lemma_wrapped(kind, "<b>"@, inline_html(text), "</b>"@);
    } else if is_quote(t) {
        let items = quote_items(ls, i, run_end(ls, i, quote_lines()));
        assert forall|k: int| 0 <= k < items.len() implies only_marks(
            kind,
            #[trigger] items[k],
        ) by {
            assert(items[k] == quote_item(ls[i + k]));
            lemma_inline(kind, trim_start(skip_run(trim(ls[i + k]), only('>'))));
        }
        lemma_join(kind, items, "\n"@);
        lemma_tag_alone(kind, "<blockquote>"@);
        lemma_tag_alone(kind, "</blockquote>"@);
        lemma_wrapped(kind, "<blockquote>"@, join(items, "\n"@), "</blockquote>"@);
    } else if bullet_of(t) is Some {
        let items = bullet_items(ls, i, run_end(ls, i, bullet_lines()));
        assert forall|k: int| 0 <= k < items.len() implies only_marks(
            kind,
            #[trigger] items[k],
        ) by {
            lemma_bullet(kind, ls[i + k]);
        }
        lemma_join(kind, items, "\n"@);
    } else if numbered_of(t) is Some {
        let items = numbered_items(ls, i, run_end(ls, i, numbered_lines()));
        assert forall|k: int| 0 <= k < items.len() implies only_marks(
            kind,
            #[trigger] items[k],
        ) by {
            lemma_number(kind, ls[i + k], (k + 1) as nat);
        }
        lemma_join(kind, items, "\n"@);
    } else {
        let end = run_end(ls, i + 1, paragraph_lines());
        lemma_inline(kind, join(trimmed_items(ls, i, end), "\n"@));
    }
}

proof fn lemma_blocks(kind: Mark, ls: Seq<Seq<char>>, i: int)
    requires
        0 <= i,
    ensures
        parts_only_marks(kind, blocks_from(ls, i)),
    decreases ls.len() - i,
{
    if i < ls.len() {
        if trim(ls[i]).len() == 0 {
            lemma_blocks(kind, ls, i + 1);
        } else {
            let block = block_at(ls, i);
            lemma_block_at(ls, i);
            lemma_block(kind, ls, i);
            lemma_blocks(kind, ls, block.next);
            let rest = blocks_from(ls, block.next);
            let all = blocks_from(ls, i);
            assert(all =~= seq![block.html] + rest);
            assert forall|k: int| 0 <= k < all.len() implies only_marks(
                kind,
                #[trigger] all[k],
            ) by {
                if k > 0 {
                    assert(only_marks(kind, rest[k - 1]));
                }
            }
        }
    }
}

proof fn lemma_rendered(kind: Mark, text: Seq<char>)
    ensures
        only_marks(kind, markdown_html(text)),
{
    let ls = lines(with_line_feeds(text));
    reveal_strlit("\n\n");
    lemma_blocks(kind, ls, 0);
    lemma_join(kind, blocks_from(ls, 0), "\n\n"@);
}

/// Every opening angle bracket in rendered Markdown opens one of the renderer's
/// tags, whatever the Markdown holds.
pub proof fn law_rendered_holds_known_tags(text: Seq<char>)
    ensures
        only_tags(markdown_html(text)),
{
    lemma_rendered(Mark::Tag, text);
}

/// Every ampersand in rendered Markdown starts one of the renderer's entities,
/// whatever the Markdown holds.
pub proof fn law_rendered_holds_known_entities(text: Seq<char>)
    ensures
        only_entities(markdown_html(text)),
{
    lemma_rendered(Mark::Entity, text);
}

// ---------------------------------------------------------------------------
// Sanitizing
// ---------------------------------------------------------------------------
/// A tag that the renderer does not write stands nowhere in text with known
/// tags only.
proof fn lemma_foreign_tag(s: Seq<char>, foreign: Seq<char>, at: int)
    requires
        only_tags(s),
        foreign == "<name>"@ || foreign == "</name>"@ || foreign == "<thinking>"@ || foreign
            == "</thinking>"@,
    ensures
        !stands_at(s, at, foreign),
{
    reveal_strlit("<name>");
    reveal_strlit("</name>");
    reveal_strlit("<thinking>");
    reveal_strlit("</thinking>");
    reveal_strlit("<b>");
    reveal_strlit("</b>");
    reveal_strlit("<i>");
    reveal_strlit("</i>");
    reveal_strlit("<code>");
    reveal_strlit("</code>");
    reveal_strlit("<pre>");
    reveal_strlit("</pre>");
    reveal_strlit("<blockquote>");
    reveal_strlit("</blockquote>");
    reveal_strlit("<a href=\"");
    reveal_strlit("</a>");
    if stands_at(s, at, foreign) {
        let here = s.subrange(at, at + foreign.len());
        assert(here[0] == s[at]);
        assert(here[1] == s[at + 1]);
        assert(here[2] == s[at + 2]);
        assert(s[at] == '<');
        let tag = choose|tag: Seq<char>| #[trigger] stands_at(s, at, tag) && is_tag(tag);
        let there = s.subrange(at, at + tag.len());
        assert(there[0] == s[at]);
        assert(there[1] == s[at + 1]);
        assert(there[2] == s[at + 2]);
    }
}

/// Rendered Markdown is sanitized already: escaping the tags that Telegram
/// rejects changes nothing in it.
pub proof fn law_rendered_is_sanitized(text: Seq<char>)
    ensures
        sanitized(markdown_html(text)) == markdown_html(text),
{
    let html = markdown_html(text);
    law_rendered_holds_known_tags(text);
    assert forall|at: int| !#[trigger] stands_at(html, at, "<name>"@) by {
        lemma_foreign_tag(html, "<name>"@, at);
    }
    assert forall|at: int| !#[trigger] stands_at(html, at, "</name>"@) by {
        lemma_foreign_tag(html, "</name>"@, at);
    }
    assert forall|at: int| !#[trigger] stands_at(html, at, "<thinking>"@) by {
        lemma_foreign_tag(html, "<thinking>"@, at);
    }
    assert forall|at: int| !#[trigger] stands_at(html, at, "</thinking>"@) by {
        lemma_foreign_tag(html, "</thinking>"@, at);
    }
    law_text_without_tags_stays(html);
}

} // verus!
