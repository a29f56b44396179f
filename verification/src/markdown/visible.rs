//! What is there to be seen stays visible.
use vstd::prelude::*;

use crate::basics::{law_ink, law_lines, law_trim};
use crate::markdown::blocks::{
    block_at, blocks_from, bullet_item, bullet_items, bullet_lines, bullet_of, fence_of,
    heading_of, is_quote, lemma_block_at, markdown_html, numbered_item, numbered_items,
    numbered_lines, numbered_of, paragraph_lines, trimmed_items, with_line_feeds,
};
use crate::markdown::inline::{
    bolded_from, closing_paren, escaped, escaped_char, inline_html, italic_upto,
    lemma_closing_paren, link_html, link_opening, linked_from, lone_star, placeholder,
    protected_from, restored_from, span_close,
};
use crate::markdown::parting::{lemma_feeds_stay, lemma_text_has_blocks};
use crate::numbers::{decimal, is_digit, lemma_decimal_digits};
use crate::patterns::{find_from, join, lemma_find_from, lines, replace_all};
use crate::text::{
    has_ink, index_from, is_white_space, lemma_run_end, other_than, run_end, trim,
};

verus! {

/// Whether something other than white space stands in `s`.
spec fn inked(s: Seq<char>) -> bool {
    exists|i: int| 0 <= i < s.len() && !is_white_space(#[trigger] s[i])
}

proof fn lemma_inked_add(a: Seq<char>, b: Seq<char>)
    requires
        inked(a) || inked(b),
    ensures
        inked(a + b),
{
    let s = a + b;
    if inked(a) {
        let i = choose|i: int| 0 <= i < a.len() && !is_white_space(#[trigger] a[i]);
        assert(s[i] == a[i]);
    } else {
        let i = choose|i: int| 0 <= i < b.len() && !is_white_space(#[trigger] b[i]);
        assert(s[a.len() + i] == b[i]);
    }
}

/// Either the first character of a text can be seen, or the rest.
proof fn lemma_inked_from(s: Seq<char>, i: int)
    requires
        0 <= i < s.len(),
        inked(s.skip(i)),
    ensures
        !is_white_space(s[i]) || inked(s.skip(i + 1)),
{
    let t = s.skip(i);
    let k = choose|k: int| 0 <= k < t.len() && !is_white_space(#[trigger] t[k]);
    if k > 0 {
        assert(s.skip(i + 1)[k - 1] == t[k]);
    }
}

proof fn lemma_inked_protected(s: Seq<char>, i: int, n: nat)
    requires
        0 <= i <= s.len(),
        inked(s.skip(i)),
    ensures
        inked(protected_from(s, i, n).0),
    decreases s.len() - i,
{
    if i < s.len() {
        match span_close(s, i) {
            Some(end) => {
                lemma_run_end(s, i + 1, other_than('`'));
                reveal_strlit("@@CODE_SPAN_");
                assert(placeholder(n)[0] == '@');
                lemma_inked_add(placeholder(n), protected_from(s, end + 1, n + 1).0);
            },
            None => {
                lemma_inked_from(s, i);
                if is_white_space(s[i]) {
                    lemma_inked_protected(s, i + 1, n);
                } else {
                    assert(!is_white_space(seq![s[i]][0]));
                }
                lemma_inked_add(seq![s[i]], protected_from(s, i + 1, n).0);
            },
        }
    }
}

proof fn lemma_inked_spans(s: Seq<char>, i: int, n: nat)
    requires
        0 <= i,
    ensures
        forall|k: int|
            0 <= k < protected_from(s, i, n).1.len() ==> inked(
                #[trigger] protected_from(s, i, n).1[k],
            ),
    decreases s.len() - i,
{
    if i < s.len() {
        match span_close(s, i) {
            Some(end) => {
                lemma_run_end(s, i + 1, other_than('`'));
                lemma_inked_spans(s, end + 1, n + 1);
                let rest = protected_from(s, end + 1, n + 1).1;
                let all = protected_from(s, i, n).1;
                reveal_strlit("<code>");
                assert forall|k: int| 0 <= k < all.len() implies inked(#[trigger] all[k]) by {
                    if k == 0 {
                        assert(all[0][0] == '<');
                    } else {
                        assert(all[k] == rest[k - 1]);
                    }
                }
            },
            None => {
                lemma_inked_spans(s, i + 1, n);
                assert(protected_from(s, i, n).1 == protected_from(s, i + 1, n).1);
            },
        }
    }
}

proof fn lemma_inked_escaped(s: Seq<char>)
    requires
        inked(s),
    ensures
        inked(escaped(s)),
    decreases s.len(),
{
    let i = choose|i: int| 0 <= i < s.len() && !is_white_space(#[trigger] s[i]);
    let init = s.drop_last();
    let last = escaped_char(s.last());
    if i == s.len() - 1 {
        reveal_strlit("&amp;");
        reveal_strlit("&lt;");
        reveal_strlit("&gt;");
        assert(last[0] == s.last() || last[0] == '&');
        assert(!is_white_space(last[0]));
    } else {
        assert(init[i] == s[i]);
        lemma_inked_escaped(init);
    }
    lemma_inked_add(escaped(init), last);
}

proof fn lemma_inked_linked(s: Seq<char>, i: int)
    requires
        0 <= i <= s.len(),
        inked(s.skip(i)),
    ensures
        inked(linked_from(s, i)),
    decreases s.len() - i,
{
    if i < s.len() {
        match link_opening(s, i) {
            Some(link) => {
                lemma_run_end(s, i + 1, other_than(']'));
                let label_end = index_from(s, i + 1, ']')->0;
                lemma_closing_paren(s, label_end + 2, 0);
                assert(closing_paren(s, label_end + 2, 0) is Some);
                reveal_strlit("<a href=\"");
                assert(link_html(link)[0] == '<');
                lemma_inked_add(link_html(link), linked_from(s, link.next));
            },
            None => {
                lemma_inked_from(s, i);
                if is_white_space(s[i]) {
                    lemma_inked_linked(s, i + 1);
                } else {
                    assert(!is_white_space(seq![s[i]][0]));
                }
                lemma_inked_add(seq![s[i]], linked_from(s, i + 1));
            },
        }
    }
}

proof fn lemma_inked_bolded(s: Seq<char>)
    requires
        inked(s),
    ensures
        inked(bolded_from(s, 0)),
{
    reveal_strlit("**");
    reveal_strlit("<b>");
    assert(s.skip(0) =~= s);
    lemma_find_from(s, 0, "**"@);
    if let Some(open) = find_from(s, 0, "**"@) {
        lemma_find_from(s, open + 2, "**"@);
        if let Some(close) = find_from(s, open + 2, "**"@) {
            let out = bolded_from(s, 0);
            assert(out[open] == '<');
        }
    }
}

proof fn lemma_inked_italic(s: Seq<char>, n: int)
    requires
        0 <= n <= s.len(),
        inked(s.take(n)),
    ensures
        inked(italic_upto(s, n).0),
    decreases n,
{
    let t = s.take(n);
    let k = choose|k: int| 0 <= k < t.len() && !is_white_space(#[trigger] t[k]);
    let (text, open) = italic_upto(s, n - 1);
    reveal_strlit("<i>");
    reveal_strlit("</i>");
    let last = if lone_star(s, n - 1) {
        if open {
            "</i>"@
        } else {
            "<i>"@
        }
    } else {
        seq![s[n - 1]]
    };
    assert(text.push(s[n - 1]) =~= text + seq![s[n - 1]]);
    if k < n - 1 {
        assert(s.take(n - 1)[k] == t[k]);
        lemma_inked_italic(s, n - 1);
    } else {
        assert(last[0] == '<' || last[0] == s[n - 1]);
        assert(!is_white_space(last[0]));
    }
    lemma_inked_add(text, last);
}

proof fn lemma_inked_replaced(s: Seq<char>, part: Seq<char>, with: Seq<char>)
    requires
        inked(s),
        inked(with),
    ensures
        inked(replace_all(s, part, with)),
    decreases s.len(),
{
    if s.len() > 0 && part.len() > 0 {
        if part.is_prefix_of(s) {
            lemma_inked_add(with, replace_all(s.skip(part.len() as int), part, with));
        } else {
            assert(s.skip(0) =~= s);
            lemma_inked_from(s, 0);
            if is_white_space(s[0]) {
                lemma_inked_replaced(s.skip(1), part, with);
            } else {
                assert(!is_white_space(seq![s[0]][0]));
            }
            lemma_inked_add(seq![s[0]], replace_all(s.skip(1), part, with));
        }
    }
}

proof fn lemma_inked_restored(text: Seq<char>, spans: Seq<Seq<char>>, k: nat)
    requires
        inked(text),
        forall|i: int| 0 <= i < spans.len() ==> inked(#[trigger] spans[i]),
    ensures
        inked(restored_from(text, spans, k)),
    decreases spans.len() - k,
{
    if k < spans.len() {
        assert(inked(spans[k as int]));
        lemma_inked_replaced(text, placeholder(k), spans[k as int]);
        lemma_inked_restored(replace_all(text, placeholder(k), spans[k as int]), spans, k + 1);
    }
}

proof fn lemma_inked_inline(s: Seq<char>)
    requires
        inked(s),
    ensures
        inked(inline_html(s)),
{
    let (text, spans) = protected_from(s, 0, 0);
    assert(s.skip(0) =~= s);
    lemma_inked_protected(s, 0, 0);
    lemma_inked_spans(s, 0, 0);
    lemma_inked_escaped(text);
    let plain = escaped(text);
    assert(plain.skip(0) =~= plain);
    lemma_inked_linked(plain, 0);
    let links = linked_from(plain, 0);
    lemma_inked_bolded(links);
    let bold = bolded_from(links, 0);
    assert(bold.take(bold.len() as int) =~= bold);
    lemma_inked_italic(bold, bold.len() as int);
    lemma_inked_restored(italic_upto(bold, bold.len() as int).0, spans, 0);
}

/// Inline text that can be seen is still seen when it is rendered.
pub proof fn law_inline_text_is_seen(s: Seq<char>)
    requires
        has_ink(s),
    ensures
        has_ink(inline_html(s)),
{
    law_ink(s);
    lemma_inked_inline(s);
    law_ink(inline_html(s));
}

/// Joined texts can be seen where the first can.
proof fn lemma_inked_join(parts: Seq<Seq<char>>, sep: Seq<char>)
    requires
        parts.len() > 0,
        inked(parts[0]),
    ensures
        inked(join(parts, sep)),
    decreases parts.len(),
{
    if parts.len() > 1 {
        lemma_inked_join(parts.drop_last(), sep);
        lemma_inked_add(join(parts.drop_last(), sep), sep);
        lemma_inked_add(join(parts.drop_last(), sep) + sep, parts.last());
    }
}

proof fn lemma_inked_block(ls: Seq<Seq<char>>, i: int)
    requires
        0 <= i < ls.len(),
        trim(ls[i]).len() > 0,
    ensures
        inked(block_at(ls, i).html),
{
    let t = trim(ls[i]);
    let html = block_at(ls, i).html;
    lemma_block_at(ls, i);
    if fence_of(t) is Some {
        reveal_strlit("<pre><code>");
        assert(html[0] == '<');
    } else if heading_of(t) is Some {
        reveal_strlit("<b>");
        assert(html[0] == '<');
    } else if is_quote(t) {
        reveal_strlit("<blockquote>");
        assert(html[0] == '<');
    } else if bullet_of(t) is Some {
        let items = bullet_items(ls, i, run_end(ls, i, bullet_lines()));
        reveal_strlit("• ");
        assert(items[0] == bullet_item(ls[i]));
        assert(items[0][0] == '•');
        lemma_inked_join(items, "\n"@);
    } else if numbered_of(t) is Some {
        let items = numbered_items(ls, i, run_end(ls, i, numbered_lines()));
        lemma_decimal_digits(1);
        assert(items[0] == numbered_item(ls[i], 1));
        assert(items[0][0] == decimal(1)[0]);
        assert(is_digit(decimal(1)[0]));
        lemma_inked_join(items, "\n"@);
    } else {
        let items = trimmed_items(ls, i, run_end(ls, i + 1, paragraph_lines()));
        assert(items[0] == t);
        law_ink(ls[i]);
        let (head, tail) = law_trim(ls[i]);
        assert(!is_white_space(t[0]));
        lemma_inked_join(items, "\n"@);
        lemma_inked_inline(join(items, "\n"@));
    }
}

proof fn lemma_first_block_inked(ls: Seq<Seq<char>>, i: int)
    requires
        0 <= i,
        blocks_from(ls, i).len() > 0,
    ensures
        inked(blocks_from(ls, i)[0]),
    decreases ls.len() - i,
{
    if i < ls.len() {
        if trim(ls[i]).len() == 0 {
            lemma_first_block_inked(ls, i + 1);
        } else {
            lemma_block_at(ls, i);
            lemma_inked_block(ls, i);
        }
    }
}

/// Markdown in which something can be seen renders to something that can be
/// seen.
pub proof fn law_markdown_is_seen(text: Seq<char>)
    requires
        has_ink(text),
    ensures
        has_ink(markdown_html(text)),
{
    lemma_text_has_blocks(text);
    let blocks = blocks_from(lines(with_line_feeds(text)), 0);
    lemma_first_block_inked(lines(with_line_feeds(text)), 0);
    lemma_inked_join(blocks, "\n\n"@);
    law_ink(markdown_html(text));
}

/// Empty Markdown renders to nothing.
pub proof fn law_empty_markdown_is_nothing(text: Seq<char>)
    requires
        text.len() == 0,
    ensures
        markdown_html(text) == Seq::<char>::empty(),
{
    let none = Seq::<char>::empty();
    assert(text =~= none);
    lemma_feeds_stay(none);
    law_lines(none);
    assert(blocks_from(lines(none), 0) =~= Seq::<Seq<char>>::empty());
}

} // verus!
