//! Inline markup: code spans, links, bold and italic text.
use vstd::prelude::*;
use vstd::slice::slice_subrange;

use crate::numbers::{decimal, decimal_chars};
use crate::patterns::{
    find_from, find_part, lemma_find_from, replace_all, replace_char, replaced, replaced_char,
};
use crate::text::{
    chars_of, chars_view, find_char, index_from, lemma_run_end_is, not_white, push_chars, push_text,
    run_end, trim, trimmed, white_space,
};

verus! {

// ---------------------------------------------------------------------------
// Escaping
// ---------------------------------------------------------------------------
/// How `c` is written in HTML text.
pub open spec fn escaped_char(c: char) -> Seq<char> {
    if c == '&' {
        "&amp;"@
    } else if c == '<' {
        "&lt;"@
    } else if c == '>' {
        "&gt;"@
    } else {
        seq![c]
    }
}

/// `s` as HTML text.
pub open spec fn escaped(s: Seq<char>) -> Seq<char>
    decreases s.len(),
{
    if s.len() == 0 {
        seq![]
    } else {
        escaped(s.drop_last()) + escaped_char(s.last())
    }
}

/// Writes `s` as HTML text.
pub fn escape_html(s: &[char]) -> (out: Vec<char>)
    ensures
        out@ == escaped(s@),
{
    let mut out: Vec<char> = Vec::new();
    let mut i: usize = 0;
    while i < s.len()
        invariant
            i <= s.len(),
            out@ == escaped(s@.take(i as int)),
        decreases s.len() - i,
    {
        let c = s[i];
        if c == '&' {
            push_text(&mut out, "&amp;");
        } else if c == '<' {
            push_text(&mut out, "&lt;");
        } else if c == '>' {
            push_text(&mut out, "&gt;");
        } else {
            out.push(c);
        }
        proof {
            assert(s@.take(i + 1).drop_last() =~= s@.take(i as int));
            assert(s@.take(i + 1).last() == c);
            assert(out@ =~= escaped(s@.take(i as int)) + escaped_char(c));
        }
        i += 1;
    }
    assert(s@.take(i as int) =~= s@);
    out
}

/// `s` inside a quoted HTML attribute.
pub open spec fn attribute_text(s: Seq<char>) -> Seq<char> {
    replace_char(s, '"', "&quot;"@)
}

/// Writes `s` for a quoted HTML attribute.
pub fn escape_html_attribute(s: &[char]) -> (out: Vec<char>)
    ensures
        out@ == attribute_text(s@),
{
    replaced_char(s, '"', "&quot;")
}

// ---------------------------------------------------------------------------
// Code spans
// ---------------------------------------------------------------------------
/// The text that stands for the code span number `n`.
pub open spec fn placeholder(n: nat) -> Seq<char> {
    "@@CODE_SPAN_"@ + decimal(n) + "@@"@
}

/// The HTML of a code span around `code`.
pub open spec fn code_html(code: Seq<char>) -> Seq<char> {
    "<code>"@ + escaped(code) + "</code>"@
}

/// The closing back quote of a code span that opens at `i`.
pub open spec fn span_close(s: Seq<char>, i: int) -> Option<int> {
    if 0 <= i < s.len() && s[i] == '`' {
        index_from(s, i + 1, '`')
    } else {
        None
    }
}

/// `s` from `i` on, every code span in it replaced by a placeholder, where `n`
/// spans came before; and the HTML of these spans.
pub open spec fn protected_from(s: Seq<char>, i: int, n: nat) -> (Seq<char>, Seq<Seq<char>>)
    decreases s.len() - i,
{
    if i < 0 || i >= s.len() {
        (seq![], seq![])
    } else {
        match span_close(s, i) {
            Some(end) => {
                if i < end {
                    let (text, spans) = protected_from(s, end + 1, n + 1);
                    (placeholder(n) + text, seq![code_html(s.subrange(i + 1, end))] + spans)
                } else {
                    (seq![], seq![])
                }
            },
            None => {
                let (text, spans) = protected_from(s, i + 1, n);
                (seq![s[i]] + text, spans)
            },
        }
    }
}

/// `text` with the placeholders from number `k` on replaced by their spans.
pub open spec fn restored_from(text: Seq<char>, spans: Seq<Seq<char>>, k: nat) -> Seq<char>
    decreases spans.len() - k,
{
    if k >= spans.len() {
        text
    } else {
        restored_from(replace_all(text, placeholder(k), spans[k as int]), spans, k + 1)
    }
}

/// Writes the placeholder number `n`.
fn placeholder_chars(n: usize) -> (out: Vec<char>)
    ensures
        out@ == placeholder(n as nat),
        out@.len() > 0,
{
    let mut out = chars_of("@@CODE_SPAN_");
    let digits = decimal_chars(n as u64);
    push_chars(&mut out, digits.as_slice());
    push_text(&mut out, "@@");
    proof {
        reveal_strlit("@@");
    }
    out
}

/// Replaces the code spans of `s` by placeholders and renders them.
pub fn protect_code_spans(s: &[char]) -> (result: (Vec<char>, Vec<Vec<char>>))
    ensures
        result.0@ == protected_from(s@, 0, 0).0,
        chars_view(result.1@) == protected_from(s@, 0, 0).1,
{
    let mut out: Vec<char> = Vec::new();
    let mut spans: Vec<Vec<char>> = Vec::new();
    let mut i: usize = 0;
    let ghost whole = protected_from(s@, 0, 0);
    assert(chars_view(spans@) =~= seq![]);
    assert(out@ + whole.0 =~= whole.0);
    assert(chars_view(spans@) + whole.1 =~= whole.1);
    while i < s.len()
        invariant
            i <= s.len(),
            spans@.len() <= i,
            whole.0 == out@ + protected_from(s@, i as int, spans@.len()).0,
            whole.1 == chars_view(spans@) + protected_from(s@, i as int, spans@.len()).1,
        decreases s.len() - i,
    {
        let ghost rest = protected_from(s@, i as int, spans@.len());
        let ghost before = out@;
        let ghost spans_before = spans@;
        let close: Option<usize> = if s[i] == '`' {
            find_char(s, i + 1, '`')
        } else {
            None
        };
        match close {
            Some(end) => {
                let mark = placeholder_chars(spans.len());
                push_chars(&mut out, mark.as_slice());
                let mut html = chars_of("<code>");
                let inner = escape_html(slice_subrange(s, i + 1, end));
                push_chars(&mut html, inner.as_slice());
                push_text(&mut html, "</code>");
                spans.push(html);
                proof {
                    let next = protected_from(s@, end + 1, spans_before.len() + 1);
                    let code = s@.subrange(i + 1, end as int);
                    assert(span_close(s@, i as int) == Some(end as int));
                    assert(html@ =~= code_html(code));
                    assert(chars_view(spans@) =~= chars_view(spans_before).push(code_html(code)));
                    assert(rest.0 == mark@ + next.0);
                    assert(rest.1 == seq![code_html(code)] + next.1);
                    assert(before + (mark@ + next.0) =~= out@ + next.0);
                    assert(chars_view(spans_before) + (seq![code_html(code)] + next.1)
                        =~= chars_view(spans@) + next.1);
                }
                i = end + 1;
            },
            None => {
                out.push(s[i]);
                proof {
                    let next = protected_from(s@, i + 1, spans_before.len());
                    assert(span_close(s@, i as int) is None);
                    assert(rest.0 == seq![s@[i as int]] + next.0);
                    assert(before + (seq![s@[i as int]] + next.0) =~= out@ + next.0);
                }
                i += 1;
            },
        }
    }
    proof {
        assert(out@ + Seq::<char>::empty() =~= out@);
        assert(chars_view(spans@) + Seq::<Seq<char>>::empty() =~= chars_view(spans@));
    }
    (out, spans)
}

/// Puts the rendered code spans back in place of their placeholders.
pub fn restore_code_spans(text: Vec<char>, spans: &Vec<Vec<char>>) -> (out: Vec<char>)
    ensures
        out@ == restored_from(text@, chars_view(spans@), 0),
{
    let ghost start = text@;
    let mut out = text;
    let mut k: usize = 0;
    while k < spans.len()
        invariant
            k <= spans.len(),
            restored_from(start, chars_view(spans@), 0) == restored_from(
                out@,
                chars_view(spans@),
                k as nat,
            ),
        decreases spans.len() - k,
    {
        let mark = placeholder_chars(k);
        let next = replaced(out.as_slice(), mark.as_slice(), spans[k].as_slice());
        assert(chars_view(spans@)[k as int] == spans@[k as int]@);
        out = next;
        k += 1;
    }
    out
}

// ---------------------------------------------------------------------------
// Links
// ---------------------------------------------------------------------------
/// The closing parenthesis that matches an opening one before `i`, where
/// `depth` inner ones are open.
pub open spec fn closing_paren(s: Seq<char>, i: int, depth: nat) -> Option<int>
    decreases s.len() - i,
{
    if i < 0 || i >= s.len() {
        None
    } else if s[i] == '(' {
        closing_paren(s, i + 1, depth + 1)
    } else if s[i] == ')' {
        if depth == 0 {
            Some(i)
        } else {
            closing_paren(s, i + 1, (depth - 1) as nat)
        }
    } else {
        closing_paren(s, i + 1, depth)
    }
}

/// A closing parenthesis stands at or after the start of the search.
pub proof fn lemma_closing_paren(s: Seq<char>, i: int, depth: nat)
    requires
        0 <= i,
    ensures
        closing_paren(s, i, depth) matches Some(end) ==> i <= end < s.len() && s[end] == ')',
    decreases s.len() - i,
{
    if i < s.len() {
        if s[i] == '(' {
            lemma_closing_paren(s, i + 1, depth + 1);
        } else if s[i] == ')' {
            if depth > 0 {
                lemma_closing_paren(s, i + 1, (depth - 1) as nat);
            }
        } else {
            lemma_closing_paren(s, i + 1, depth);
        }
    }
}

/// The address in the parentheses of a link: what stands in angle brackets, or
/// else the first word.
pub open spec fn link_address(target: Seq<char>) -> Option<Seq<char>> {
    let t = trim(target);
    if t.len() == 0 {
        None
    } else if t[0] == '<' {
        match index_from(t, 1, '>') {
            Some(end) => {
                let inner = trim(t.subrange(1, end));
                if inner.len() == 0 {
                    None
                } else {
                    Some(inner)
                }
            },
            None => None,
        }
    } else {
        Some(t.take(run_end(t, 0, not_white())))
    }
}

/// The label and the address of a link, and the position after it.
pub struct LinkView {
    pub label: Seq<char>,
    pub href: Seq<char>,
    pub next: int,
}

/// The link that opens with a bracket at `start`.
pub open spec fn link_at(s: Seq<char>, start: int) -> Option<LinkView> {
    match index_from(s, start + 1, ']') {
        Some(label_end) => {
            if label_end + 1 < s.len() && s[label_end + 1] == '(' {
                match closing_paren(s, label_end + 2, 0) {
                    Some(url_end) => match link_address(s.subrange(label_end + 2, url_end)) {
                        Some(href) => Some(
                            LinkView {
                                label: s.subrange(start + 1, label_end),
                                href,
                                next: url_end + 1,
                            },
                        ),
                        None => None,
                    },
                    None => None,
                }
            } else {
                None
            }
        },
        None => None,
    }
}

/// The link that opens at `i`, where one does.
pub open spec fn link_opening(s: Seq<char>, i: int) -> Option<LinkView> {
    if 0 <= i < s.len() && s[i] == '[' {
        link_at(s, i)
    } else {
        None
    }
}

/// The HTML of a link.
pub open spec fn link_html(link: LinkView) -> Seq<char> {
    "<a href=\""@ + attribute_text(link.href) + "\">"@ + link.label + "</a>"@
}

/// `s` from `i` on, its links rendered.
pub open spec fn linked_from(s: Seq<char>, i: int) -> Seq<char>
    decreases s.len() - i,
{
    if i < 0 || i >= s.len() {
        seq![]
    } else {
        match link_opening(s, i) {
            Some(link) => {
                if i < link.next <= s.len() {
                    link_html(link) + linked_from(s, link.next)
                } else {
                    seq![]
                }
            },
            None => seq![s[i]] + linked_from(s, i + 1),
        }
    }
}

/// Reads the address in the parentheses of a link.
pub fn parse_link_target(target: &[char]) -> (href: Option<Vec<char>>)
    ensures
        match href {
            Some(found) => link_address(target@) == Some(found@),
            None => link_address(target@) is None,
        },
{
    let t = trimmed(target);
    if t.len() == 0 {
        return None;
    }
    let mut out: Vec<char> = Vec::new();
    if t[0] == '<' {
        let end = match find_char(t, 1, '>') {
            Some(end) => end,
            None => return None,
        };
        let inner = trimmed(slice_subrange(t, 1, end));
        if inner.len() == 0 {
            return None;
        }
        push_chars(&mut out, inner);
        assert(out@ =~= inner@);
        return Some(out);
    }
    let mut end: usize = 0;
    while end < t.len() && !white_space(t[end])
        invariant
            end <= t.len(),
            forall|k: int| 0 <= k < end ==> not_white()(#[trigger] t@[k]),
        decreases t.len() - end,
    {
        end += 1;
    }
    proof {
        lemma_run_end_is(t@, 0, not_white(), end as int);
    }
    push_chars(&mut out, slice_subrange(t, 0, end));
    assert(out@ =~= t@.take(end as int));
    Some(out)
}

/// Reads the link that opens with a bracket at `start`: its label, its address
/// and the position after it.
pub fn parse_markdown_link(s: &[char], start: usize) -> (link: Option<(Vec<char>, Vec<char>, usize)>)
    requires
        start < s@.len(),
    ensures
        match link {
            Some(found) => {
                &&& link_at(s@, start as int) == Some(
                    LinkView { label: found.0@, href: found.1@, next: found.2 as int },
                )
                &&& start < found.2 <= s@.len()
            },
            None => link_at(s@, start as int) is None,
        },
{
    assert(s.len() <= usize::MAX);
    let label_end = match find_char(s, start + 1, ']') {
        Some(at) => at,
        None => return None,
    };
    if label_end + 1 >= s.len() || s[label_end + 1] != '(' {
        return None;
    }
    let mut depth: usize = 0;
    let mut i: usize = label_end + 2;
    while i < s.len()
        invariant
            label_end + 2 <= i <= s.len(),
            depth <= i,
            closing_paren(s@, label_end + 2, 0) == closing_paren(s@, i as int, depth as nat),
            label_end + 1 < s.len(),
            s@[label_end + 1] == '(',
            start < label_end,
            index_from(s@, start + 1, ']') == Some(label_end as int),
        decreases s.len() - i,
    {
        let c = s[i];
        if c == '(' {
            depth += 1;
        } else if c == ')' {
            if depth == 0 {
                let target = slice_subrange(s, label_end + 2, i);
                return match parse_link_target(target) {
                    Some(href) => {
                        let mut label: Vec<char> = Vec::new();
                        push_chars(&mut label, slice_subrange(s, start + 1, label_end));
                        assert(label@ =~= s@.subrange(start + 1, label_end as int));
                        Some((label, href, i + 1))
                    },
                    None => None,
                };
            }
            depth -= 1;
        }
        i += 1;
    }
    None
}

/// Renders the links of `s`.
pub fn render_links(s: &[char]) -> (out: Vec<char>)
    ensures
        out@ == linked_from(s@, 0),
{
    let mut out: Vec<char> = Vec::new();
    let mut i: usize = 0;
    assert(out@ + linked_from(s@, 0) =~= linked_from(s@, 0));
    while i < s.len()
        invariant
            i <= s.len(),
            linked_from(s@, 0) == out@ + linked_from(s@, i as int),
        decreases s.len() - i,
    {
        let ghost before = out@;
        let link = if s[i] == '[' {
            parse_markdown_link(s, i)
        } else {
            None
        };
        match link {
            Some((label, href, next)) => {
                push_text(&mut out, "<a href=\"");
                let attribute = escape_html_attribute(href.as_slice());
                push_chars(&mut out, attribute.as_slice());
                push_text(&mut out, "\">");
                push_chars(&mut out, label.as_slice());
                push_text(&mut out, "</a>");
                proof {
                    let view = LinkView { label: label@, href: href@, next: next as int };
                    assert(link_opening(s@, i as int) == Some(view));
                    assert(out@ =~= before + link_html(view));
                    assert(before + (link_html(view) + linked_from(s@, next as int)) =~= out@
                        + linked_from(s@, next as int));
                }
                i = next;
            },
            None => {
                out.push(s[i]);
                proof {
                    assert(link_opening(s@, i as int) is None);
                    assert(before + (seq![s@[i as int]] + linked_from(s@, i + 1)) =~= out@
                        + linked_from(s@, i + 1));
                }
                i += 1;
            },
        }
    }
    assert(out@ + Seq::<char>::empty() =~= out@);
    out
}

// ---------------------------------------------------------------------------
// Bold and italic
// ---------------------------------------------------------------------------
/// `s` from `i` on, what stands between pairs of double asterisks set bold. A
/// double asterisk without a partner stays as it is.
pub open spec fn bolded_from(s: Seq<char>, i: int) -> Seq<char>
    decreases s.len() - i,
{
    match find_from(s, i, "**"@) {
        Some(open) => match find_from(s, open + 2, "**"@) {
            Some(close) => {
                if 0 <= i <= open && open + 2 <= close && close + 2 <= s.len() {
                    s.subrange(i, open) + "<b>"@ + s.subrange(open + 2, close) + "</b>"@
                        + bolded_from(s, close + 2)
                } else {
                    seq![]
                }
            },
            None => s.skip(i),
        },
        None => s.skip(i),
    }
}

/// Sets bold what stands between pairs of double asterisks.
fn render_bold(s: &[char]) -> (out: Vec<char>)
    ensures
        out@ == bolded_from(s@, 0),
{
    let stars = chars_of("**");
    let mut out: Vec<char> = Vec::new();
    let mut i: usize = 0;
    proof {
        reveal_strlit("**");
    }
    assert(out@ + bolded_from(s@, 0) =~= bolded_from(s@, 0));
    while i < s.len()
        invariant
            i <= s.len(),
            stars@ == "**"@,
            stars@.len() == 2,
            bolded_from(s@, 0) == out@ + bolded_from(s@, i as int),
        decreases s.len() - i,
    {
        let ghost before = out@;
        let open = find_part(s, i, stars.as_slice());
        let close = match open {
            Some(at) => find_part(s, at + 2, stars.as_slice()),
            None => None,
        };
        match (open, close) {
            (Some(from), Some(to)) => {
                push_chars(&mut out, slice_subrange(s, i, from));
                push_text(&mut out, "<b>");
                push_chars(&mut out, slice_subrange(s, from + 2, to));
                push_text(&mut out, "</b>");
                proof {
                    let piece = s@.subrange(i as int, from as int) + "<b>"@ + s@.subrange(
                        from + 2,
                        to as int,
                    ) + "</b>"@;
                    assert(out@ =~= before + piece);
                    assert(before + (piece + bolded_from(s@, to + 2)) =~= out@ + bolded_from(
                        s@,
                        to + 2,
                    ));
                }
                i = to + 2;
            },
            _ => {
                push_chars(&mut out, slice_subrange(s, i, s.len()));
                proof {
                    assert(bolded_from(s@, i as int) == s@.skip(i as int));
                    assert(out@ =~= before + s@.skip(i as int));
                }
                return out;
            },
        }
    }
    proof {
        lemma_find_from(s@, i as int, "**"@);
        assert(s@.skip(i as int) =~= Seq::<char>::empty());
        assert(out@ + Seq::<char>::empty() =~= out@);
    }
    out
}

/// Whether an asterisk without a neighbouring asterisk stands at `i`.
pub open spec fn lone_star(s: Seq<char>, i: int) -> bool {
    &&& s[i] == '*'
    &&& i == 0 || s[i - 1] != '*'
    &&& i + 1 >= s.len() || s[i + 1] != '*'
}

/// The first `n` characters of `s`, each lone asterisk in turn opening and
/// closing italic text; and whether italic text is open after them.
pub open spec fn italic_upto(s: Seq<char>, n: int) -> (Seq<char>, bool)
    decreases n,
{
    if n <= 0 {
        (seq![], false)
    } else {
        let (text, open) = italic_upto(s, n - 1);
        if lone_star(s, n - 1) {
            (text + if open {
                "</i>"@
            } else {
                "<i>"@
            }, !open)
        } else {
            (text.push(s[n - 1]), open)
        }
    }
}

/// Sets italic what stands between lone asterisks.
fn render_italic(s: &[char]) -> (out: Vec<char>)
    ensures
        out@ == italic_upto(s@, s@.len() as int).0,
{
    let mut out: Vec<char> = Vec::new();
    let mut i: usize = 0;
    let mut italic = false;
    while i < s.len()
        invariant
            i <= s.len(),
            (out@, italic) == italic_upto(s@, i as int),
        decreases s.len() - i,
    {
        if s[i] == '*' && (i == 0 || s[i - 1] != '*') && (i + 1 >= s.len() || s[i + 1] != '*') {
            assert(lone_star(s@, i as int));
            if italic {
                push_text(&mut out, "</i>");
            } else {
                push_text(&mut out, "<i>");
            }
            italic = !italic;
        } else {
            assert(!lone_star(s@, i as int));
            out.push(s[i]);
        }
        i += 1;
    }
    out
}

/// The HTML of the inline text `s`: code spans are set aside, the rest is
/// escaped, then links, bold and italic text are rendered, and the code spans
/// are put back.
pub open spec fn inline_html(s: Seq<char>) -> Seq<char> {
    let (text, spans) = protected_from(s, 0, 0);
    let bold = bolded_from(linked_from(escaped(text), 0), 0);
    restored_from(italic_upto(bold, bold.len() as int).0, spans, 0)
}

/// Renders inline text.
pub fn render_inline(s: &[char]) -> (out: Vec<char>)
    ensures
        out@ == inline_html(s@),
{
    let (text, spans) = protect_code_spans(s);
    let plain = escape_html(text.as_slice());
    let links = render_links(plain.as_slice());
    let bold = render_bold(links.as_slice());
    let italic = render_italic(bold.as_slice());
    restore_code_spans(italic, &spans)
}

} // verus!
