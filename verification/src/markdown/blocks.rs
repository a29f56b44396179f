//! Block structure: fenced code, headings, quotes, lists and paragraphs.
use vstd::prelude::*;
use vstd::slice::slice_subrange;

use crate::markdown::inline::{escape_html, escaped, inline_html, render_inline};
use crate::numbers::{ascii_digit, decimal, decimal_chars, is_digit};
use crate::patterns::{
    join, joined, lines, lines_of, replace_all, replace_char, replaced_char, replaced_text,
    starts_with_text, strip_prefix, without_prefix,
};
use crate::text::{
    chars_of, chars_view, leading, lemma_run_end, lemma_run_end_is, only, push_chars, push_text,
    run_end, skip_run, string_of, trim, trim_start, trimmed, trimmed_start,
};

verus! {

// ---------------------------------------------------------------------------
// What a line opens
// ---------------------------------------------------------------------------
/// The fence with which `line` opens fenced code.
pub open spec fn fence_of(line: Seq<char>) -> Option<Seq<char>> {
    if "```"@.is_prefix_of(line) {
        Some("```"@)
    } else if "~~~"@.is_prefix_of(line) {
        Some("~~~"@)
    } else {
        None
    }
}

/// The text of a heading: one to six number signs, a space, and what follows.
pub open spec fn heading_of(line: Seq<char>) -> Option<Seq<char>> {
    let hashes = run_end(line, 0, only('#'));
    if 1 <= hashes <= 6 && hashes < line.len() && line[hashes] == ' ' {
        Some(line.skip(hashes + 1))
    } else {
        None
    }
}

/// Whether `line` is a line of a quote.
pub open spec fn is_quote(line: Seq<char>) -> bool {
    line.len() > 0 && line[0] == '>'
}

/// The text of an item of an unordered list.
pub open spec fn bullet_of(line: Seq<char>) -> Option<Seq<char>> {
    if "- "@.is_prefix_of(line) {
        without_prefix(line, "- "@)
    } else if "* "@.is_prefix_of(line) {
        without_prefix(line, "* "@)
    } else {
        without_prefix(line, "+ "@)
    }
}

/// The digits, as a predicate.
pub open spec fn digits() -> spec_fn(char) -> bool {
    |c: char| is_digit(c)
}

/// The text of an item of an ordered list: digits, a full stop or a closing
/// parenthesis, a space, and what follows.
pub open spec fn numbered_of(line: Seq<char>) -> Option<Seq<char>> {
    let count = run_end(line, 0, digits());
    if count == 0 {
        None
    } else {
        let rest = line.skip(count);
        if ". "@.is_prefix_of(rest) {
            without_prefix(rest, ". "@)
        } else {
            without_prefix(rest, ") "@)
        }
    }
}

/// Whether `line`, which holds no surrounding white space, continues a
/// paragraph: it is not empty and opens nothing else.
pub open spec fn continues_paragraph(line: Seq<char>) -> bool {
    &&& line.len() > 0
    &&& fence_of(line) is None
    &&& heading_of(line) is None
    &&& !is_quote(line)
    &&& bullet_of(line) is None
    &&& numbered_of(line) is None
}

/// The fence with which `line` opens fenced code.
pub fn fence_delimiter(line: &[char]) -> (fence: Option<&'static str>)
    ensures
        match fence {
            Some(found) => fence_of(line@) == Some(found@),
            None => fence_of(line@) is None,
        },
{
    if starts_with_text(line, "```") {
        Some("```")
    } else if starts_with_text(line, "~~~") {
        Some("~~~")
    } else {
        None
    }
}

/// The text of a heading.
pub fn heading_text<'a>(line: &'a [char]) -> (text: Option<&'a [char]>)
    ensures
        match text {
            Some(found) => heading_of(line@) == Some(found@),
            None => heading_of(line@) is None,
        },
{
    let hashes = leading(line, '#');
    if 1 <= hashes && hashes <= 6 && hashes < line.len() && line[hashes] == ' ' {
        let rest = slice_subrange(line, hashes + 1, line.len());
        assert(rest@ =~= line@.skip(hashes + 1));
        Some(rest)
    } else {
        None
    }
}

/// The text of an item of an unordered list.
pub fn unordered_list_item<'a>(line: &'a [char]) -> (text: Option<&'a [char]>)
    ensures
        match text {
            Some(found) => bullet_of(line@) == Some(found@),
            None => bullet_of(line@) is None,
        },
{
    if let Some(rest) = strip_prefix(line, "- ") {
        return Some(rest);
    }
    if let Some(rest) = strip_prefix(line, "* ") {
        return Some(rest);
    }
    strip_prefix(line, "+ ")
}

/// The text of an item of an ordered list.
pub fn ordered_list_item<'a>(line: &'a [char]) -> (text: Option<&'a [char]>)
    ensures
        match text {
            Some(found) => numbered_of(line@) == Some(found@),
            None => numbered_of(line@) is None,
        },
{
    let mut count: usize = 0;
    while count < line.len() && ascii_digit(line[count])
        invariant
            count <= line.len(),
            forall|k: int| 0 <= k < count ==> digits()(#[trigger] line@[k]),
        decreases line.len() - count,
    {
        count += 1;
    }
    proof {
        lemma_run_end_is(line@, 0, digits(), count as int);
    }
    if count == 0 {
        return None;
    }
    let rest = slice_subrange(line, count, line.len());
    assert(rest@ =~= line@.skip(count as int));
    if let Some(found) = strip_prefix(rest, ". ") {
        return Some(found);
    }
    strip_prefix(rest, ") ")
}

/// Whether `line` continues a paragraph.
fn joins_paragraph(line: &[char]) -> (yes: bool)
    ensures
        yes == continues_paragraph(line@),
{
    line.len() > 0 && fence_delimiter(line).is_none() && heading_text(line).is_none() && line[0]
        != '>' && unordered_list_item(line).is_none() && ordered_list_item(line).is_none()
}

// ---------------------------------------------------------------------------
// Blocks
// ---------------------------------------------------------------------------
/// Lines of code inside the fence `fence`, as a predicate.
pub open spec fn code_lines(fence: Seq<char>) -> spec_fn(Seq<char>) -> bool {
    |line: Seq<char>| !fence.is_prefix_of(trim(line))
}

/// Lines of a quote, as a predicate.
pub open spec fn quote_lines() -> spec_fn(Seq<char>) -> bool {
    |line: Seq<char>| is_quote(trim(line))
}

/// Items of an unordered list, as a predicate.
pub open spec fn bullet_lines() -> spec_fn(Seq<char>) -> bool {
    |line: Seq<char>| bullet_of(trim(line)) is Some
}

/// Items of an ordered list, as a predicate.
pub open spec fn numbered_lines() -> spec_fn(Seq<char>) -> bool {
    |line: Seq<char>| numbered_of(trim(line)) is Some
}

/// Lines that continue a paragraph, as a predicate.
pub open spec fn paragraph_lines() -> spec_fn(Seq<char>) -> bool {
    |line: Seq<char>| continues_paragraph(trim(line))
}

/// A line of a quote, rendered.
pub open spec fn quote_item(line: Seq<char>) -> Seq<char> {
    inline_html(trim_start(skip_run(trim(line), only('>'))))
}

/// An item of an unordered list, rendered.
pub open spec fn bullet_item(line: Seq<char>) -> Seq<char> {
    "• "@ + inline_html(trim(bullet_of(trim(line))->0))
}

/// Item number `n` of an ordered list, rendered.
pub open spec fn numbered_item(line: Seq<char>, n: nat) -> Seq<char> {
    decimal(n) + ". "@ + inline_html(trim(numbered_of(trim(line))->0))
}

/// The lines of a quote, rendered.
pub open spec fn quote_items(ls: Seq<Seq<char>>, from: int, to: int) -> Seq<Seq<char>> {
    Seq::new((to - from) as nat, |k: int| quote_item(ls[from + k]))
}

/// The items of an unordered list, rendered.
pub open spec fn bullet_items(ls: Seq<Seq<char>>, from: int, to: int) -> Seq<Seq<char>> {
    Seq::new((to - from) as nat, |k: int| bullet_item(ls[from + k]))
}

/// The items of an ordered list, rendered and numbered from one.
pub open spec fn numbered_items(ls: Seq<Seq<char>>, from: int, to: int) -> Seq<Seq<char>> {
    Seq::new((to - from) as nat, |k: int| numbered_item(ls[from + k], (k + 1) as nat))
}

/// The lines of a paragraph, without surrounding white space.
pub open spec fn trimmed_items(ls: Seq<Seq<char>>, from: int, to: int) -> Seq<Seq<char>> {
    Seq::new((to - from) as nat, |k: int| trim(ls[from + k]))
}

/// A block, rendered, and the line after it.
pub struct BlockView {
    pub html: Seq<char>,
    pub next: int,
}

/// The block that opens at line `i`, which is not blank.
pub open spec fn block_at(ls: Seq<Seq<char>>, i: int) -> BlockView {
    let t = trim(ls[i]);
    if fence_of(t) is Some {
        let end = run_end(ls, i + 1, code_lines(fence_of(t)->0));
        BlockView {
            html: "<pre><code>"@ + escaped(join(ls.subrange(i + 1, end), "\n"@))
                + "</code></pre>"@,
            next: if end < ls.len() {
                end + 1
            } else {
                end
            },
        }
    } else if heading_of(t) is Some {
        BlockView {
            html: "<b>"@ + inline_html(trim(heading_of(t)->0)) + "</b>"@,
            next: i + 1,
        }
    } else if is_quote(t) {
        let end = run_end(ls, i, quote_lines());
        BlockView {
            html: "<blockquote>"@ + join(quote_items(ls, i, end), "\n"@) + "</blockquote>"@,
            next: end,
        }
    } else if bullet_of(t) is Some {
        let end = run_end(ls, i, bullet_lines());
        BlockView { html: join(bullet_items(ls, i, end), "\n"@), next: end }
    } else if numbered_of(t) is Some {
        let end = run_end(ls, i, numbered_lines());
        BlockView { html: join(numbered_items(ls, i, end), "\n"@), next: end }
    } else {
        let end = run_end(ls, i + 1, paragraph_lines());
        BlockView { html: inline_html(join(trimmed_items(ls, i, end), "\n"@)), next: end }
    }
}

/// A block ends after its first line and inside the text.
pub proof fn lemma_block_at(ls: Seq<Seq<char>>, i: int)
    requires
        0 <= i < ls.len(),
    ensures
        i < block_at(ls, i).next <= ls.len(),
{
    let t = trim(ls[i]);
    if fence_of(t) is Some {
        lemma_run_end(ls, i + 1, code_lines(fence_of(t)->0));
    } else if heading_of(t) is Some {
    } else if is_quote(t) {
        assert(quote_lines()(ls[i]));
        lemma_run_end(ls, i, quote_lines());
    } else if bullet_of(t) is Some {
        assert(bullet_lines()(ls[i]));
        lemma_run_end(ls, i, bullet_lines());
    } else if numbered_of(t) is Some {
        assert(numbered_lines()(ls[i]));
        lemma_run_end(ls, i, numbered_lines());
    } else {
        lemma_run_end(ls, i + 1, paragraph_lines());
    }
}

/// The blocks from line `i` on, rendered.
pub open spec fn blocks_from(ls: Seq<Seq<char>>, i: int) -> Seq<Seq<char>>
    decreases ls.len() - i,
{
    if i < 0 || i >= ls.len() {
        seq![]
    } else if trim(ls[i]).len() == 0 {
        blocks_from(ls, i + 1)
    } else {
        let block = block_at(ls, i);
        if i < block.next <= ls.len() {
            seq![block.html] + blocks_from(ls, block.next)
        } else {
            seq![]
        }
    }
}

/// `text` with line feeds as its only line endings.
pub open spec fn with_line_feeds(text: Seq<char>) -> Seq<char> {
    replace_char(replace_all(text, "\r\n"@, "\n"@), '\r', "\n"@)
}

/// The HTML of the Markdown text `text`: its blocks, an empty line between
/// neighbours.
pub open spec fn markdown_html(text: Seq<char>) -> Seq<char> {
    join(blocks_from(lines(with_line_feeds(text)), 0), "\n\n"@)
}

/// Renders the code inside a fence that opens at line `i`.
fn render_fence(ls: &Vec<Vec<char>>, i: usize, fence: &str) -> (block: (Vec<char>, usize))
    requires
        i < ls.len(),
        fence_of(trim(ls@[i as int]@)) == Some(fence@),
    ensures
        block.0@ == block_at(chars_view(ls@), i as int).html,
        block.1 == block_at(chars_view(ls@), i as int).next,
{
    let ghost views = chars_view(ls@);
    let mut code: Vec<Vec<char>> = Vec::new();
    let mut end: usize = i + 1;
    while end < ls.len() && !starts_with_text(trimmed(ls[end].as_slice()), fence)
        invariant
            i < end <= ls.len(),
            views == chars_view(ls@),
            code@.len() == end - i - 1,
            forall|k: int| 0 <= k < code@.len() ==> (#[trigger] code@[k])@ == views[i + 1 + k],
            forall|k: int| i + 1 <= k < end ==> code_lines(fence@)(#[trigger] views[k]),
        decreases ls.len() - end,
    {
        let mut line: Vec<char> = Vec::new();
        push_chars(&mut line, ls[end].as_slice());
        assert(line@ =~= views[end as int]);
        code.push(line);
        end += 1;
    }
    proof {
        if end < ls.len() {
            assert(!code_lines(fence@)(views[end as int]));
        }
        lemma_run_end_is(views, i + 1, code_lines(fence@), end as int);
        assert(chars_view(code@) =~= views.subrange(i + 1, end as int));
    }
    let text = joined(&code, "\n");
    let body = escape_html(text.as_slice());
    let mut html = chars_of("<pre><code>");
    push_chars(&mut html, body.as_slice());
    push_text(&mut html, "</code></pre>");
    if end < ls.len() {
        (html, end + 1)
    } else {
        (html, end)
    }
}

/// Renders the quote that opens at line `i`.
fn render_quote(ls: &Vec<Vec<char>>, i: usize) -> (block: (Vec<char>, usize))
    requires
        i < ls.len(),
    ensures
        block.0@ == "<blockquote>"@ + join(
            quote_items(chars_view(ls@), i as int, block.1 as int),
            "\n"@,
        ) + "</blockquote>"@,
        block.1 == run_end(chars_view(ls@), i as int, quote_lines()),
        block.1 <= ls@.len(),
{
    let ghost views = chars_view(ls@);
    let mut items: Vec<Vec<char>> = Vec::new();
    let mut end: usize = i;
    while end < ls.len()
        invariant
            i <= end <= ls.len(),
            views == chars_view(ls@),
            items@.len() == end - i,
            forall|k: int|
                0 <= k < items@.len() ==> (#[trigger] items@[k])@ == quote_item(views[i + k]),
            forall|k: int| i <= k < end ==> quote_lines()(#[trigger] views[k]),
        ensures
            i <= end <= ls.len(),
            items@.len() == end - i,
            forall|k: int|
                0 <= k < items@.len() ==> (#[trigger] items@[k])@ == quote_item(views[i + k]),
            forall|k: int| i <= k < end ==> quote_lines()(#[trigger] views[k]),
            end < ls.len() ==> !quote_lines()(views[end as int]),
        decreases ls.len() - end,
    {
        let line = trimmed(ls[end].as_slice());
        if line.len() == 0 || line[0] != '>' {
            assert(!quote_lines()(views[end as int]));
            break;
        }
        let marks = leading(line, '>');
        let inner = slice_subrange(line, marks, line.len());
        assert(inner@ =~= line@.skip(marks as int));
        items.push(render_inline(trimmed_start(inner)));
        assert(quote_lines()(views[end as int]));
        end += 1;
    }
    proof {
        lemma_run_end_is(views, i as int, quote_lines(), end as int);
        assert(chars_view(items@) =~= quote_items(views, i as int, end as int));
    }
    let mut html = chars_of("<blockquote>");
    let body = joined(&items, "\n");
    push_chars(&mut html, body.as_slice());
    push_text(&mut html, "</blockquote>");
    (html, end)
}

/// Renders the unordered list that opens at line `i`.
fn render_bullets(ls: &Vec<Vec<char>>, i: usize) -> (block: (Vec<char>, usize))
    requires
        i < ls.len(),
    ensures
        block.0@ == join(bullet_items(chars_view(ls@), i as int, block.1 as int), "\n"@),
        block.1 == run_end(chars_view(ls@), i as int, bullet_lines()),
        block.1 <= ls@.len(),
{
    let ghost views = chars_view(ls@);
    let mut items: Vec<Vec<char>> = Vec::new();
    let mut end: usize = i;
    while end < ls.len()
        invariant
            i <= end <= ls.len(),
            views == chars_view(ls@),
            items@.len() == end - i,
            forall|k: int|
                0 <= k < items@.len() ==> (#[trigger] items@[k])@ == bullet_item(views[i + k]),
            forall|k: int| i <= k < end ==> bullet_lines()(#[trigger] views[k]),
        ensures
            i <= end <= ls.len(),
            items@.len() == end - i,
            forall|k: int|
                0 <= k < items@.len() ==> (#[trigger] items@[k])@ == bullet_item(views[i + k]),
            forall|k: int| i <= k < end ==> bullet_lines()(#[trigger] views[k]),
            end < ls.len() ==> !bullet_lines()(views[end as int]),
        decreases ls.len() - end,
    {
        match unordered_list_item(trimmed(ls[end].as_slice())) {
            Some(text) => {
                let mut item = chars_of("• ");
                let body = render_inline(trimmed(text));
                push_chars(&mut item, body.as_slice());
                items.push(item);
                assert(bullet_lines()(views[end as int]));
                end += 1;
            },
            None => {
                assert(!bullet_lines()(views[end as int]));
                break;
            },
        }
    }
    proof {
        lemma_run_end_is(views, i as int, bullet_lines(), end as int);
        assert(chars_view(items@) =~= bullet_items(views, i as int, end as int));
    }
    (joined(&items, "\n"), end)
}

/// Renders the ordered list that opens at line `i`.
fn render_numbers(ls: &Vec<Vec<char>>, i: usize) -> (block: (Vec<char>, usize))
    requires
        i < ls.len(),
    ensures
        block.0@ == join(numbered_items(chars_view(ls@), i as int, block.1 as int), "\n"@),
        block.1 == run_end(chars_view(ls@), i as int, numbered_lines()),
        block.1 <= ls@.len(),
{
    let ghost views = chars_view(ls@);
    let mut items: Vec<Vec<char>> = Vec::new();
    let mut end: usize = i;
    while end < ls.len()
        invariant
            i <= end <= ls.len(),
            views == chars_view(ls@),
            items@.len() == end - i,
            forall|k: int|
                0 <= k < items@.len() ==> (#[trigger] items@[k])@ == numbered_item(
                    views[i + k],
                    (k + 1) as nat,
                ),
            forall|k: int| i <= k < end ==> numbered_lines()(#[trigger] views[k]),
        ensures
            i <= end <= ls.len(),
            items@.len() == end - i,
            forall|k: int|
                0 <= k < items@.len() ==> (#[trigger] items@[k])@ == numbered_item(
                    views[i + k],
                    (k + 1) as nat,
                ),
            forall|k: int| i <= k < end ==> numbered_lines()(#[trigger] views[k]),
            end < ls.len() ==> !numbered_lines()(views[end as int]),
        decreases ls.len() - end,
    {
        match ordered_list_item(trimmed(ls[end].as_slice())) {
            Some(text) => {
                let mut item = decimal_chars((end - i + 1) as u64);
                push_text(&mut item, ". ");
                let body = render_inline(trimmed(text));
                push_chars(&mut item, body.as_slice());
                items.push(item);
                assert(numbered_lines()(views[end as int]));
                end += 1;
            },
            None => {
                assert(!numbered_lines()(views[end as int]));
                break;
            },
        }
    }
    proof {
        lemma_run_end_is(views, i as int, numbered_lines(), end as int);
        assert(chars_view(items@) =~= numbered_items(views, i as int, end as int));
    }
    (joined(&items, "\n"), end)
}

/// Renders the paragraph that opens at line `i`.
fn render_paragraph(ls: &Vec<Vec<char>>, i: usize) -> (block: (Vec<char>, usize))
    requires
        i < ls.len(),
    ensures
        block.0@ == inline_html(
            join(trimmed_items(chars_view(ls@), i as int, block.1 as int), "\n"@),
        ),
        block.1 == run_end(chars_view(ls@), i + 1, paragraph_lines()),
        block.1 <= ls@.len(),
{
    let ghost views = chars_view(ls@);
    let mut parts: Vec<Vec<char>> = Vec::new();
    let mut first: Vec<char> = Vec::new();
    push_chars(&mut first, trimmed(ls[i].as_slice()));
    assert(first@ =~= trim(views[i as int]));
    parts.push(first);
    let mut end: usize = i + 1;
    while end < ls.len() && joins_paragraph(trimmed(ls[end].as_slice()))
        invariant
            i < end <= ls.len(),
            views == chars_view(ls@),
            parts@.len() == end - i,
            forall|k: int| 0 <= k < parts@.len() ==> (#[trigger] parts@[k])@ == trim(views[i + k]),
            forall|k: int| i + 1 <= k < end ==> paragraph_lines()(#[trigger] views[k]),
        decreases ls.len() - end,
    {
        let mut part: Vec<char> = Vec::new();
        push_chars(&mut part, trimmed(ls[end].as_slice()));
        assert(part@ =~= trim(views[end as int]));
        parts.push(part);
        assert(paragraph_lines()(views[end as int]));
        end += 1;
    }
    proof {
        if end < ls.len() {
            assert(!paragraph_lines()(views[end as int]));
        }
        lemma_run_end_is(views, i + 1, paragraph_lines(), end as int);
        assert(chars_view(parts@) =~= trimmed_items(views, i as int, end as int));
    }
    let text = joined(&parts, "\n");
    (render_inline(text.as_slice()), end)
}

/// Renders the block that opens at line `i`.
fn render_block(ls: &Vec<Vec<char>>, i: usize) -> (block: (Vec<char>, usize))
    requires
        i < ls.len(),
        trim(ls@[i as int]@).len() > 0,
    ensures
        block.0@ == block_at(chars_view(ls@), i as int).html,
        block.1 == block_at(chars_view(ls@), i as int).next,
        i < block.1 <= ls@.len(),
{
    proof {
        lemma_block_at(chars_view(ls@), i as int);
    }
    let line = trimmed(ls[i].as_slice());
    if let Some(fence) = fence_delimiter(line) {
        return render_fence(ls, i, fence);
    }
    if let Some(text) = heading_text(line) {
        let mut html = chars_of("<b>");
        let body = render_inline(trimmed(text));
        push_chars(&mut html, body.as_slice());
        push_text(&mut html, "</b>");
        return (html, i + 1);
    }
    if line[0] == '>' {
        return render_quote(ls, i);
    }
    if unordered_list_item(line).is_some() {
        return render_bullets(ls, i);
    }
    if ordered_list_item(line).is_some() {
        return render_numbers(ls, i);
    }
    render_paragraph(ls, i)
}

/// Renders Markdown as the HTML that Telegram accepts.
pub fn markdown_to_telegram_html(text: &str) -> (html: String)
    ensures
        html@ == markdown_html(text@),
{
    let raw = chars_of(text);
    proof {
        reveal_strlit("\r\n");
    }
    let joined_endings = replaced_text(raw.as_slice(), "\r\n", "\n");
    let normalized = replaced_char(joined_endings.as_slice(), '\r', "\n");
    let ls = lines_of(normalized.as_slice());
    let ghost views = chars_view(ls@);
    let mut blocks: Vec<Vec<char>> = Vec::new();
    let mut i: usize = 0;
    assert(chars_view(blocks@) + blocks_from(views, 0) =~= blocks_from(views, 0));
    while i < ls.len()
        invariant
            i <= ls.len(),
            views == chars_view(ls@),
            blocks_from(views, 0) == chars_view(blocks@) + blocks_from(views, i as int),
        decreases ls.len() - i,
    {
        if trimmed(ls[i].as_slice()).len() == 0 {
            i += 1;
        } else {
            let ghost before = chars_view(blocks@);
            let (html, next) = render_block(&ls, i);
            blocks.push(html);
            proof {
                assert(chars_view(blocks@) =~= before.push(html@));
                assert(before + (seq![html@] + blocks_from(views, next as int)) =~= chars_view(
                    blocks@,
                ) + blocks_from(views, next as int));
            }
            i = next;
        }
    }
    assert(chars_view(blocks@) + Seq::<Seq<char>>::empty() =~= chars_view(blocks@));
    let out = joined(&blocks, "\n\n");
    string_of(out.as_slice())
}

} // verus!
