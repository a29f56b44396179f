//! How headings, lists, quotes, code and paragraphs are shown.
use vstd::prelude::*;

use crate::basics::law_trimmed_stays;
use crate::markdown::blocks::{
    block_at, blocks_from, bullet_items, bullet_lines, bullet_of, code_lines, continues_paragraph,
    digits, fence_of, heading_of, markdown_html, numbered_items, numbered_lines, numbered_of,
    paragraph_lines, quote_items, quote_lines, trimmed_items,
};
use crate::markdown::inline::{escaped, inline_html};
use crate::markdown::laws::{all_plain, is_plain, law_plain_text_stays};
use crate::markdown::parting::{lemma_feeds_stay, lemma_lines_add, lemma_lines_closed};
use crate::numbers::decimal;
use crate::patterns::{join, lines};
use crate::text::{
    index_from, is_white_space, lemma_run_end_is, only, other_than, skip_run, trim, trim_start,
    white,
};

verus! {

/// Text on one line, without white space around it.
pub open spec fn is_line(s: Seq<char>) -> bool {
    &&& s.len() > 0
    &&& !is_white_space(s[0])
    &&& !is_white_space(s[s.len() - 1])
    &&& !s.contains('\n')
    &&& !s.contains('\r')
}

/// Plain text on one line, without white space around it.
pub open spec fn is_words(s: Seq<char>) -> bool {
    is_line(s) && all_plain(s)
}

// ---------------------------------------------------------------------------
// Lines
// ---------------------------------------------------------------------------
/// Lines of text, which hold no line ending.
pub open spec fn are_lines(parts: Seq<Seq<char>>) -> bool {
    forall|i: int|
        0 <= i < parts.len() ==> !(#[trigger] parts[i]).contains('\n') && !parts[i].contains('\r')
}

pub proof fn lemma_joined_has_no_return(parts: Seq<Seq<char>>)
    requires
        are_lines(parts),
    ensures
        !join(parts, "\n"@).contains('\r'),
    decreases parts.len(),
{
    reveal_strlit("\n");
    let out = join(parts, "\n"@);
    if parts.len() > 1 {
        let rest = parts.drop_last();
        assert forall|i: int| 0 <= i < rest.len() implies !(#[trigger] rest[i]).contains('\n')
            && !rest[i].contains('\r') by {
            assert(!parts[i].contains('\r'));
        }
        lemma_joined_has_no_return(rest);
        let head = join(rest, "\n"@);
        let last = parts[parts.len() - 1];
        assert(!last.contains('\r'));
        assert forall|i: int| 0 <= i < out.len() implies #[trigger] out[i] != '\r' by {
            if i < head.len() {
                assert(head.contains(head[i]));
            } else if i > head.len() {
                assert(last.contains(last[i - head.len() - 1]));
            }
        }
    } else if parts.len() == 1 {
        assert(!parts[0].contains('\r'));
    }
}

proof fn lemma_one_line(line: Seq<char>)
    requires
        !line.contains('\n'),
        line.len() > 0,
    ensures
        lines(line) == seq![line],
{
    assert forall|k: int| 0 <= k < line.len() implies other_than('\n')(#[trigger] line[k]) by {
        assert(line.contains(line[k]));
    }
    lemma_run_end_is(line, 0, other_than('\n'), line.len() as int);
    assert(index_from(line, 0, '\n') is None);
}

/// The lines of joined lines, the last one closed, are the lines.
proof fn lemma_closed_lines(parts: Seq<Seq<char>>)
    requires
        are_lines(parts),
        parts.len() > 0,
    ensures
        lines(join(parts, "\n"@).push('\n')) == parts,
    decreases parts.len(),
{
    reveal_strlit("\n");
    let last = parts[parts.len() - 1];
    assert(!last.contains('\n') && !last.contains('\r'));
    lemma_lines_closed(last);
    let none = Seq::<char>::empty();
    if last.len() > 0 {
        lemma_one_line(last);
        assert(last.contains(last.last()));
    } else {
        assert(index_from(last, 0, '\n') is None);
        assert(lines(last) =~= Seq::<Seq<char>>::empty());
        assert(last =~= none);
    }
    assert(lines(last.push('\n')) =~= seq![last]);
    if parts.len() > 1 {
        let rest = parts.drop_last();
        assert forall|i: int| 0 <= i < rest.len() implies !(#[trigger] rest[i]).contains('\n')
            && !rest[i].contains('\r') by {
            assert(!parts[i].contains('\r'));
        }
        lemma_closed_lines(rest);
        let head = join(rest, "\n"@).push('\n');
        lemma_lines_add(head, last.push('\n'));
        assert(join(parts, "\n"@).push('\n') =~= head + last.push('\n'));
        assert(rest + seq![last] =~= parts);
    } else {
        assert(parts =~= seq![last]);
    }
}

/// The lines of joined lines are the lines, where the last one is not empty.
pub proof fn lemma_joined_lines(parts: Seq<Seq<char>>)
    requires
        are_lines(parts),
        parts.len() > 0,
        parts.last().len() > 0,
    ensures
        lines(join(parts, "\n"@)) == parts,
{
    reveal_strlit("\n");
    let last = parts[parts.len() - 1];
    assert(!last.contains('\n') && !last.contains('\r'));
    lemma_one_line(last);
    if parts.len() > 1 {
        let rest = parts.drop_last();
        assert forall|i: int| 0 <= i < rest.len() implies !(#[trigger] rest[i]).contains('\n')
            && !rest[i].contains('\r') by {
            assert(!parts[i].contains('\r'));
        }
        lemma_closed_lines(rest);
        let head = join(rest, "\n"@).push('\n');
        lemma_lines_add(head, last);
        assert(join(parts, "\n"@) =~= head + last);
        assert(rest + seq![last] =~= parts);
    } else {
        assert(parts =~= seq![last]);
    }
}

/// Text whose lines make one block is shown as that block.
pub proof fn lemma_one_block(ls: Seq<Seq<char>>)
    requires
        are_lines(ls),
        ls.len() > 0,
        ls.last().len() > 0,
        trim(ls[0]).len() > 0,
        block_at(ls, 0).next == ls.len(),
    ensures
        markdown_html(join(ls, "\n"@)) == block_at(ls, 0).html,
{
    lemma_joined_has_no_return(ls);
    lemma_feeds_stay(join(ls, "\n"@));
    lemma_joined_lines(ls);
    let html = block_at(ls, 0).html;
    assert(blocks_from(ls, ls.len() as int) =~= Seq::<Seq<char>>::empty());
    assert(blocks_from(ls, 0) =~= seq![html]);
}

/// A mark and a line behind it make a line that is trimmed already.
pub proof fn lemma_marked_line(mark: Seq<char>, words: Seq<char>)
    requires
        is_line(words),
        mark.len() > 0,
        !is_white_space(mark[0]),
        !mark.contains('\n'),
        !mark.contains('\r'),
    ensures
        trim(mark + words) == mark + words,
        !(mark + words).contains('\n'),
        !(mark + words).contains('\r'),
{
    let line = mark + words;
    assert(line[line.len() - 1] == words[words.len() - 1]);
    law_trimmed_stays(line);
    assert forall|i: int| 0 <= i < line.len() implies #[trigger] line[i] != '\n' && line[i]
        != '\r' by {
        if i < mark.len() {
            assert(mark.contains(mark[i]));
        } else {
            assert(words.contains(words[i - mark.len()]));
        }
    }
}

// ---------------------------------------------------------------------------
// Headings
// ---------------------------------------------------------------------------
/// A heading, whatever its level, is shown bold, and the marks in it are rendered.
pub proof fn law_marks_in_headings(level: nat, words: Seq<char>)
    requires
        1 <= level <= 6,
        is_line(words),
    ensures
        markdown_html(Seq::new(level, |i: int| '#') + " "@ + words) == "<b>"@ + inline_html(
            words,
        ) + "</b>"@,
{
    reveal_strlit(" ");
    reveal_strlit("```");
    reveal_strlit("~~~");
    let marks = Seq::new(level, |i: int| '#');
    let mark = marks + " "@;
    let line = mark + words;
    assert(mark[0] == '#');
    lemma_marked_line(mark, words);
    assert forall|k: int| 0 <= k < level implies only('#')(#[trigger] line[k]) by {
        assert(line[k] == marks[k]);
    }
    assert(line[level as int] == ' ');
    lemma_run_end_is(line, 0, only('#'), level as int);
    assert(line.skip(level as int + 1) =~= words);
    law_trimmed_stays(words);
    assert(line.take(3)[0] == '#');
    assert(fence_of(line) is None);
    assert(heading_of(line) == Some(words));
    let ls = seq![line];
    lemma_one_block(ls);
    assert(join(ls, "\n"@) == line);
    assert(marks + " "@ + words =~= line);
}

/// A heading, whatever its level, is shown bold.
pub proof fn law_headings(level: nat, words: Seq<char>)
    requires
        1 <= level <= 6,
        is_words(words),
    ensures
        markdown_html(Seq::new(level, |i: int| '#') + " "@ + words) == "<b>"@ + words + "</b>"@,
{
    law_marks_in_headings(level, words);
    law_plain_text_stays(words);
}

// ---------------------------------------------------------------------------
// Lists
// ---------------------------------------------------------------------------
/// Items behind any of the marks of a list are shown behind bullets, in order,
/// and the marks in them are rendered.
pub proof fn law_marks_in_bullet_lists(mark: Seq<char>, items: Seq<Seq<char>>)
    requires
        mark == "- "@ || mark == "* "@ || mark == "+ "@,
        items.len() > 0,
        forall|i: int| 0 <= i < items.len() ==> is_line(#[trigger] items[i]),
    ensures
        markdown_html(join(Seq::new(items.len(), |i: int| mark + items[i]), "\n"@)) == join(
            Seq::new(items.len(), |i: int| "• "@ + inline_html(items[i])),
            "\n"@,
        ),
{
    reveal_strlit("- ");
    reveal_strlit("* ");
    reveal_strlit("+ ");
    reveal_strlit("```");
    reveal_strlit("~~~");
    let ls = Seq::new(items.len(), |i: int| mark + items[i]);
    let shown = Seq::new(items.len(), |i: int| "• "@ + inline_html(items[i]));
    let n = items.len() as int;
    assert forall|i: int| 0 <= i < n implies {
        let line = #[trigger] ls[i];
        &&& trim(line) == line
        &&& !line.contains('\n')
        &&& !line.contains('\r')
        &&& bullet_of(line) == Some(items[i])
        &&& bullet_lines()(line)
    } by {
        assert(is_line(items[i]));
        lemma_marked_line(mark, items[i]);
        let line = mark + items[i];
        assert(line.take(2) =~= mark);
        assert(line.skip(2) =~= items[i]);
        if mark == "* "@ || mark == "+ "@ {
            assert("- "@[0] != mark[0]);
        }
        if mark == "+ "@ {
            assert("* "@[0] != mark[0]);
        }
    }
    let first = ls[0];
    assert(first[0] == mark[0]);
    assert(first.take(3)[0] == mark[0]);
    assert(fence_of(first) is None);
    lemma_run_end_is(first, 0, only('#'), 0);
    assert(heading_of(first) is None);
    lemma_run_end_is(ls, 0, bullet_lines(), n);
    let out = bullet_items(ls, 0, n);
    assert forall|i: int| 0 <= i < n implies out[i] == #[trigger] shown[i] by {
        assert(is_line(items[i]));
        assert(bullet_of(trim(ls[i])) == Some(items[i]));
        law_trimmed_stays(items[i]);
        assert(out[i] == "• "@ + inline_html(trim(items[i])));
    }
    assert(out =~= shown);
    assert(ls.last() == ls[n - 1]);
    lemma_one_block(ls);
}

/// Items behind any of the marks of a list are shown behind bullets, in order.
pub proof fn law_bullet_lists(mark: Seq<char>, items: Seq<Seq<char>>)
    requires
        mark == "- "@ || mark == "* "@ || mark == "+ "@,
        items.len() > 0,
        forall|i: int| 0 <= i < items.len() ==> is_words(#[trigger] items[i]),
    ensures
        markdown_html(join(Seq::new(items.len(), |i: int| mark + items[i]), "\n"@)) == join(
            Seq::new(items.len(), |i: int| "• "@ + items[i]),
            "\n"@,
        ),
{
    law_marks_in_bullet_lists(mark, items);
    let rendered = Seq::new(items.len(), |i: int| "• "@ + inline_html(items[i]));
    let shown = Seq::new(items.len(), |i: int| "• "@ + items[i]);
    assert forall|i: int| 0 <= i < items.len() implies #[trigger] rendered[i] == shown[i] by {
        assert(is_words(items[i]));
        law_plain_text_stays(items[i]);
    }
    assert(rendered =~= shown);
}

/// Items behind any numbers are shown numbered from one, in order, and the marks
/// in them are rendered.
pub proof fn law_marks_in_numbered_lists(
    numbers: Seq<Seq<char>>,
    mark: Seq<char>,
    items: Seq<Seq<char>>,
)
    requires
        mark == ". "@ || mark == ") "@,
        items.len() > 0,
        numbers.len() == items.len(),
        forall|i: int| 0 <= i < items.len() ==> is_line(#[trigger] items[i]),
        forall|i: int, k: int|
            0 <= i < numbers.len() && 0 <= k < numbers[i].len() ==> '0' <= #[trigger] numbers[i][k]
                <= '9',
        forall|i: int| 0 <= i < numbers.len() ==> (#[trigger] numbers[i]).len() > 0,
    ensures
        markdown_html(
            join(Seq::new(items.len(), |i: int| numbers[i] + mark + items[i]), "\n"@),
        ) == join(
            Seq::new(items.len(), |i: int| decimal((i + 1) as nat) + ". "@ + inline_html(items[i])),
            "\n"@,
        ),
{
    reveal_strlit(". ");
    reveal_strlit(") ");
    reveal_strlit("```");
    reveal_strlit("~~~");
    reveal_strlit("- ");
    reveal_strlit("* ");
    reveal_strlit("+ ");
    let ls = Seq::new(items.len(), |i: int| numbers[i] + mark + items[i]);
    let shown = Seq::new(items.len(), |i: int| decimal((i + 1) as nat) + ". "@ + inline_html(items[i]));
    let n = items.len() as int;
    assert forall|i: int| 0 <= i < n implies {
        let line = #[trigger] ls[i];
        &&& trim(line) == line
        &&& !line.contains('\n')
        &&& !line.contains('\r')
        &&& numbered_of(line) == Some(items[i])
        &&& numbered_lines()(line)
        &&& '0' <= line[0] <= '9'
    } by {
        assert(is_line(items[i]));
        let number = numbers[i];
        let head = number + mark;
        assert(number.len() > 0);
        assert('0' <= numbers[i][0] <= '9');
        assert(head[0] == numbers[i][0]);
        assert forall|k: int| 0 <= k < head.len() implies #[trigger] head[k] != '\n' && head[k]
            != '\r' by {
            if k < number.len() {
                assert('0' <= numbers[i][k] <= '9');
            }
        }
        lemma_marked_line(head, items[i]);
        let line = head + items[i];
        assert(ls[i] =~= line);
        let count = number.len() as int;
        assert forall|k: int| 0 <= k < count implies digits()(#[trigger] line[k]) by {
            assert('0' <= numbers[i][k] <= '9');
        }
        assert(line[count] == mark[0]);
        lemma_run_end_is(line, 0, digits(), count);
        let rest = line.skip(count);
        assert(rest.take(2) =~= mark);
        assert(rest.skip(2) =~= items[i]);
        if mark == ") "@ {
            assert(". "@[0] != mark[0]);
        }
    }
    let first = ls[0];
    assert('0' <= first[0] <= '9');
    assert(first.take(3)[0] == first[0]);
    assert(fence_of(first) is None);
    lemma_run_end_is(first, 0, only('#'), 0);
    assert(heading_of(first) is None);
    assert(first.take(2)[0] == first[0]);
    assert(bullet_of(first) is None);
    lemma_run_end_is(ls, 0, numbered_lines(), n);
    let out = numbered_items(ls, 0, n);
    assert forall|i: int| 0 <= i < n implies out[i] == #[trigger] shown[i] by {
        assert(is_line(items[i]));
        assert(numbered_of(trim(ls[i])) == Some(items[i]));
        law_trimmed_stays(items[i]);
        assert(out[i] == decimal((i + 1) as nat) + ". "@ + inline_html(trim(items[i])));
    }
    assert(out =~= shown);
    assert(ls.last() == ls[n - 1]);
    lemma_one_block(ls);
}

/// Items behind any numbers are shown numbered from one, in order.
pub proof fn law_numbered_lists(
    numbers: Seq<Seq<char>>,
    mark: Seq<char>,
    items: Seq<Seq<char>>,
)
    requires
        mark == ". "@ || mark == ") "@,
        items.len() > 0,
        numbers.len() == items.len(),
        forall|i: int| 0 <= i < items.len() ==> is_words(#[trigger] items[i]),
        forall|i: int, k: int|
            0 <= i < numbers.len() && 0 <= k < numbers[i].len() ==> '0' <= #[trigger] numbers[i][k]
                <= '9',
        forall|i: int| 0 <= i < numbers.len() ==> (#[trigger] numbers[i]).len() > 0,
    ensures
        markdown_html(
            join(Seq::new(items.len(), |i: int| numbers[i] + mark + items[i]), "\n"@),
        ) == join(
            Seq::new(items.len(), |i: int| decimal((i + 1) as nat) + ". "@ + items[i]),
            "\n"@,
        ),
{
    law_marks_in_numbered_lists(numbers, mark, items);
    let rendered = Seq::new(
        items.len(),
        |i: int| decimal((i + 1) as nat) + ". "@ + inline_html(items[i]),
    );
    let shown = Seq::new(items.len(), |i: int| decimal((i + 1) as nat) + ". "@ + items[i]);
    assert forall|i: int| 0 <= i < items.len() implies #[trigger] rendered[i] == shown[i] by {
        assert(is_words(items[i]));
        law_plain_text_stays(items[i]);
    }
    assert(rendered =~= shown);
}

// ---------------------------------------------------------------------------
// Quotes
// ---------------------------------------------------------------------------
/// Lines of a quote are shown together, as a quote, without the marks of the
/// quote, and the marks in each line are rendered.
pub proof fn law_marks_in_quotes(items: Seq<Seq<char>>)
    requires
        items.len() > 0,
        forall|i: int| 0 <= i < items.len() ==> is_line(#[trigger] items[i]),
    ensures
        markdown_html(join(Seq::new(items.len(), |i: int| "> "@ + items[i]), "\n"@))
            == "<blockquote>"@ + join(
            Seq::new(items.len(), |i: int| inline_html(items[i])),
            "\n"@,
        ) + "</blockquote>"@,
{
    reveal_strlit("> ");
    reveal_strlit("```");
    reveal_strlit("~~~");
    let ls = Seq::new(items.len(), |i: int| "> "@ + items[i]);
    let shown = Seq::new(items.len(), |i: int| inline_html(items[i]));
    let n = items.len() as int;
    assert forall|i: int| 0 <= i < n implies {
        let line = #[trigger] ls[i];
        &&& trim(line) == line
        &&& !line.contains('\n')
        &&& !line.contains('\r')
        &&& quote_lines()(line)
        &&& trim_start(skip_run(line, only('>'))) == items[i]
    } by {
        assert(is_line(items[i]));
        let item = items[i];
        lemma_marked_line("> "@, item);
        let line = "> "@ + item;
        lemma_run_end_is(line, 0, only('>'), 1);
        let inner = line.skip(1);
        assert(inner[0] == ' ');
        assert forall|k: int| 0 <= k < 1 implies white()(#[trigger] inner[k]) by {}
        assert(inner[1] == item[0]);
        lemma_run_end_is(inner, 0, white(), 1);
        assert(inner.skip(1) =~= item);
    }
    let first = ls[0];
    assert(first[0] == '>');
    assert(first.take(3)[0] == first[0]);
    assert(fence_of(first) is None);
    lemma_run_end_is(first, 0, only('#'), 0);
    assert(heading_of(first) is None);
    lemma_run_end_is(ls, 0, quote_lines(), n);
    let out = quote_items(ls, 0, n);
    assert forall|i: int| 0 <= i < n implies out[i] == #[trigger] shown[i] by {
        assert(is_line(items[i]));
        assert(trim(ls[i]) == ls[i]);
    }
    assert(out =~= shown);
    assert(ls.last() == ls[n - 1]);
    lemma_one_block(ls);
}

/// Lines of a quote are shown together, as a quote, without their marks.
pub proof fn law_quotes(items: Seq<Seq<char>>)
    requires
        items.len() > 0,
        forall|i: int| 0 <= i < items.len() ==> is_words(#[trigger] items[i]),
    ensures
        markdown_html(join(Seq::new(items.len(), |i: int| "> "@ + items[i]), "\n"@))
            == "<blockquote>"@ + join(items, "\n"@) + "</blockquote>"@,
{
    law_marks_in_quotes(items);
    let shown = Seq::new(items.len(), |i: int| inline_html(items[i]));
    assert forall|i: int| 0 <= i < items.len() implies #[trigger] shown[i] == items[i] by {
        assert(is_words(items[i]));
        law_plain_text_stays(items[i]);
    }
    assert(shown =~= items);
}

// ---------------------------------------------------------------------------
// Fenced code
// ---------------------------------------------------------------------------
/// Code between two fences is shown as code, escaped, line for line, whatever
/// the first fence says of its language.
pub proof fn law_fenced_code(fence: Seq<char>, language: Seq<char>, code: Seq<Seq<char>>)
    requires
        fence == "```"@ || fence == "~~~"@,
        language.len() > 0 ==> !is_white_space(language[language.len() - 1]),
        !language.contains('\n'),
        !language.contains('\r'),
        forall|i: int|
            0 <= i < code.len() ==> !(#[trigger] code[i]).contains('\n') && !code[i].contains('\r')
                && !fence.is_prefix_of(trim(code[i])),
    ensures
        markdown_html(join(seq![fence + language] + code + seq![fence], "\n"@))
            == "<pre><code>"@ + escaped(join(code, "\n"@)) + "</code></pre>"@,
{
    reveal_strlit("```");
    reveal_strlit("~~~");
    let first = fence + language;
    let ls = seq![first] + code + seq![fence];
    let n = code.len() as int;
    assert(first[0] == fence[0]);
    if language.len() > 0 {
        assert(first[first.len() - 1] == language[language.len() - 1]);
    } else {
        assert(first[first.len() - 1] == fence[fence.len() - 1]);
    }
    law_trimmed_stays(first);
    law_trimmed_stays(fence);
    assert(first.take(3) =~= fence);
    if fence == "~~~"@ {
        assert("```"@[0] != fence[0]);
    }
    assert(fence_of(trim(first)) == Some(fence));
    assert forall|i: int| 0 <= i < ls.len() implies !(#[trigger] ls[i]).contains('\n')
        && !ls[i].contains('\r') by {
        if i == 0 {
            assert forall|k: int| 0 <= k < first.len() implies #[trigger] first[k] != '\n'
                && first[k] != '\r' by {
                if k >= 3 {
                    assert(language.contains(language[k - 3]));
                }
            }
        } else if i <= n {
            assert(ls[i] == code[i - 1]);
        } else {
            assert(ls[i] == fence);
        }
    }
    assert forall|k: int| 1 <= k < n + 1 implies code_lines(fence)(#[trigger] ls[k]) by {
        assert(ls[k] == code[k - 1]);
    }
    assert(ls[n + 1] == fence);
    assert(fence.take(3) =~= fence);
    assert(!code_lines(fence)(ls[n + 1]));
    lemma_run_end_is(ls, 1, code_lines(fence), n + 1);
    assert(ls.subrange(1, n + 1) =~= code);
    assert(ls.last() == fence);
    lemma_one_block(ls);
}

// ---------------------------------------------------------------------------
// Paragraphs
// ---------------------------------------------------------------------------
/// A line that starts with a letter opens nothing but a paragraph.
pub proof fn lemma_letters_continue(words: Seq<char>)
    requires
        is_line(words),
        'A' <= words[0] <= 'Z' || 'a' <= words[0] <= 'z',
    ensures
        continues_paragraph(words),
        paragraph_lines()(words),
        trim(words) == words,
{
    reveal_strlit("```");
    reveal_strlit("~~~");
    reveal_strlit("- ");
    reveal_strlit("* ");
    reveal_strlit("+ ");
    law_trimmed_stays(words);
    if words.len() >= 3 {
        assert(words.take(3)[0] == words[0]);
    }
    if words.len() >= 2 {
        assert(words.take(2)[0] == words[0]);
    }
    lemma_run_end_is(words, 0, only('#'), 0);
    lemma_run_end_is(words, 0, digits(), 0);
}

pub proof fn lemma_joined_plain(parts: Seq<Seq<char>>)
    requires
        forall|i: int| 0 <= i < parts.len() ==> all_plain(#[trigger] parts[i]),
    ensures
        all_plain(join(parts, "\n"@)),
    decreases parts.len(),
{
    reveal_strlit("\n");
    if parts.len() > 1 {
        let rest = parts.drop_last();
        assert forall|i: int| 0 <= i < rest.len() implies all_plain(#[trigger] rest[i]) by {
            assert(all_plain(parts[i]));
        }
        lemma_joined_plain(rest);
        let head = join(rest, "\n"@);
        let last = parts[parts.len() - 1];
        let out = join(parts, "\n"@);
        assert(all_plain(last));
        assert forall|k: int| 0 <= k < out.len() implies is_plain(#[trigger] out[k]) by {
            if k < head.len() {
                assert(is_plain(head[k]));
            } else if k > head.len() {
                assert(is_plain(last[k - head.len() - 1]));
            }
        }
    } else if parts.len() == 1 {
        assert(all_plain(parts[0]));
    }
}

/// The lines of a paragraph are rendered together: a mark may open on one line
/// and close on another.
pub proof fn law_marks_in_paragraphs(items: Seq<Seq<char>>)
    requires
        items.len() > 0,
        forall|i: int| 0 <= i < items.len() ==> is_line(#[trigger] items[i]),
        forall|i: int|
            0 <= i < items.len() ==> 'A' <= (#[trigger] items[i])[0] <= 'Z' || 'a' <= items[i][0]
                <= 'z',
    ensures
        markdown_html(join(items, "\n"@)) == inline_html(join(items, "\n"@)),
{
    let n = items.len() as int;
    assert forall|i: int| 0 <= i < n implies {
        let line = #[trigger] items[i];
        &&& trim(line) == line
        &&& !line.contains('\n')
        &&& !line.contains('\r')
        &&& paragraph_lines()(line)
        &&& continues_paragraph(line)
    } by {
        assert(is_line(items[i]));
        lemma_letters_continue(items[i]);
    }
    assert(continues_paragraph(items[0]));
    lemma_run_end_is(items, 1, paragraph_lines(), n);
    let out = trimmed_items(items, 0, n);
    assert forall|i: int| 0 <= i < n implies out[i] == #[trigger] items[i] by {
        assert(trim(items[i]) == items[i]);
    }
    assert(out =~= items);
    assert(items.last() == items[n - 1]);
    assert(is_line(items[n - 1]));
    lemma_one_block(items);
}

/// Plain lines of a paragraph are shown as they are, line for line.
pub proof fn law_paragraphs(items: Seq<Seq<char>>)
    requires
        items.len() > 0,
        forall|i: int| 0 <= i < items.len() ==> is_words(#[trigger] items[i]),
        forall|i: int|
            0 <= i < items.len() ==> 'A' <= (#[trigger] items[i])[0] <= 'Z' || 'a' <= items[i][0]
                <= 'z',
    ensures
        markdown_html(join(items, "\n"@)) == join(items, "\n"@),
{
    assert forall|i: int| 0 <= i < items.len() implies is_line(#[trigger] items[i]) && all_plain(
        items[i],
    ) by {
        assert(is_words(items[i]));
    }
    law_marks_in_paragraphs(items);
    lemma_joined_plain(items);
    law_plain_text_stays(join(items, "\n"@));
}

} // verus!
