//! Where a block ends, and what opens none.
use vstd::prelude::*;

use crate::basics::law_trimmed_stays;
use crate::markdown::block_laws::{
    are_lines, is_words, lemma_joined_has_no_return, lemma_joined_lines, lemma_joined_plain,
    lemma_letters_continue, lemma_marked_line, lemma_one_block,
};
use crate::markdown::blocks::{
    block_at, blocks_from, bullet_item, bullet_items, bullet_lines, bullet_of, code_lines,
    continues_paragraph, digits, fence_of, heading_of, is_quote, lemma_block_at, markdown_html,
    numbered_item, numbered_items, numbered_lines, numbered_of, paragraph_lines, quote_item,
    quote_items, quote_lines, trimmed_items, with_line_feeds,
};
use crate::markdown::inline::{escaped, inline_html};
use crate::markdown::laws::{all_plain, is_plain, law_plain_text_stays};
use crate::markdown::parting::{lemma_blocks_shift, lemma_feeds_stay, lemma_join_add};
use crate::patterns::{join, lines};
use crate::text::{
    lemma_run_end, lemma_run_end_is, only, run_end, skip_run, trim, trim_start, white,
};

verus! {

/// Words that start with a letter.
pub open spec fn is_prose(s: Seq<char>) -> bool {
    is_words(s) && ('A' <= s[0] <= 'Z' || 'a' <= s[0] <= 'z')
}

/// A block that ends before further lines is shown before what they show.
proof fn lemma_two_blocks(first: Seq<Seq<char>>, second: Seq<Seq<char>>)
    requires
        first.len() > 0,
        second.len() > 0,
        are_lines(first + second),
        trim(first[0]).len() > 0,
        trim(second[0]).len() > 0,
        second.last().len() > 0,
        block_at(first + second, 0).next == first.len(),
    ensures
        markdown_html(join(first + second, "\n"@)) == block_at(first + second, 0).html + "\n\n"@
            + markdown_html(join(second, "\n"@)),
{
    let all = first + second;
    let html = block_at(all, 0).html;
    assert(all.last() == second.last());
    assert(all[0] == first[0]);
    assert forall|i: int| 0 <= i < second.len() implies !(#[trigger] second[i]).contains('\n')
        && !second[i].contains('\r') by {
        assert(all[first.len() + i] == second[i]);
    }
    lemma_joined_has_no_return(all);
    lemma_feeds_stay(join(all, "\n"@));
    lemma_joined_lines(all);
    lemma_joined_has_no_return(second);
    lemma_feeds_stay(join(second, "\n"@));
    lemma_joined_lines(second);
    lemma_blocks_shift(first, second, 0);
    lemma_block_at(second, 0);
    let rest = blocks_from(second, 0);
    assert(rest.len() > 0);
    assert(blocks_from(all, 0) =~= seq![html] + rest);
    lemma_join_add(seq![html], rest, "\n\n"@);
}

/// A mark and words behind it open a block of their own.
proof fn lemma_mark_opens(mark: Seq<char>, words: Seq<char>)
    requires
        mark == "# "@ || mark == "- "@ || mark == "* "@ || mark == "+ "@ || mark == "> "@ || mark
            == "1. "@ || mark == "1) "@,
        is_words(words),
    ensures
        trim(mark + words) == mark + words,
        !(mark + words).contains('\n'),
        !(mark + words).contains('\r'),
        (mark + words).len() > 0,
        !continues_paragraph(mark + words),
{
    reveal_strlit("# ");
    reveal_strlit("- ");
    reveal_strlit("* ");
    reveal_strlit("+ ");
    reveal_strlit("> ");
    reveal_strlit("1. ");
    reveal_strlit("1) ");
    reveal_strlit(". ");
    reveal_strlit(") ");
    let line = mark + words;
    lemma_marked_line(mark, words);
    assert(line[0] == mark[0] && line[1] == mark[1]);
    if mark == "# "@ {
        lemma_run_end_is(line, 0, only('#'), 1);
    } else if mark == "- "@ || mark == "* "@ || mark == "+ "@ {
        assert(line.take(2) =~= mark);
    } else if mark == "1. "@ || mark == "1) "@ {
        lemma_run_end_is(line, 0, digits(), 1);
        let rest = line.skip(1);
        assert(rest.take(2) =~= mark.skip(1));
        assert(mark.skip(1) =~= ". "@ || mark.skip(1) =~= ") "@);
    }
}

/// A paragraph ends where a heading, a list or a quote begins, without an empty
/// line between them.
pub proof fn law_paragraphs_end(items: Seq<Seq<char>>, mark: Seq<char>, words: Seq<char>)
    requires
        items.len() > 0,
        forall|i: int| 0 <= i < items.len() ==> is_prose(#[trigger] items[i]),
        mark == "# "@ || mark == "- "@ || mark == "* "@ || mark == "+ "@ || mark == "> "@ || mark
            == "1. "@ || mark == "1) "@,
        is_words(words),
    ensures
        markdown_html(join(items.push(mark + words), "\n"@)) == join(items, "\n"@) + "\n\n"@
            + markdown_html(mark + words),
{
    let line = mark + words;
    lemma_mark_opens(mark, words);
    let second = seq![line];
    let all = items + second;
    let n = items.len() as int;
    assert(items.push(line) =~= all);
    assert forall|i: int| 0 <= i < n implies {
        let item = #[trigger] items[i];
        &&& trim(item) == item
        &&& !item.contains('\n')
        &&& !item.contains('\r')
        &&& paragraph_lines()(item)
        &&& continues_paragraph(item)
        &&& all_plain(item)
    } by {
        assert(is_prose(items[i]));
        lemma_letters_continue(items[i]);
    }
    assert forall|i: int| 0 <= i < all.len() implies !(#[trigger] all[i]).contains('\n')
        && !all[i].contains('\r') by {
        if i < n {
            assert(all[i] == items[i]);
        }
    }
    assert(all[0] == items[0]);
    assert(continues_paragraph(items[0]));
    assert forall|k: int| 1 <= k < n implies paragraph_lines()(#[trigger] all[k]) by {
        assert(all[k] == items[k]);
    }
    assert(all[n] == line);
    assert(!paragraph_lines()(all[n]));
    lemma_run_end_is(all, 1, paragraph_lines(), n);
    let out = trimmed_items(all, 0, n);
    assert forall|i: int| 0 <= i < n implies out[i] == #[trigger] items[i] by {
        assert(all[i] == items[i]);
        assert(trim(items[i]) == items[i]);
    }
    assert(out =~= items);
    lemma_joined_plain(items);
    law_plain_text_stays(join(items, "\n"@));
    lemma_two_blocks(items, second);
    assert(join(second, "\n"@) == line);
}

/// A list ends where prose begins, without an empty line between them.
pub proof fn law_lists_end(mark: Seq<char>, items: Seq<Seq<char>>, words: Seq<char>)
    requires
        mark == "- "@ || mark == "* "@ || mark == "+ "@,
        items.len() > 0,
        forall|i: int| 0 <= i < items.len() ==> is_words(#[trigger] items[i]),
        is_prose(words),
    ensures
        markdown_html(
            join(Seq::new(items.len(), |i: int| mark + items[i]).push(words), "\n"@),
        ) == join(Seq::new(items.len(), |i: int| "• "@ + items[i]), "\n"@) + "\n\n"@ + words,
{
    reveal_strlit("- ");
    reveal_strlit("* ");
    reveal_strlit("+ ");
    reveal_strlit("```");
    reveal_strlit("~~~");
    let first = Seq::new(items.len(), |i: int| mark + items[i]);
    let shown = Seq::new(items.len(), |i: int| "• "@ + items[i]);
    let second = seq![words];
    let all = first + second;
    let n = items.len() as int;
    assert(first.push(words) =~= all);
    lemma_letters_continue(words);
    assert forall|i: int| 0 <= i < n implies {
        let line = #[trigger] all[i];
        &&& line == mark + items[i]
        &&& trim(line) == line
        &&& !line.contains('\n')
        &&& !line.contains('\r')
        &&& bullet_of(line) == Some(items[i])
        &&& bullet_lines()(line)
    } by {
        assert(is_words(items[i]));
        lemma_marked_line(mark, items[i]);
        let line = mark + items[i];
        assert(all[i] == first[i]);
        assert(line.take(2) =~= mark);
        assert(line.skip(2) =~= items[i]);
        if mark == "* "@ || mark == "+ "@ {
            assert("- "@[0] != mark[0]);
        }
        if mark == "+ "@ {
            assert("* "@[0] != mark[0]);
        }
    }
    assert(all[n] == words);
    assert(!bullet_lines()(all[n]));
    let line = all[0];
    assert(line[0] == mark[0]);
    assert(line.take(3)[0] == mark[0]);
    assert(fence_of(line) is None);
    lemma_run_end_is(line, 0, only('#'), 0);
    assert(heading_of(line) is None);
    lemma_run_end_is(all, 0, bullet_lines(), n);
    let out = bullet_items(all, 0, n);
    assert forall|i: int| 0 <= i < n implies out[i] == #[trigger] shown[i] by {
        assert(is_words(items[i]));
        assert(bullet_of(trim(all[i])) == Some(items[i]));
        law_trimmed_stays(items[i]);
        law_plain_text_stays(items[i]);
        assert(out[i] == "• "@ + inline_html(trim(items[i])));
    }
    assert(out =~= shown);
    assert forall|i: int| 0 <= i < all.len() implies !(#[trigger] all[i]).contains('\n')
        && !all[i].contains('\r') by {
        if i == n {
            assert(all[i] == words);
        }
    }
    assert(first[0] == all[0]);
    lemma_two_blocks(first, second);
    lemma_prose_alone(words);
    assert(join(second, "\n"@) == words);
}

/// Prose by itself is shown as it is.
proof fn lemma_prose_alone(words: Seq<char>)
    requires
        is_prose(words),
    ensures
        markdown_html(words) == words,
{
    let ls = seq![words];
    lemma_letters_continue(words);
    lemma_run_end_is(ls, 1, paragraph_lines(), 1);
    assert(trimmed_items(ls, 0, 1) =~= ls);
    assert(join(ls, "\n"@) == words);
    law_plain_text_stays(words);
    lemma_one_block(ls);
}

/// A quote ends where prose begins, without an empty line between them.
pub proof fn law_quotes_end(items: Seq<Seq<char>>, words: Seq<char>)
    requires
        items.len() > 0,
        forall|i: int| 0 <= i < items.len() ==> is_words(#[trigger] items[i]),
        is_prose(words),
    ensures
        markdown_html(
            join(Seq::new(items.len(), |i: int| "> "@ + items[i]).push(words), "\n"@),
        ) == "<blockquote>"@ + join(items, "\n"@) + "</blockquote>"@ + "\n\n"@ + words,
{
    reveal_strlit("> ");
    reveal_strlit("```");
    reveal_strlit("~~~");
    let first = Seq::new(items.len(), |i: int| "> "@ + items[i]);
    let second = seq![words];
    let all = first + second;
    let n = items.len() as int;
    assert(first.push(words) =~= all);
    lemma_letters_continue(words);
    assert forall|i: int| 0 <= i < n implies {
        let line = #[trigger] all[i];
        &&& trim(line) == line
        &&& !line.contains('\n')
        &&& !line.contains('\r')
        &&& quote_lines()(line)
        &&& trim_start(skip_run(line, only('>'))) == items[i]
        &&& line[0] == '>'
    } by {
        assert(is_words(items[i]));
        let item = items[i];
        lemma_marked_line("> "@, item);
        let line = "> "@ + item;
        assert(all[i] == first[i]);
        lemma_run_end_is(line, 0, only('>'), 1);
        let inner = line.skip(1);
        assert(inner[0] == ' ');
        assert forall|k: int| 0 <= k < 1 implies white()(#[trigger] inner[k]) by {}
        assert(inner[1] == item[0]);
        lemma_run_end_is(inner, 0, white(), 1);
        assert(inner.skip(1) =~= item);
    }
    assert(all[n] == words);
    assert(!quote_lines()(all[n]));
    let line = all[0];
    assert(line.take(3)[0] == '>');
    assert(fence_of(line) is None);
    lemma_run_end_is(line, 0, only('#'), 0);
    assert(heading_of(line) is None);
    lemma_run_end_is(all, 0, quote_lines(), n);
    let out = quote_items(all, 0, n);
    assert forall|i: int| 0 <= i < n implies out[i] == #[trigger] items[i] by {
        assert(is_words(items[i]));
        assert(trim(all[i]) == all[i]);
        law_plain_text_stays(items[i]);
    }
    assert(out =~= items);
    assert forall|i: int| 0 <= i < all.len() implies !(#[trigger] all[i]).contains('\n')
        && !all[i].contains('\r') by {
        if i == n {
            assert(all[i] == words);
        }
    }
    assert(first[0] == all[0]);
    lemma_two_blocks(first, second);
    lemma_prose_alone(words);
    assert(join(second, "\n"@) == words);
}

/// A heading is one line: prose behind it is a paragraph.
pub proof fn law_headings_end(title: Seq<char>, words: Seq<char>)
    requires
        is_words(title),
        is_prose(words),
    ensures
        markdown_html(join(seq!["# "@ + title, words], "\n"@)) == "<b>"@ + title + "</b>"@
            + "\n\n"@ + words,
{
    reveal_strlit("# ");
    reveal_strlit("```");
    reveal_strlit("~~~");
    let line = "# "@ + title;
    let first = seq![line];
    let second = seq![words];
    let all = first + second;
    assert(seq![line, words] =~= all);
    lemma_marked_line("# "@, title);
    lemma_letters_continue(words);
    lemma_run_end_is(line, 0, only('#'), 1);
    assert(line.skip(2) =~= title);
    assert(line.take(3)[0] == '#');
    assert(fence_of(line) is None);
    assert(heading_of(line) == Some(title));
    law_trimmed_stays(title);
    law_plain_text_stays(title);
    assert forall|i: int| 0 <= i < all.len() implies !(#[trigger] all[i]).contains('\n')
        && !all[i].contains('\r') by {
        if i == 1 {
            assert(all[i] == words);
        }
    }
    assert(all[0] == line);
    lemma_two_blocks(first, second);
    lemma_prose_alone(words);
    assert(join(second, "\n"@) == words);
}

/// Code ends at its closing fence: prose behind it is a paragraph. Code whose
/// fence is never closed goes on to the end.
pub proof fn law_code_ends(fence: Seq<char>, code: Seq<Seq<char>>, words: Seq<char>)
    requires
        fence == "```"@ || fence == "~~~"@,
        is_prose(words),
        forall|i: int|
            0 <= i < code.len() ==> !(#[trigger] code[i]).contains('\n') && !code[i].contains('\r')
                && !fence.is_prefix_of(trim(code[i])),
        code.len() > 0 ==> code.last().len() > 0,
    ensures
        markdown_html(join(seq![fence] + code + seq![fence, words], "\n"@)) == "<pre><code>"@
            + escaped(join(code, "\n"@)) + "</code></pre>"@ + "\n\n"@ + words,
        markdown_html(join(seq![fence] + code, "\n"@)) == "<pre><code>"@ + escaped(
            join(code, "\n"@),
        ) + "</code></pre>"@,
{
    reveal_strlit("```");
    reveal_strlit("~~~");
    let first = seq![fence] + code + seq![fence];
    let second = seq![words];
    let all = first + second;
    let open = seq![fence] + code;
    let n = code.len() as int;
    assert(seq![fence] + code + seq![fence, words] =~= all);
    law_trimmed_stays(fence);
    lemma_letters_continue(words);
    assert(fence.take(3) =~= fence);
    if fence == "~~~"@ {
        assert("```"@[0] != fence[0]);
    }
    assert(fence_of(fence) == Some(fence));
    assert(!fence.contains('\n') && !fence.contains('\r'));
    assert forall|i: int| 0 <= i < all.len() implies !(#[trigger] all[i]).contains('\n')
        && !all[i].contains('\r') by {
        if 1 <= i <= n {
            assert(all[i] == code[i - 1]);
        }
    }
    assert forall|i: int| 0 <= i < open.len() implies !(#[trigger] open[i]).contains('\n')
        && !open[i].contains('\r') by {
        if 1 <= i {
            assert(open[i] == code[i - 1]);
        }
    }
    assert forall|k: int| 1 <= k < n + 1 implies code_lines(fence)(#[trigger] all[k]) by {
        assert(all[k] == code[k - 1]);
    }
    assert forall|k: int| 1 <= k < n + 1 implies code_lines(fence)(#[trigger] open[k]) by {
        assert(open[k] == code[k - 1]);
    }
    assert(all[n + 1] == fence);
    assert(!code_lines(fence)(all[n + 1]));
    lemma_run_end_is(all, 1, code_lines(fence), n + 1);
    lemma_run_end_is(open, 1, code_lines(fence), n + 1);
    assert(all.subrange(1, n + 1) =~= code);
    assert(open.subrange(1, n + 1) =~= code);
    assert(all[0] == fence && open[0] == fence && first[0] == fence);
    lemma_two_blocks(first, second);
    lemma_prose_alone(words);
    assert(join(second, "\n"@) == words);
    if n > 0 {
        assert(open.last() == code.last());
    } else {
        assert(open.last() == fence);
    }
    lemma_one_block(open);
}

/// More than six number signs, or number signs without a space behind them, make
/// no heading: they are shown as they are.
pub proof fn law_no_headings(level: nat, words: Seq<char>)
    requires
        is_prose(words),
    ensures
        level > 6 ==> markdown_html(Seq::new(level, |i: int| '#') + " "@ + words) == Seq::new(
            level,
            |i: int| '#',
        ) + " "@ + words,
        level > 0 ==> markdown_html(Seq::new(level, |i: int| '#') + words) == Seq::new(
            level,
            |i: int| '#',
        ) + words,
{
    reveal_strlit(" ");
    let marks = Seq::new(level, |i: int| '#');
    if level > 6 {
        lemma_signs_alone(level, marks + " "@, words);
    }
    if level > 0 {
        lemma_signs_alone(level, marks, words);
    }
}

proof fn lemma_signs_alone(level: nat, mark: Seq<char>, words: Seq<char>)
    requires
        is_prose(words),
        level > 0,
        level <= mark.len() <= level + 1,
        forall|k: int| 0 <= k < level ==> #[trigger] mark[k] == '#',
        mark.len() > level ==> mark[level as int] == ' ' && level > 6,
    ensures
        markdown_html(mark + words) == mark + words,
{
    reveal_strlit("```");
    reveal_strlit("~~~");
    reveal_strlit("- ");
    reveal_strlit("* ");
    reveal_strlit("+ ");
    let line = mark + words;
    assert(mark[0] == '#');
    assert forall|k: int| 0 <= k < mark.len() implies #[trigger] mark[k] != '\n' && mark[k]
        != '\r' by {
        if k < level {
            assert(mark[k] == '#');
        }
    }
    lemma_marked_line(mark, words);
    assert forall|k: int| 0 <= k < level implies only('#')(#[trigger] line[k]) by {
        assert(line[k] == mark[k]);
    }
    assert(line[level as int] == ' ' || line[level as int] == words[0]);
    lemma_run_end_is(line, 0, only('#'), level as int);
    assert(heading_of(line) is None);
    assert(line[0] == '#');
    if line.len() >= 3 {
        assert(line.take(3)[0] == '#');
    }
    assert(line.take(2)[0] == '#');
    lemma_run_end_is(line, 0, digits(), 0);
    assert(continues_paragraph(line));
    let ls = seq![line];
    lemma_run_end_is(ls, 1, paragraph_lines(), 1);
    assert(trimmed_items(ls, 0, 1) =~= ls);
    assert forall|k: int| 0 <= k < line.len() implies is_plain(#[trigger] line[k]) by {
        if k < level {
            assert(line[k] == mark[k]);
        } else if k >= mark.len() {
            assert(is_plain(words[k - mark.len()]));
        }
    }
    law_plain_text_stays(line);
    assert(join(ls, "\n"@) == line);
    lemma_one_block(ls);
}

// ---------------------------------------------------------------------------
// Indentation
// ---------------------------------------------------------------------------
/// Whether two lists of lines are the same but for white space around lines.
pub open spec fn same_trimmed(a: Seq<Seq<char>>, b: Seq<Seq<char>>) -> bool {
    a.len() == b.len() && forall|i: int| 0 <= i < a.len() ==> trim(#[trigger] a[i]) == trim(b[i])
}

proof fn lemma_same_run(
    a: Seq<Seq<char>>,
    b: Seq<Seq<char>>,
    from: int,
    keep: spec_fn(Seq<char>) -> bool,
)
    requires
        a.len() == b.len(),
        0 <= from <= a.len(),
        forall|i: int| 0 <= i < a.len() ==> keep(#[trigger] a[i]) == keep(b[i]),
    ensures
        run_end(a, from, keep) == run_end(b, from, keep),
        from <= run_end(a, from, keep) <= a.len(),
{
    lemma_run_end(a, from, keep);
    let end = run_end(a, from, keep);
    assert forall|k: int| from <= k < end implies keep(#[trigger] b[k]) by {
        assert(keep(a[k]));
    }
    if end < a.len() {
        assert(keep(a[end]) == keep(b[end]));
    }
    lemma_run_end_is(b, from, keep, end);
}

proof fn lemma_same_block(a: Seq<Seq<char>>, b: Seq<Seq<char>>, i: int)
    requires
        same_trimmed(a, b),
        0 <= i < a.len(),
        fence_of(trim(a[i])) is None,
    ensures
        block_at(a, i).html == block_at(b, i).html,
        block_at(a, i).next == block_at(b, i).next,
{
    let t = trim(a[i]);
    assert(trim(b[i]) == t);
    if heading_of(t) is Some {
    } else if is_quote(t) {
        assert forall|k: int| 0 <= k < a.len() implies quote_lines()(#[trigger] a[k])
            == quote_lines()(b[k]) by {
            assert(trim(a[k]) == trim(b[k]));
        }
        lemma_same_run(a, b, i, quote_lines());
        let end = run_end(a, i, quote_lines());
        assert forall|k: int| 0 <= k < end - i implies quote_items(a, i, end)[k] == quote_items(
            b,
            i,
            end,
        )[k] by {
            assert(trim(a[i + k]) == trim(b[i + k]));
            assert(quote_item(a[i + k]) == quote_item(b[i + k]));
        }
        assert(quote_items(a, i, end) =~= quote_items(b, i, end));
    } else if bullet_of(t) is Some {
        assert forall|k: int| 0 <= k < a.len() implies bullet_lines()(#[trigger] a[k])
            == bullet_lines()(b[k]) by {
            assert(trim(a[k]) == trim(b[k]));
        }
        lemma_same_run(a, b, i, bullet_lines());
        let end = run_end(a, i, bullet_lines());
        assert forall|k: int| 0 <= k < end - i implies bullet_items(a, i, end)[k] == bullet_items(
            b,
            i,
            end,
        )[k] by {
            assert(trim(a[i + k]) == trim(b[i + k]));
            assert(bullet_item(a[i + k]) == bullet_item(b[i + k]));
        }
        assert(bullet_items(a, i, end) =~= bullet_items(b, i, end));
    } else if numbered_of(t) is Some {
        assert forall|k: int| 0 <= k < a.len() implies numbered_lines()(#[trigger] a[k])
            == numbered_lines()(b[k]) by {
            assert(trim(a[k]) == trim(b[k]));
        }
        lemma_same_run(a, b, i, numbered_lines());
        let end = run_end(a, i, numbered_lines());
        assert forall|k: int| 0 <= k < end - i implies numbered_items(a, i, end)[k]
            == numbered_items(b, i, end)[k] by {
            assert(trim(a[i + k]) == trim(b[i + k]));
            assert(numbered_item(a[i + k], (k + 1) as nat) == numbered_item(
                b[i + k],
                (k + 1) as nat,
            ));
        }
        assert(numbered_items(a, i, end) =~= numbered_items(b, i, end));
    } else {
        assert forall|k: int| 0 <= k < a.len() implies paragraph_lines()(#[trigger] a[k])
            == paragraph_lines()(b[k]) by {
            assert(trim(a[k]) == trim(b[k]));
        }
        lemma_same_run(a, b, i + 1, paragraph_lines());
        let end = run_end(a, i + 1, paragraph_lines());
        assert forall|k: int| 0 <= k < end - i implies trimmed_items(a, i, end)[k]
            == trimmed_items(b, i, end)[k] by {
            assert(trim(a[i + k]) == trim(b[i + k]));
        }
        assert(trimmed_items(a, i, end) =~= trimmed_items(b, i, end));
    }
}

proof fn lemma_same_blocks(a: Seq<Seq<char>>, b: Seq<Seq<char>>, i: int)
    requires
        same_trimmed(a, b),
        0 <= i <= a.len(),
        forall|k: int| 0 <= k < a.len() ==> fence_of(trim(#[trigger] a[k])) is None,
    ensures
        blocks_from(a, i) == blocks_from(b, i),
    decreases a.len() - i,
{
    if i < a.len() {
        assert(trim(a[i]) == trim(b[i]));
        if trim(a[i]).len() == 0 {
            lemma_same_blocks(a, b, i + 1);
        } else {
            assert(fence_of(trim(a[i])) is None);
            lemma_block_at(a, i);
            lemma_same_block(a, b, i);
            lemma_same_blocks(a, b, block_at(a, i).next);
        }
    }
}

/// White space around lines does not matter, outside of code.
pub proof fn law_indentation_does_not_matter(a: Seq<char>, b: Seq<char>)
    requires
        same_trimmed(lines(with_line_feeds(a)), lines(with_line_feeds(b))),
        forall|k: int|
            0 <= k < lines(with_line_feeds(a)).len() ==> fence_of(
                trim(#[trigger] lines(with_line_feeds(a))[k]),
            ) is None,
    ensures
        markdown_html(a) == markdown_html(b),
{
    lemma_same_blocks(lines(with_line_feeds(a)), lines(with_line_feeds(b)), 0);
}

} // verus!
