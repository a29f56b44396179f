//! The white space behind marks, and marks that lack it.
use vstd::prelude::*;

use crate::basics::law_trimmed_stays;
use crate::markdown::block_laws::{
    is_line, law_marks_in_bullet_lists, law_marks_in_headings, law_marks_in_numbered_lists,
    lemma_marked_line, lemma_one_block,
};
use crate::markdown::blocks::{
    bullet_items, bullet_lines, bullet_of, continues_paragraph, digits, fence_of, heading_of,
    markdown_html, numbered_items, numbered_lines, numbered_of, paragraph_lines, quote_items,
    quote_lines, trimmed_items,
};
use crate::markdown::inline::{closing_paren, inline_html, link_opening, linked_from};
use crate::markdown::laws::{all_plain, is_plain, law_plain_text_stays};
use crate::markdown::neighbours::is_prose;
use crate::markdown::repeated::law_link_addresses;
use crate::markdown::styles::{lemma_no_bold, lemma_no_italic, lemma_only_styled, lemma_paren_close};
use crate::markdown::tags::lemma_linked_copies;
use crate::numbers::decimal;
use crate::patterns::join;
use crate::text::{
    index_from, is_white_space, lemma_run_end_is, only, other_than, trim, trim_start, white,
};

verus! {

/// White space that ends no line.
pub open spec fn is_space(s: Seq<char>) -> bool {
    forall|k: int|
        0 <= k < s.len() ==> is_white_space(#[trigger] s[k]) && s[k] != '\n' && s[k] != '\r'
}

proof fn lemma_padded(space: Seq<char>, line: Seq<char>)
    requires
        is_space(space),
        is_line(line),
    ensures
        trim_start(space + line) == line,
        trim(space + line) == line,
        trim(line) == line,
{
    let s = space + line;
    let n = space.len() as int;
    assert forall|k: int| 0 <= k < n implies white()(#[trigger] s[k]) by {
        assert(s[k] == space[k]);
    }
    assert(s[n] == line[0]);
    lemma_run_end_is(s, 0, white(), n);
    assert(s.skip(n) =~= line);
    law_trimmed_stays(line);
    lemma_run_end_is(line, 0, white(), 0);
    assert(line.skip(0) =~= line);
}

proof fn lemma_padded_line(mark: Seq<char>, space: Seq<char>, line: Seq<char>)
    requires
        is_space(space),
        is_line(line),
        mark.len() > 0,
        !is_white_space(mark[0]),
        !mark.contains('\n'),
        !mark.contains('\r'),
    ensures
        trim(mark + space + line) == mark + space + line,
        !(mark + space + line).contains('\n'),
        !(mark + space + line).contains('\r'),
{
    let head = mark + space;
    assert(head[0] == mark[0]);
    assert forall|i: int| 0 <= i < head.len() implies #[trigger] head[i] != '\n' && head[i]
        != '\r' by {
        if i < mark.len() {
            assert(mark.contains(mark[i]));
        } else {
            assert(head[i] == space[i - mark.len()]);
        }
    }
    lemma_marked_line(head, line);
}

/// A quote is shown as such, however many marks stand before its text, and
/// whatever white space stands between.
pub proof fn law_marks_of_quotes(depth: nat, space: Seq<char>, line: Seq<char>)
    requires
        depth > 0,
        is_space(space),
        is_line(line),
        line[0] != '>',
    ensures
        markdown_html(Seq::new(depth, |i: int| '>') + space + line) == "<blockquote>"@
            + inline_html(line) + "</blockquote>"@,
{
    reveal_strlit("```");
    reveal_strlit("~~~");
    let mark = Seq::new(depth, |i: int| '>');
    let t = mark + space + line;
    let n = depth as int;
    assert(mark[0] == '>');
    lemma_padded_line(mark, space, line);
    assert forall|k: int| 0 <= k < n implies only('>')(#[trigger] t[k]) by {
        assert(t[k] == mark[k]);
    }
    if space.len() > 0 {
        assert(t[n] == space[0]);
        assert(is_white_space(space[0]));
    } else {
        assert(t[n] == line[0]);
    }
    lemma_run_end_is(t, 0, only('>'), n);
    assert(t.skip(n) =~= space + line);
    lemma_padded(space, line);
    assert(t[0] == '>');
    if t.len() >= 3 {
        assert(t.take(3)[0] == '>');
    }
    assert(fence_of(t) is None);
    lemma_run_end_is(t, 0, only('#'), 0);
    assert(heading_of(t) is None);
    let ls = seq![t];
    assert(quote_lines()(ls[0]));
    lemma_run_end_is(ls, 0, quote_lines(), 1);
    assert(quote_items(ls, 0, 1) =~= seq![inline_html(line)]);
    assert(join(seq![inline_html(line)], "\n"@) == inline_html(line));
    assert(join(ls, "\n"@) == t);
    lemma_one_block(ls);
}

/// More white space behind the mark of a heading does not matter.
pub proof fn law_space_in_headings(space: Seq<char>, line: Seq<char>)
    requires
        is_space(space),
        is_line(line),
    ensures
        markdown_html("# "@ + space + line) == markdown_html("# "@ + line),
{
    reveal_strlit("# ");
    reveal_strlit(" ");
    reveal_strlit("```");
    reveal_strlit("~~~");
    let t = "# "@ + space + line;
    lemma_padded_line("# "@, space, line);
    lemma_padded(space, line);
    assert(t[0] == '#' && t[1] == ' ');
    lemma_run_end_is(t, 0, only('#'), 1);
    assert(t.skip(2) =~= space + line);
    assert(t.take(3)[0] == '#');
    assert(fence_of(t) is None);
    assert(heading_of(t) == Some(space + line));
    let ls = seq![t];
    assert(join(ls, "\n"@) == t);
    lemma_one_block(ls);
    law_marks_in_headings(1, line);
    assert(Seq::new(1, |i: int| '#') + " "@ =~= "# "@);
}

/// More white space behind the mark of an item does not matter.
pub proof fn law_space_in_bullet_lists(mark: Seq<char>, space: Seq<char>, line: Seq<char>)
    requires
        mark == "- "@ || mark == "* "@ || mark == "+ "@,
        is_space(space),
        is_line(line),
    ensures
        markdown_html(mark + space + line) == markdown_html(mark + line),
{
    reveal_strlit("- ");
    reveal_strlit("* ");
    reveal_strlit("+ ");
    reveal_strlit("```");
    reveal_strlit("~~~");
    let t = mark + space + line;
    lemma_padded_line(mark, space, line);
    lemma_padded(space, line);
    assert(t[0] == mark[0]);
    assert(t.take(2) =~= mark);
    assert(t.skip(2) =~= space + line);
    if mark == "* "@ || mark == "+ "@ {
        assert("- "@[0] != mark[0]);
    }
    if mark == "+ "@ {
        assert("* "@[0] != mark[0]);
    }
    assert(bullet_of(t) == Some(space + line));
    assert(t.take(3)[0] == mark[0]);
    assert(fence_of(t) is None);
    lemma_run_end_is(t, 0, only('#'), 0);
    assert(heading_of(t) is None);
    let ls = seq![t];
    assert(bullet_lines()(ls[0]));
    lemma_run_end_is(ls, 0, bullet_lines(), 1);
    let shown = "• "@ + inline_html(line);
    assert(bullet_items(ls, 0, 1) =~= seq![shown]);
    assert(join(seq![shown], "\n"@) == shown);
    assert(join(ls, "\n"@) == t);
    lemma_one_block(ls);
    let items = seq![line];
    law_marks_in_bullet_lists(mark, items);
    assert(Seq::new(1, |i: int| mark + items[i]) =~= seq![mark + line]);
    assert(Seq::new(1, |i: int| "• "@ + inline_html(items[i])) =~= seq![shown]);
    assert(join(seq![mark + line], "\n"@) == mark + line);
}

/// More white space behind the number of an item does not matter.
pub proof fn law_space_in_numbered_lists(
    number: Seq<char>,
    mark: Seq<char>,
    space: Seq<char>,
    line: Seq<char>,
)
    requires
        number.len() > 0,
        forall|k: int| 0 <= k < number.len() ==> '0' <= #[trigger] number[k] <= '9',
        mark == ". "@ || mark == ") "@,
        is_space(space),
        is_line(line),
    ensures
        markdown_html(number + mark + space + line) == markdown_html(number + mark + line),
{
    reveal_strlit(". ");
    reveal_strlit(") ");
    reveal_strlit("- ");
    reveal_strlit("* ");
    reveal_strlit("+ ");
    reveal_strlit("```");
    reveal_strlit("~~~");
    let head = number + mark;
    let t = head + space + line;
    assert('0' <= number[0] <= '9');
    assert(head[0] == number[0]);
    assert forall|k: int| 0 <= k < head.len() implies #[trigger] head[k] != '\n' && head[k]
        != '\r' by {
        if k < number.len() {
            assert('0' <= number[k] <= '9');
        }
    }
    lemma_padded_line(head, space, line);
    lemma_padded(space, line);
    let count = number.len() as int;
    assert forall|k: int| 0 <= k < count implies digits()(#[trigger] t[k]) by {
        assert(t[k] == number[k]);
    }
    assert(t[count] == mark[0]);
    lemma_run_end_is(t, 0, digits(), count);
    let rest = t.skip(count);
    assert(rest.take(2) =~= mark);
    assert(rest.skip(2) =~= space + line);
    if mark == ") "@ {
        assert(". "@[0] != mark[0]);
    }
    assert(numbered_of(t) == Some(space + line));
    assert(t[0] == number[0]);
    assert(t.take(3)[0] == t[0]);
    assert(fence_of(t) is None);
    lemma_run_end_is(t, 0, only('#'), 0);
    assert(heading_of(t) is None);
    assert(t.take(2)[0] == t[0]);
    assert(bullet_of(t) is None);
    let ls = seq![t];
    assert(numbered_lines()(ls[0]));
    lemma_run_end_is(ls, 0, numbered_lines(), 1);
    let shown = decimal(1) + ". "@ + inline_html(line);
    assert(numbered_items(ls, 0, 1) =~= seq![shown]);
    assert(join(seq![shown], "\n"@) == shown);
    assert(join(ls, "\n"@) == t);
    lemma_one_block(ls);
    let numbers = seq![number];
    let items = seq![line];
    law_marks_in_numbered_lists(numbers, mark, items);
    assert(Seq::new(1, |i: int| numbers[i] + mark + items[i]) =~= seq![number + mark + line]);
    assert(Seq::new(1, |i: int| decimal((i + 1) as nat) + ". "@ + inline_html(items[i])) =~= seq![
        shown,
    ]);
    assert(join(seq![number + mark + line], "\n"@) == number + mark + line);
}

/// A line that opens nothing but a paragraph and holds no marks is shown as it is.
proof fn lemma_shown_plain(t: Seq<char>)
    requires
        is_line(t),
        all_plain(t),
        continues_paragraph(t),
    ensures
        markdown_html(t) == t,
{
    law_trimmed_stays(t);
    let ls = seq![t];
    lemma_run_end_is(ls, 1, paragraph_lines(), 1);
    assert(trimmed_items(ls, 0, 1) =~= ls);
    law_plain_text_stays(t);
    assert(join(ls, "\n"@) == t);
    lemma_one_block(ls);
}

/// Without a space behind it, a mark opens no list: it is shown as it is.
pub proof fn law_no_lists(mark: Seq<char>, words: Seq<char>)
    requires
        mark == "-"@ || mark == "+"@ || mark == "~~"@,
        is_prose(words),
    ensures
        markdown_html(mark + words) == mark + words,
{
    reveal_strlit("-");
    reveal_strlit("+");
    reveal_strlit("~~");
    reveal_strlit("- ");
    reveal_strlit("* ");
    reveal_strlit("+ ");
    reveal_strlit("```");
    reveal_strlit("~~~");
    let t = mark + words;
    assert(t[0] == mark[0]);
    lemma_marked_line(mark, words);
    assert(t[t.len() - 1] == words[words.len() - 1]);
    assert(t[mark.len() as int] == words[0]);
    if t.len() >= 3 {
        assert(t.take(3)[0] == t[0] && t.take(3)[1] == t[1] && t.take(3)[2] == t[2]);
    }
    assert(t.take(2)[0] == t[0] && t.take(2)[1] == t[1]);
    lemma_run_end_is(t, 0, only('#'), 0);
    lemma_run_end_is(t, 0, digits(), 0);
    assert(bullet_of(t) is None);
    assert(fence_of(t) is None);
    assert(continues_paragraph(t));
    assert forall|k: int| 0 <= k < t.len() implies is_plain(#[trigger] t[k]) by {
        if k >= mark.len() {
            assert(is_plain(words[k - mark.len()]));
        }
    }
    lemma_shown_plain(t);
}

/// A number opens a list only with a full stop or a closing parenthesis and a
/// space behind it: else it is shown as it is.
pub proof fn law_no_numbered_lists(number: Seq<char>, mark: Seq<char>, words: Seq<char>)
    requires
        number.len() > 0,
        forall|k: int| 0 <= k < number.len() ==> '0' <= #[trigger] number[k] <= '9',
        mark == "."@ || mark == ")"@ || mark == " "@ || mark == ": "@,
        is_prose(words),
    ensures
        markdown_html(number + mark + words) == number + mark + words,
{
    reveal_strlit(".");
    reveal_strlit(")");
    reveal_strlit(" ");
    reveal_strlit(": ");
    reveal_strlit(". ");
    reveal_strlit(") ");
    reveal_strlit("- ");
    reveal_strlit("* ");
    reveal_strlit("+ ");
    reveal_strlit("```");
    reveal_strlit("~~~");
    let head = number + mark;
    let t = head + words;
    let count = number.len() as int;
    assert('0' <= number[0] <= '9');
    assert(head[0] == number[0]);
    assert forall|k: int| 0 <= k < head.len() implies #[trigger] head[k] != '\n' && head[k]
        != '\r' && is_plain(head[k]) by {
        if k < count {
            assert('0' <= number[k] <= '9');
        }
    }
    lemma_marked_line(head, words);
    assert(t[0] == number[0]);
    assert(t[t.len() - 1] == words[words.len() - 1]);
    assert forall|k: int| 0 <= k < count implies digits()(#[trigger] t[k]) by {
        assert(t[k] == number[k]);
    }
    assert(t[count] == mark[0]);
    lemma_run_end_is(t, 0, digits(), count);
    let rest = t.skip(count);
    assert(rest[0] == mark[0]);
    assert(rest.take(2)[0] == rest[0] && rest.take(2)[1] == rest[1]);
    if mark.len() == 1 {
        assert(rest[1] == words[0]);
    }
    assert(numbered_of(t) is None);
    if t.len() >= 3 {
        assert(t.take(3)[0] == t[0]);
    }
    assert(t.take(2)[0] == t[0]);
    lemma_run_end_is(t, 0, only('#'), 0);
    assert(continues_paragraph(t));
    assert forall|k: int| 0 <= k < t.len() implies is_plain(#[trigger] t[k]) by {
        if k >= head.len() {
            assert(is_plain(words[k - head.len()]));
        } else {
            assert(t[k] == head[k]);
        }
    }
    lemma_shown_plain(t);
}

proof fn lemma_no_paren_close(s: Seq<char>, from: int)
    requires
        0 <= from <= s.len(),
        forall|k: int| from <= k < s.len() ==> #[trigger] s[k] != '(' && s[k] != ')',
    ensures
        closing_paren(s, from, 0) is None,
    decreases s.len() - from,
{
    if from < s.len() {
        assert(s[from] != '(');
        lemma_no_paren_close(s, from + 1);
    }
}

/// A label without an address behind it, or whose parenthesis is never closed,
/// is no link: it is shown as it is.
pub proof fn law_no_links(
    a: Seq<char>,
    label: Seq<char>,
    space: Seq<char>,
    b: Seq<char>,
    open: Seq<char>,
)
    requires
        all_plain(a),
        all_plain(label),
        !label.contains(']'),
        is_space(space),
        all_plain(b),
        all_plain(open),
        forall|k: int| 0 <= k < open.len() ==> #[trigger] open[k] != '(' && open[k] != ')',
    ensures
        inline_html(a + "["@ + label + "]("@ + space + ")"@ + b) == a + "["@ + label + "]("@
            + space + ")"@ + b,
        inline_html(a + "["@ + label + "]("@ + open) == a + "["@ + label + "]("@ + open,
{
    reveal_strlit("[");
    reveal_strlit("](");
    reveal_strlit(")");
    let head = a + "["@ + label + "]("@;
    let n = a.len() as int;
    let l = n + 1 + label.len();
    let empty = head + space + ")"@ + b;
    let never = head + open;
    assert forall|k: int| 0 <= k < head.len() implies is_plain(#[trigger] head[k]) || k == n by {
        if k < n {
            assert(is_plain(a[k]));
        } else if n < k < l {
            assert(is_plain(label[k - n - 1]));
        }
    }
    assert forall|k: int| n + 1 <= k < l implies #[trigger] head[k] != ']' by {
        assert(head[k] == label[k - n - 1]);
        assert(label.contains(label[k - n - 1]));
    }
    assert(head[n] == '[' && head[l] == ']' && head[l + 1] == '(');
    let u = l + 2 + space.len();
    assert forall|k: int| 0 <= k < empty.len() implies is_plain(#[trigger] empty[k]) || k == n by {
        if k < head.len() {
            assert(empty[k] == head[k]);
        } else if k < u {
            assert(empty[k] == space[k - l - 2]);
            assert(is_white_space(space[k - l - 2]));
        } else if k > u {
            assert(is_plain(b[k - u - 1]));
        }
    }
    assert forall|k: int| l + 2 <= k < u implies #[trigger] empty[k] != '(' && empty[k] != ')' by {
        assert(empty[k] == space[k - l - 2]);
        assert(is_white_space(space[k - l - 2]));
    }
    lemma_paren_close(empty, l + 2, u);
    assert(empty.subrange(l + 2, u) =~= space);
    law_link_addresses(space, seq!['a'], seq![]);
    lemma_label_end(empty, n, l);
    assert(link_opening(empty, n) is None);
    lemma_no_link(empty, n);
    assert forall|k: int| 0 <= k < never.len() implies is_plain(#[trigger] never[k]) || k == n by {
        if k < head.len() {
            assert(never[k] == head[k]);
        } else {
            assert(is_plain(open[k - l - 2]));
        }
    }
    assert forall|k: int| l + 2 <= k < never.len() implies #[trigger] never[k] != '(' && never[k]
        != ')' by {
        assert(never[k] == open[k - l - 2]);
    }
    lemma_no_paren_close(never, l + 2);
    lemma_label_end(never, n, l);
    assert(link_opening(never, n) is None);
    lemma_no_link(never, n);
}

proof fn lemma_label_end(s: Seq<char>, n: int, l: int)
    requires
        0 <= n < l < s.len(),
        s[l] == ']',
        forall|k: int| n + 1 <= k < l ==> #[trigger] s[k] != ']',
    ensures
        index_from(s, n + 1, ']') == Some(l),
{
    assert forall|k: int| n + 1 <= k < l implies other_than(']')(#[trigger] s[k]) by {
        assert(s[k] != ']');
    }
    lemma_run_end_is(s, n + 1, other_than(']'), l);
}

/// Text whose only bracket opens no link is shown as it is.
proof fn lemma_no_link(s: Seq<char>, n: int)
    requires
        0 <= n < s.len(),
        s[n] == '[',
        forall|k: int| 0 <= k < s.len() ==> is_plain(#[trigger] s[k]) || k == n,
        link_opening(s, n) is None,
    ensures
        inline_html(s) == s,
{
    lemma_only_styled(s);
    lemma_linked_copies(s, 0, n);
    lemma_linked_copies(s, n + 1, s.len() as int);
    assert(linked_from(s, s.len() as int) =~= Seq::<char>::empty());
    assert(linked_from(s, 0) =~= s);
    lemma_no_bold(s);
    lemma_no_italic(s);
}

} // verus!
