//! Fitting rendered text into Telegram messages.
use vstd::prelude::*;

use crate::patterns::{
    contains_text, lemma_nothing_replaced, lines, lines_of, replace_all, replaced_text, stands_at,
    without_cr,
};
use crate::text::{
    chars_of, chars_view, has_ink, index_from, is_white_space, lemma_cut_run, lemma_run_end,
    not_white, other_than, push_chars, run_end, string_of, texts_view, trim_end, trim_start,
    trimmed, trimmed_end, white,
};

verus! {

// ---------------------------------------------------------------------------
// Tags that Telegram does not know
// ---------------------------------------------------------------------------
/// `text` with the tags `name` and `thinking` escaped.
pub open spec fn sanitized(text: Seq<char>) -> Seq<char> {
    let a = replace_all(text, "<name>"@, "&lt;name&gt;"@);
    let b = replace_all(a, "</name>"@, "&lt;/name&gt;"@);
    let c = replace_all(b, "<thinking>"@, "&lt;thinking&gt;"@);
    replace_all(c, "</thinking>"@, "&lt;/thinking&gt;"@)
}

/// Escapes the tags that models emit and Telegram rejects.
pub fn sanitize_telegram_html(text: &str) -> (html: String)
    ensures
        html@ == sanitized(text@),
{
    proof {
        reveal_strlit("<name>");
        reveal_strlit("</name>");
        reveal_strlit("<thinking>");
        reveal_strlit("</thinking>");
    }
    let raw = chars_of(text);
    let a = replaced_text(raw.as_slice(), "<name>", "&lt;name&gt;");
    let b = replaced_text(a.as_slice(), "</name>", "&lt;/name&gt;");
    let c = replaced_text(b.as_slice(), "<thinking>", "&lt;thinking&gt;");
    let d = replaced_text(c.as_slice(), "</thinking>", "&lt;/thinking&gt;");
    string_of(d.as_slice())
}

/// A prefix of the outcome of a replacement that cannot reach into a
/// replacement is a prefix of the text before it.
proof fn lemma_prefix_survives(s: Seq<char>, part: Seq<char>, with: Seq<char>, q: Seq<char>)
    requires
        with.len() > 0,
        !q.contains(with[0]),
        q.is_prefix_of(replace_all(s, part, with)),
    ensures
        q.is_prefix_of(s),
    decreases s.len(),
{
    let out = replace_all(s, part, with);
    if q.len() > 0 && s.len() > 0 && part.len() > 0 {
        assert(out[0] == q[0]) by {
            assert(out.take(q.len() as int)[0] == q[0]);
        }
        if part.is_prefix_of(s) {
            assert(out[0] == with[0]);
            assert(q.contains(q[0]));
            assert(false);
        } else {
            let rest = replace_all(s.skip(1), part, with);
            let tail = q.skip(1);
            assert(out.skip(1) =~= rest);
            assert(tail =~= rest.take(tail.len() as int)) by {
                assert(q =~= out.take(q.len() as int));
            }
            assert(!tail.contains(with[0])) by {
                if tail.contains(with[0]) {
                    let k = choose|k: int| 0 <= k < tail.len() && tail[k] == with[0];
                    assert(q[k + 1] == with[0]);
                }
            }
            lemma_prefix_survives(s.skip(1), part, with, tail);
            assert(q =~= s.take(q.len() as int)) by {
                assert(tail =~= s.skip(1).take(tail.len() as int));
                assert forall|k: int| 0 <= k < q.len() implies q[k] == s[k] by {
                    if k > 0 {
                        assert(tail[k - 1] == s.skip(1)[k - 1]);
                    }
                }
            }
        }
    } else if q.len() == 0 {
        assert(q =~= s.take(0));
    }
}

/// A replacement brings in no match of `q` where `q` cannot start inside what
/// is put in, nor reach into it.
proof fn lemma_no_new_match(s: Seq<char>, part: Seq<char>, with: Seq<char>, q: Seq<char>)
    requires
        with.len() > 0,
        q.len() > 0,
        !with.contains(q[0]),
        !q.contains(with[0]),
        q == part || !contains_text(s, q),
    ensures
        !contains_text(replace_all(s, part, with), q),
    decreases s.len(),
{
    let out = replace_all(s, part, with);
    if s.len() > 0 && part.len() > 0 {
        let step: int = if part.is_prefix_of(s) {
            part.len() as int
        } else {
            1
        };
        let head = if part.is_prefix_of(s) {
            with
        } else {
            seq![s[0]]
        };
        let rest = replace_all(s.skip(step), part, with);
        assert(out =~= head + rest);
        if !contains_text(s, q) {
            assert forall|at: int| !stands_at(s.skip(step), at, q) by {
                if stands_at(s.skip(step), at, q) {
                    assert(s.skip(step).subrange(at, at + q.len()) =~= s.subrange(
                        at + step,
                        at + step + q.len(),
                    ));
                    assert(stands_at(s, at + step, q));
                }
            }
        }
        lemma_no_new_match(s.skip(step), part, with, q);
        assert forall|at: int| !stands_at(out, at, q) by {
            if stands_at(out, at, q) {
                assert(out.subrange(at, at + q.len())[0] == q[0]);
                if at >= head.len() {
                    assert(rest.subrange(at - head.len(), at - head.len() + q.len())
                        =~= out.subrange(at, at + q.len()));
                    assert(stands_at(rest, at - head.len(), q));
                } else if part.is_prefix_of(s) {
                    assert(with[at] == q[0]);
                    assert(with.contains(q[0]));
                } else {
                    assert(q =~= out.take(q.len() as int)) by {
                        assert(out.take(q.len() as int) =~= out.subrange(0, q.len() as int));
                    }
                    lemma_prefix_survives(s, part, with, q);
                    assert(s.subrange(0, q.len() as int) =~= s.take(q.len() as int));
                    assert(stands_at(s, 0, q));
                }
            }
        }
    } else if s.len() == 0 {
        assert forall|at: int| !stands_at(out, at, q) by {}
    }
}

/// No tag `name` or `thinking`, opening or closing, is left in sanitized text.
pub proof fn law_sanitized_holds_no_tag(text: Seq<char>)
    ensures
        !contains_text(sanitized(text), "<name>"@),
        !contains_text(sanitized(text), "</name>"@),
        !contains_text(sanitized(text), "<thinking>"@),
        !contains_text(sanitized(text), "</thinking>"@),
{
    reveal_strlit("<name>");
    reveal_strlit("</name>");
    reveal_strlit("<thinking>");
    reveal_strlit("</thinking>");
    reveal_strlit("&lt;name&gt;");
    reveal_strlit("&lt;/name&gt;");
    reveal_strlit("&lt;thinking&gt;");
    reveal_strlit("&lt;/thinking&gt;");
    let a = replace_all(text, "<name>"@, "&lt;name&gt;"@);
    let b = replace_all(a, "</name>"@, "&lt;/name&gt;"@);
    let c = replace_all(b, "<thinking>"@, "&lt;thinking&gt;"@);
    lemma_no_new_match(text, "<name>"@, "&lt;name&gt;"@, "<name>"@);
    lemma_no_new_match(a, "</name>"@, "&lt;/name&gt;"@, "<name>"@);
    lemma_no_new_match(a, "</name>"@, "&lt;/name&gt;"@, "</name>"@);
    lemma_no_new_match(b, "<thinking>"@, "&lt;thinking&gt;"@, "<name>"@);
    lemma_no_new_match(b, "<thinking>"@, "&lt;thinking&gt;"@, "</name>"@);
    lemma_no_new_match(b, "<thinking>"@, "&lt;thinking&gt;"@, "<thinking>"@);
    lemma_no_new_match(c, "</thinking>"@, "&lt;/thinking&gt;"@, "<name>"@);
    lemma_no_new_match(c, "</thinking>"@, "&lt;/thinking&gt;"@, "</name>"@);
    lemma_no_new_match(c, "</thinking>"@, "&lt;/thinking&gt;"@, "<thinking>"@);
    lemma_no_new_match(c, "</thinking>"@, "&lt;/thinking&gt;"@, "</thinking>"@);
}

/// Text without these tags stays as it is.
pub proof fn law_text_without_tags_stays(text: Seq<char>)
    requires
        !contains_text(text, "<name>"@),
        !contains_text(text, "</name>"@),
        !contains_text(text, "<thinking>"@),
        !contains_text(text, "</thinking>"@),
    ensures
        sanitized(text) == text,
{
    lemma_nothing_replaced(text, "<name>"@, "&lt;name&gt;"@);
    lemma_nothing_replaced(text, "</name>"@, "&lt;/name&gt;"@);
    lemma_nothing_replaced(text, "<thinking>"@, "&lt;thinking&gt;"@);
    lemma_nothing_replaced(text, "</thinking>"@, "&lt;/thinking&gt;"@);
}

/// Sanitizing twice is sanitizing once.
pub proof fn law_sanitized_stays(text: Seq<char>)
    ensures
        sanitized(sanitized(text)) == sanitized(text),
{
    law_sanitized_holds_no_tag(text);
    law_text_without_tags_stays(sanitized(text));
}

// ---------------------------------------------------------------------------
// Splitting
// ---------------------------------------------------------------------------
/// The chunks of the lines `ls`, where `current` has been gathered so far: a
/// line joins the current chunk unless the chunk would grow over `limit`.
pub open spec fn chunks_from(ls: Seq<Seq<char>>, current: Seq<char>, limit: int) -> Seq<Seq<char>>
    decreases ls.len(),
{
    if ls.len() == 0 {
        if has_ink(current) {
            seq![trim_end(current)]
        } else {
            seq![]
        }
    } else if current.len() > 0 && current.len() + ls[0].len() + 1 > limit {
        seq![trim_end(current)] + chunks_from(ls.skip(1), ls[0].push('\n'), limit)
    } else {
        chunks_from(ls.skip(1), (current + ls[0]).push('\n'), limit)
    }
}

/// The messages that carry `text`: the text itself where it has at most
/// `limit` characters, else whole lines gathered up to the limit.
pub open spec fn message_chunks(text: Seq<char>, limit: int) -> Seq<Seq<char>> {
    if text.len() <= limit {
        seq![text]
    } else {
        chunks_from(lines(text), seq![], limit)
    }
}

/// Splits `text` into messages of at most `limit` characters, between lines.
pub fn split_telegram_message(text: &str, limit: usize) -> (chunks: Vec<String>)
    ensures
        texts_view(chunks@) == message_chunks(text@, limit as int),
{
    let chars = chars_of(text);
    let mut chunks: Vec<String> = Vec::new();
    if chars.len() <= limit {
        chunks.push(string_of(chars.as_slice()));
        assert(texts_view(chunks@) =~= seq![text@]);
        return chunks;
    }
    let ls = lines_of(chars.as_slice());
    let ghost views = chars_view(ls@);
    let mut current: Vec<char> = Vec::new();
    let mut i: usize = 0;
    assert(views.skip(0) =~= views);
    assert(texts_view(chunks@) + message_chunks(text@, limit as int) =~= message_chunks(
        text@,
        limit as int,
    ));
    while i < ls.len()
        invariant
            i <= ls.len(),
            views == chars_view(ls@),
            message_chunks(text@, limit as int) == texts_view(chunks@) + chunks_from(
                views.skip(i as int),
                current@,
                limit as int,
            ),
        decreases ls.len() - i,
    {
        let line = &ls[i];
        let ghost rest = views.skip(i as int);
        let ghost done = texts_view(chunks@);
        assert(rest[0] == line@);
        assert(rest.skip(1) =~= views.skip(i + 1));
        if current.len() > 0 && (line.len() >= limit || current.len() > limit - line.len() - 1) {
            let chunk = string_of(trimmed_end(current.as_slice()));
            chunks.push(chunk);
            proof {
                assert(texts_view(chunks@) =~= done.push(chunk@));
                let tail = chunks_from(rest.skip(1), line@.push('\n'), limit as int);
                assert(done + (seq![chunk@] + tail) =~= texts_view(chunks@) + tail);
            }
            current = Vec::new();
        }
        let ghost before = current@;
        push_chars(&mut current, line.as_slice());
        current.push('\n');
        proof {
            if before.len() == 0 {
                assert(current@ =~= line@.push('\n'));
                assert(current@ =~= (before + line@).push('\n'));
            }
        }
        i += 1;
    }
    assert(views.skip(i as int).len() == 0);
    let ghost done = texts_view(chunks@);
    if trimmed(current.as_slice()).len() > 0 {
        let chunk = string_of(trimmed_end(current.as_slice()));
        chunks.push(chunk);
        assert(texts_view(chunks@) =~= done + seq![chunk@]);
    } else {
        assert(done + Seq::<Seq<char>>::empty() =~= done);
    }
    chunks
}

// ---------------------------------------------------------------------------
// What splitting keeps
// ---------------------------------------------------------------------------
/// The characters of `s` that are not white space, in order.
pub open spec fn ink(s: Seq<char>) -> Seq<char> {
    s.filter(not_white())
}

/// The characters of all `parts` that are not white space, in order.
pub open spec fn inks(parts: Seq<Seq<char>>) -> Seq<char>
    decreases parts.len(),
{
    if parts.len() == 0 {
        seq![]
    } else {
        ink(parts[0]) + inks(parts.skip(1))
    }
}

proof fn lemma_ink_add(a: Seq<char>, b: Seq<char>)
    ensures
        ink(a + b) == ink(a) + ink(b),
{
    Seq::<char>::filter_distributes_over_add(a, b, not_white());
}

proof fn lemma_ink_push(a: Seq<char>, c: char)
    requires
        is_white_space(c),
    ensures
        ink(a.push(c)) == ink(a),
{
    reveal(Seq::filter);
    assert(a.push(c).drop_last() =~= a);
}

proof fn lemma_ink_white(s: Seq<char>)
    requires
        forall|k: int| 0 <= k < s.len() ==> is_white_space(#[trigger] s[k]),
    ensures
        ink(s) == Seq::<char>::empty(),
    decreases s.len(),
{
    reveal(Seq::filter);
    if s.len() > 0 {
        assert(is_white_space(s[s.len() - 1]));
        lemma_ink_white(s.drop_last());
    }
}

proof fn lemma_ink_trim_end(s: Seq<char>)
    ensures
        ink(trim_end(s)) == ink(s),
    decreases s.len(),
{
    if s.len() > 0 && white()(s.last()) {
        lemma_ink_trim_end(s.drop_last());
        assert(s =~= s.drop_last().push(s.last()));
        lemma_ink_push(s.drop_last(), s.last());
    }
}

proof fn lemma_ink_blank(s: Seq<char>)
    requires
        !has_ink(s),
    ensures
        ink(s) == Seq::<char>::empty(),
{
    let start = run_end(s, 0, white());
    lemma_run_end(s, 0, white());
    let rest = trim_start(s);
    lemma_cut_run(rest, white());
    assert forall|k: int| 0 <= k < s.len() implies is_white_space(#[trigger] s[k]) by {
        if k < start {
            assert(white()(s[k]));
        } else {
            assert(white()(rest[k - start]));
        }
    }
    lemma_ink_white(s);
}

proof fn lemma_ink_lines(s: Seq<char>)
    ensures
        inks(lines(s)) == ink(s),
    decreases s.len(),
{
    lemma_run_end(s, 0, other_than('\n'));
    match index_from(s, 0, '\n') {
        Some(at) => {
            let head = s.take(at);
            let tail = s.skip(at + 1);
            lemma_ink_lines(tail);
            assert(lines(s).skip(1) =~= lines(tail));
            assert(lines(s)[0] == without_cr(head));
            if head.len() > 0 && head.last() == '\r' {
                assert(head =~= head.drop_last().push('\r'));
                lemma_ink_push(head.drop_last(), '\r');
            }
            assert(s =~= head.push('\n') + tail);
            lemma_ink_add(head.push('\n'), tail);
            lemma_ink_push(head, '\n');
        },
        None => {
            if s.len() == 0 {
                lemma_ink_white(s);
            } else {
                assert(lines(s) =~= seq![s]);
                assert(seq![s].skip(1) =~= seq![]);
                assert(ink(s) + inks(seq![s].skip(1)) =~= ink(s));
            }
        },
    }
}

proof fn lemma_ink_chunks(ls: Seq<Seq<char>>, current: Seq<char>, limit: int)
    ensures
        inks(chunks_from(ls, current, limit)) == ink(current) + inks(ls),
    decreases ls.len(),
{
    let out = chunks_from(ls, current, limit);
    if ls.len() == 0 {
        assert(ink(current) + inks(ls) =~= ink(current));
        if has_ink(current) {
            lemma_ink_trim_end(current);
            assert(out.skip(1) =~= seq![]);
            assert(ink(trim_end(current)) + inks(out.skip(1)) =~= ink(current));
        } else {
            lemma_ink_blank(current);
        }
    } else if current.len() > 0 && current.len() + ls[0].len() + 1 > limit {
        let next = ls[0].push('\n');
        lemma_ink_chunks(ls.skip(1), next, limit);
        lemma_ink_trim_end(current);
        lemma_ink_push(ls[0], '\n');
        assert(out.skip(1) =~= chunks_from(ls.skip(1), next, limit));
    } else {
        let next = (current + ls[0]).push('\n');
        lemma_ink_chunks(ls.skip(1), next, limit);
        lemma_ink_push(current + ls[0], '\n');
        lemma_ink_add(current, ls[0]);
        assert(ink(current) + ink(ls[0]) + inks(ls.skip(1)) =~= ink(current) + inks(ls));
    }
}

/// Splitting loses and repeats nothing but white space: the messages hold the
/// other characters of the text, each once and in order.
pub proof fn law_splitting_keeps_ink(text: Seq<char>, limit: int)
    ensures
        inks(message_chunks(text, limit)) == ink(text),
{
    if text.len() <= limit {
        assert(seq![text].skip(1) =~= seq![]);
        assert(ink(text) + inks(seq![text].skip(1)) =~= ink(text));
    } else {
        lemma_ink_chunks(lines(text), seq![], limit);
        lemma_ink_lines(text);
        lemma_ink_white(seq![]);
        assert(ink(seq![]) + inks(lines(text)) =~= ink(text));
    }
}

proof fn lemma_chunk_sizes(ls: Seq<Seq<char>>, current: Seq<char>, limit: int)
    requires
        0 <= limit,
        forall|k: int| 0 <= k < ls.len() ==> (#[trigger] ls[k]).len() <= limit,
        current.len() <= limit + 1,
        current.len() > 0 ==> current.last() == '\n',
    ensures
        forall|k: int|
            0 <= k < chunks_from(ls, current, limit).len() ==> (#[trigger] chunks_from(
                ls,
                current,
                limit,
            )[k]).len() <= limit,
    decreases ls.len(),
{
    let out = chunks_from(ls, current, limit);
    if current.len() > 0 {
        lemma_cut_run(current, white());
        assert(trim_end(current) == trim_end(current.drop_last()));
        lemma_cut_run(current.drop_last(), white());
    } else {
        lemma_cut_run(current, white());
    }
    if ls.len() == 0 {
    } else {
        let flushed = current.len() > 0 && current.len() + ls[0].len() + 1 > limit;
        let next = if flushed {
            ls[0].push('\n')
        } else {
            (current + ls[0]).push('\n')
        };
        assert forall|k: int| 0 <= k < ls.skip(1).len() implies (#[trigger] ls.skip(1)[k]).len()
            <= limit by {
            assert(ls[k + 1].len() <= limit);
        }
        lemma_chunk_sizes(ls.skip(1), next, limit);
        let rest = chunks_from(ls.skip(1), next, limit);
        assert forall|k: int| 0 <= k < out.len() implies (#[trigger] out[k]).len() <= limit by {
            if flushed && k > 0 {
                assert(out[k] == rest[k - 1]);
            } else if !flushed {
                assert(out[k] == rest[k]);
            }
        }
    }
}

/// Where no line is longer than the limit, no message is.
pub proof fn law_messages_fit(text: Seq<char>, limit: int)
    requires
        0 <= limit,
        forall|k: int| 0 <= k < lines(text).len() ==> (#[trigger] lines(text)[k]).len() <= limit,
    ensures
        forall|k: int|
            0 <= k < message_chunks(text, limit).len() ==> (#[trigger] message_chunks(
                text,
                limit,
            )[k]).len() <= limit,
{
    if text.len() > limit {
        lemma_chunk_sizes(lines(text), seq![], limit);
    }
}

} // verus!
