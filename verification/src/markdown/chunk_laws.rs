//! How long text is parted into messages, and how foreign tags are shown.
use vstd::prelude::*;

use crate::basics::law_ink;
use crate::markdown::message::{chunks_from, message_chunks, sanitized};
use crate::patterns::{lines, replace_all};
use crate::text::{has_ink, trim_end};

verus! {

// ---------------------------------------------------------------------------
// Messages
// ---------------------------------------------------------------------------
/// The lines from number `from` up to number `to`, each with its line feed.
pub open spec fn run_of_lines(ls: Seq<Seq<char>>, from: int, to: int) -> Seq<char>
    decreases to - from,
{
    if from >= to {
        seq![]
    } else {
        run_of_lines(ls, from, to - 1) + ls[to - 1].push('\n')
    }
}

/// Whether `chunks` are the runs of lines between neighbouring `cuts`, each as
/// long as the limit lets it be.
pub open spec fn parted(
    ls: Seq<Seq<char>>,
    cuts: Seq<int>,
    chunks: Seq<Seq<char>>,
    limit: int,
) -> bool {
    &&& cuts.len() >= 1
    &&& cuts.last() == ls.len()
    &&& chunks.len() <= cuts.len() - 1 <= chunks.len() + 1
    &&& forall|g: int| 0 <= g < cuts.len() - 1 ==> #[trigger] cuts[g] < cuts[g + 1]
    &&& forall|g: int|
        0 <= g < chunks.len() ==> #[trigger] chunks[g] == trim_end(
            run_of_lines(ls, cuts[g], cuts[g + 1]),
        )
    &&& chunks.len() < cuts.len() - 1 ==> !has_ink(
        run_of_lines(ls, cuts[cuts.len() - 2], ls.len() as int),
    )
    &&& forall|g: int|
        0 <= g < cuts.len() - 2 ==> run_of_lines(ls, #[trigger] cuts[g], cuts[g + 1]).len()
            + ls[cuts[g + 1]].len() + 1 > limit
    &&& forall|g: int|
        0 <= g < cuts.len() - 1 ==> cuts[g + 1] == #[trigger] cuts[g] + 1 || run_of_lines(
            ls,
            cuts[g],
            cuts[g + 1],
        ).len() <= limit
}

proof fn lemma_run_not_empty(ls: Seq<Seq<char>>, from: int, to: int)
    requires
        from < to,
    ensures
        run_of_lines(ls, from, to).len() > 0,
{
}

proof fn lemma_parted(ls: Seq<Seq<char>>, start: int, i: int, limit: int) -> (cuts: Seq<int>)
    requires
        0 <= start <= i <= ls.len(),
        i <= start + 1 || run_of_lines(ls, start, i).len() <= limit,
    ensures
        parted(ls, cuts, chunks_from(ls.skip(i), run_of_lines(ls, start, i), limit), limit),
        cuts[0] == start,
    decreases ls.len() - i,
{
    let current = run_of_lines(ls, start, i);
    let chunks = chunks_from(ls.skip(i), current, limit);
    if i == ls.len() {
        if start == i {
            let cuts = seq![start];
            assert(current =~= Seq::<char>::empty());
            law_ink(current);
            assert(chunks =~= Seq::<Seq<char>>::empty());
            cuts
        } else {
            let cuts = seq![start, i];
            if has_ink(current) {
                assert(chunks =~= seq![trim_end(current)]);
            } else {
                assert(chunks =~= Seq::<Seq<char>>::empty());
            }
            cuts
        }
    } else {
        let line = ls[i];
        assert(ls.skip(i)[0] == line);
        assert(ls.skip(i).skip(1) =~= ls.skip(i + 1));
        if start < i {
            lemma_run_not_empty(ls, start, i);
        }
        if current.len() > 0 && current.len() + line.len() + 1 > limit {
            assert(run_of_lines(ls, i, i) =~= Seq::<char>::empty());
            assert(run_of_lines(ls, i, i + 1) =~= line.push('\n'));
            let rest_cuts = lemma_parted(ls, i, i + 1, limit);
            let rest = chunks_from(ls.skip(i + 1), line.push('\n'), limit);
            let cuts = seq![start] + rest_cuts;
            assert(chunks =~= seq![trim_end(current)] + rest);
            assert(rest_cuts.len() >= 2) by {
                if rest_cuts.len() == 1 {
                    assert(rest_cuts.last() == i);
                }
            }
            assert(cuts[0] == start && cuts[1] == i);
            assert(cuts.last() == rest_cuts.last());
            assert forall|g: int| 0 <= g < cuts.len() - 1 implies #[trigger] cuts[g] < cuts[g
                + 1] by {
                if g > 0 {
                    assert(cuts[g] == rest_cuts[g - 1]);
                    assert(cuts[g + 1] == rest_cuts[g - 1 + 1]);
                }
            }
            assert forall|g: int| 0 <= g < chunks.len() implies #[trigger] chunks[g] == trim_end(
                run_of_lines(ls, cuts[g], cuts[g + 1]),
            ) by {
                if g > 0 {
                    assert(chunks[g] == rest[g - 1]);
                    assert(cuts[g] == rest_cuts[g - 1]);
                    assert(cuts[g + 1] == rest_cuts[g - 1 + 1]);
                }
            }
            assert(cuts[cuts.len() - 2] == rest_cuts[rest_cuts.len() - 2]);
            assert forall|g: int| 0 <= g < cuts.len() - 2 implies run_of_lines(
                ls,
                #[trigger] cuts[g],
                cuts[g + 1],
            ).len() + ls[cuts[g + 1]].len() + 1 > limit by {
                if g > 0 {
                    assert(cuts[g] == rest_cuts[g - 1]);
                    assert(cuts[g + 1] == rest_cuts[g - 1 + 1]);
                }
            }
            assert forall|g: int| 0 <= g < cuts.len() - 1 implies cuts[g + 1] == #[trigger] cuts[g]
                + 1 || run_of_lines(ls, cuts[g], cuts[g + 1]).len() <= limit by {
                if g > 0 {
                    assert(cuts[g] == rest_cuts[g - 1]);
                    assert(cuts[g + 1] == rest_cuts[g - 1 + 1]);
                }
            }
            cuts
        } else {
            assert(run_of_lines(ls, start, i + 1) == current + line.push('\n'));
            assert((current + line).push('\n') =~= current + line.push('\n'));
            if start == i {
                assert(current =~= Seq::<char>::empty());
            }
            lemma_parted(ls, start, i + 1, limit)
        }
    }
}

/// Text that is too long for one message is parted between lines, every line
/// standing in one message; a message ends where the next line would make it
/// too long, and nowhere else. Text that is not too long stays as it is.
pub proof fn law_messages_are_runs_of_lines(text: Seq<char>, limit: int) -> (cuts: Seq<int>)
    ensures
        text.len() <= limit ==> message_chunks(text, limit) == seq![text],
        text.len() > limit ==> parted(lines(text), cuts, message_chunks(text, limit), limit)
            && cuts[0] == 0,
{
    let ls = lines(text);
    assert(ls.skip(0) =~= ls);
    assert(run_of_lines(ls, 0, 0) =~= Seq::<char>::empty());
    lemma_parted(ls, 0, 0, limit)
}

// ---------------------------------------------------------------------------
// Foreign tags
// ---------------------------------------------------------------------------
/// A part at whose start no match starts is left, character by character.
proof fn lemma_step(c: char, rest: Seq<char>, part: Seq<char>, with: Seq<char>)
    requires
        part.len() > 0,
        c != part[0],
    ensures
        replace_all(seq![c] + rest, part, with) == seq![c] + replace_all(rest, part, with),
{
    let s = seq![c] + rest;
    if part.is_prefix_of(s) {
        assert(s.take(part.len() as int)[0] == part[0]);
    }
    assert(s.skip(1) =~= rest);
}

proof fn lemma_no_match_start(s: Seq<char>, part: Seq<char>, with: Seq<char>, i: int)
    requires
        0 <= i < part.len(),
        i < s.len(),
        s[i] != part[i],
    ensures
        replace_all(s, part, with) == seq![s[0]] + replace_all(s.skip(1), part, with),
{
    if part.is_prefix_of(s) {
        assert(s.take(part.len() as int)[i] == part[i]);
    }
}

/// A character that opens no tag is kept, and what follows it is sanitized.
pub proof fn law_sanitizing_keeps_text(c: char, rest: Seq<char>)
    requires
        c != '<',
    ensures
        sanitized(seq![c] + rest) == seq![c] + sanitized(rest),
{
    reveal_strlit("<name>");
    reveal_strlit("</name>");
    reveal_strlit("<thinking>");
    reveal_strlit("</thinking>");
    let a = replace_all(rest, "<name>"@, "&lt;name&gt;"@);
    let b = replace_all(a, "</name>"@, "&lt;/name&gt;"@);
    let d = replace_all(b, "<thinking>"@, "&lt;thinking&gt;"@);
    lemma_step(c, rest, "<name>"@, "&lt;name&gt;"@);
    lemma_step(c, a, "</name>"@, "&lt;/name&gt;"@);
    lemma_step(c, b, "<thinking>"@, "&lt;thinking&gt;"@);
    lemma_step(c, d, "</thinking>"@, "&lt;/thinking&gt;"@);
}

/// Text that no tag can start in is passed over by a replacement.
proof fn lemma_passed(text: Seq<char>, rest: Seq<char>, part: Seq<char>, with: Seq<char>)
    requires
        part.len() > 0,
        forall|k: int| 0 <= k < text.len() ==> #[trigger] text[k] != part[0],
    ensures
        replace_all(text + rest, part, with) == text + replace_all(rest, part, with),
    decreases text.len(),
{
    if text.len() == 0 {
        assert(text + rest =~= rest);
        assert(text + replace_all(rest, part, with) =~= replace_all(rest, part, with));
    } else {
        let tail = text.skip(1);
        assert forall|k: int| 0 <= k < tail.len() implies #[trigger] tail[k] != part[0] by {
            assert(text[k + 1] != part[0]);
        }
        lemma_passed(tail, rest, part, with);
        assert(text[0] != part[0]);
        lemma_step(text[0], tail + rest, part, with);
        assert(text + rest =~= seq![text[0]] + (tail + rest));
        assert(seq![text[0]] + (tail + replace_all(rest, part, with)) =~= text + replace_all(
            rest,
            part,
            with,
        ));
    }
}

proof fn lemma_replaced_here(part: Seq<char>, rest: Seq<char>, with: Seq<char>)
    requires
        part.len() > 0,
    ensures
        replace_all(part + rest, part, with) == with + replace_all(rest, part, with),
{
    let s = part + rest;
    assert(part =~= s.take(part.len() as int));
    assert(s.skip(part.len() as int) =~= rest);
}

/// A tag that another replacement looks for elsewhere is passed over.
proof fn lemma_other_tag(tag: Seq<char>, rest: Seq<char>, part: Seq<char>, with: Seq<char>)
    requires
        part.len() > 2,
        tag.len() > 2,
        tag[0] == '<' && part[0] == '<',
        tag[1] != part[1] || tag[2] != part[2],
        forall|k: int| 1 <= k < tag.len() ==> #[trigger] tag[k] != '<',
    ensures
        replace_all(tag + rest, part, with) == tag + replace_all(rest, part, with),
{
    let s = tag + rest;
    if tag[1] != part[1] {
        lemma_no_match_start(s, part, with, 1);
    } else {
        lemma_no_match_start(s, part, with, 2);
    }
    let tail = tag.skip(1);
    assert(s.skip(1) =~= tail + rest);
    assert forall|k: int| 0 <= k < tail.len() implies #[trigger] tail[k] != part[0] by {
        assert(tag[k + 1] != '<');
    }
    lemma_passed(tail, rest, part, with);
    assert(seq![tag[0]] + (tail + replace_all(rest, part, with)) =~= tag + replace_all(
        rest,
        part,
        with,
    ));
}

proof fn lemma_tag_texts()
    ensures
        "<name>"@ == seq!['<', 'n', 'a', 'm', 'e', '>'],
        "</name>"@ == seq!['<', '/', 'n', 'a', 'm', 'e', '>'],
        "<thinking>"@ == seq!['<', 't', 'h', 'i', 'n', 'k', 'i', 'n', 'g', '>'],
        "</thinking>"@ == seq!['<', '/', 't', 'h', 'i', 'n', 'k', 'i', 'n', 'g', '>'],
        forall|k: int| 0 <= k < "&lt;name&gt;"@.len() ==> #[trigger] "&lt;name&gt;"@[k] != '<',
        forall|k: int| 0 <= k < "&lt;/name&gt;"@.len() ==> #[trigger] "&lt;/name&gt;"@[k] != '<',
        forall|k: int|
            0 <= k < "&lt;thinking&gt;"@.len() ==> #[trigger] "&lt;thinking&gt;"@[k] != '<',
        forall|k: int|
            0 <= k < "&lt;/thinking&gt;"@.len() ==> #[trigger] "&lt;/thinking&gt;"@[k] != '<',
{
    reveal_strlit("<name>");
    reveal_strlit("</name>");
    reveal_strlit("<thinking>");
    reveal_strlit("</thinking>");
    reveal_strlit("&lt;name&gt;");
    reveal_strlit("&lt;/name&gt;");
    reveal_strlit("&lt;thinking&gt;");
    reveal_strlit("&lt;/thinking&gt;");
    assert("<name>"@ =~= seq!['<', 'n', 'a', 'm', 'e', '>']);
    assert("</name>"@ =~= seq!['<', '/', 'n', 'a', 'm', 'e', '>']);
    assert("<thinking>"@ =~= seq!['<', 't', 'h', 'i', 'n', 'k', 'i', 'n', 'g', '>']);
    assert("</thinking>"@ =~= seq!['<', '/', 't', 'h', 'i', 'n', 'k', 'i', 'n', 'g', '>']);
}

/// The tags that Telegram rejects are shown as they were written, wherever they
/// stand, and what follows is sanitized.
pub proof fn law_sanitizing_shows_tags(rest: Seq<char>)
    ensures
        sanitized("<name>"@ + rest) == "&lt;name&gt;"@ + sanitized(rest),
        sanitized("</name>"@ + rest) == "&lt;/name&gt;"@ + sanitized(rest),
        sanitized("<thinking>"@ + rest) == "&lt;thinking&gt;"@ + sanitized(rest),
        sanitized("</thinking>"@ + rest) == "&lt;/thinking&gt;"@ + sanitized(rest),
{
    lemma_tag_texts();
    let n = "<name>"@;
    let cn = "</name>"@;
    let t = "<thinking>"@;
    let ct = "</thinking>"@;
    let xn = "&lt;name&gt;"@;
    let xcn = "&lt;/name&gt;"@;
    let xt = "&lt;thinking&gt;"@;
    let xct = "&lt;/thinking&gt;"@;
    let a = replace_all(rest, n, xn);
    let b = replace_all(a, cn, xcn);
    let c = replace_all(b, t, xt);
    lemma_replaced_here(n, rest, xn);
    lemma_passed(xn, a, cn, xcn);
    lemma_passed(xn, b, t, xt);
    lemma_passed(xn, c, ct, xct);
    lemma_other_tag(cn, rest, n, xn);
    lemma_replaced_here(cn, a, xcn);
    lemma_passed(xcn, b, t, xt);
    lemma_passed(xcn, c, ct, xct);
    lemma_other_tag(t, rest, n, xn);
    lemma_other_tag(t, a, cn, xcn);
    lemma_replaced_here(t, b, xt);
    lemma_passed(xt, c, ct, xct);
    lemma_other_tag(ct, rest, n, xn);
    lemma_other_tag(ct, a, cn, xcn);
    lemma_other_tag(ct, b, t, xt);
    lemma_replaced_here(ct, c, xct);
}

} // verus!
