//! How code spans are shown.
use vstd::prelude::*;

use crate::markdown::inline::{
    escaped, escaped_char, inline_html, placeholder, protected_from, restored_from, span_close,
};
use crate::markdown::laws::{all_plain, is_plain, lemma_styles_plain};
use crate::numbers::{decimal, is_digit, lemma_decimal_digits, lemma_decimal_injective};
use crate::patterns::{contains_text, replace_all, stands_at};
use crate::text::{lemma_run_end_is, other_than};

verus! {

// ---------------------------------------------------------------------------
// Code spans
// ---------------------------------------------------------------------------
/// Texts with parts between them, from the text number `k` on.
pub open spec fn woven(texts: Seq<Seq<char>>, parts: Seq<Seq<char>>, k: int) -> Seq<char>
    decreases parts.len() - k,
{
    if k < 0 || k >= parts.len() {
        texts[k]
    } else {
        texts[k] + parts[k] + woven(texts, parts, k + 1)
    }
}

/// Text that cannot be taken for a placeholder.
pub open spec fn is_nameless(s: Seq<char>) -> bool {
    !contains_text(s, "CODE_SPAN_"@)
}

/// Text that means itself, and cannot be taken for a placeholder.
pub open spec fn is_quiet(s: Seq<char>) -> bool {
    all_plain(s) && is_nameless(s)
}

/// The characters before `to` that open no code span are copied.
proof fn lemma_protected_copies(s: Seq<char>, from: int, to: int, n: nat)
    requires
        0 <= from <= to <= s.len(),
        forall|k: int| from <= k < to ==> #[trigger] s[k] != '`',
    ensures
        protected_from(s, from, n).0 == s.subrange(from, to) + protected_from(s, to, n).0,
        protected_from(s, from, n).1 == protected_from(s, to, n).1,
    decreases to - from,
{
    if from < to {
        assert(s[from] != '`');
        lemma_protected_copies(s, from + 1, to, n);
        assert(seq![s[from]] + (s.subrange(from + 1, to) + protected_from(s, to, n).0)
            =~= s.subrange(from, to) + protected_from(s, to, n).0);
    } else {
        assert(s.subrange(from, to) + protected_from(s, to, n).0 =~= protected_from(s, to, n).0);
    }
}

spec fn quoted(codes: Seq<Seq<char>>) -> Seq<Seq<char>> {
    Seq::new(codes.len(), |k: int| seq!['`'] + codes[k] + seq!['`'])
}

spec fn marks(n: nat) -> Seq<Seq<char>> {
    Seq::new(n, |k: int| placeholder(k as nat))
}

spec fn spans(codes: Seq<Seq<char>>) -> Seq<Seq<char>> {
    Seq::new(codes.len(), |k: int| "<code>"@ + escaped(codes[k]) + "</code>"@)
}

/// The spans before number `k`, and the marks from there on.
spec fn mixed(codes: Seq<Seq<char>>, k: int) -> Seq<Seq<char>> {
    Seq::new(
        codes.len(),
        |j: int|
            if j < k {
                "<code>"@ + escaped(codes[j]) + "</code>"@
            } else {
                placeholder(j as nat)
            },
    )
}

proof fn lemma_protected_spans(pre: Seq<char>, texts: Seq<Seq<char>>, codes: Seq<Seq<char>>, k: int)
    requires
        texts.len() == codes.len() + 1,
        0 <= k <= codes.len(),
        forall|i: int| 0 <= i < texts.len() ==> all_plain(#[trigger] texts[i]),
        forall|i: int| 0 <= i < codes.len() ==> !(#[trigger] codes[i]).contains('`'),
    ensures
        ({
            let s = pre + woven(texts, quoted(codes), k);
            let (text, found) = protected_from(s, pre.len() as int, k as nat);
            &&& text == woven(texts, marks(codes.len()), k)
            &&& found == spans(codes).skip(k)
        }),
    decreases codes.len() - k,
{
    let rest = woven(texts, quoted(codes), k);
    let s = pre + rest;
    let from = pre.len() as int;
    let text = texts[k];
    let to = from + text.len();
    assert(all_plain(text));
    assert forall|i: int| from <= i < to implies #[trigger] s[i] != '`' by {
        assert(s[i] == text[i - from]);
        assert(is_plain(text[i - from]));
    }
    lemma_protected_copies(s, from, to, k as nat);
    assert(s.subrange(from, to) =~= text);
    if k == codes.len() {
        assert(to == s.len());
        assert(text + Seq::<char>::empty() =~= text);
        assert(spans(codes).skip(k) =~= Seq::<Seq<char>>::empty());
    } else {
        let code = codes[k];
        let end = to + 1 + code.len();
        let more = woven(texts, quoted(codes), k + 1);
        assert(s[to] == '`');
        assert(s[end] == '`');
        assert(!codes[k].contains('`'));
        assert forall|i: int| to + 1 <= i < end implies other_than('`')(#[trigger] s[i]) by {
            assert(s[i] == code[i - to - 1]);
            assert(code.contains(code[i - to - 1]));
        }
        lemma_run_end_is(s, to + 1, other_than('`'), end);
        assert(span_close(s, to) == Some(end));
        assert(s.subrange(to + 1, end) =~= code);
        let next = pre + text + (seq!['`'] + code + seq!['`']);
        lemma_protected_spans(next, texts, codes, k + 1);
        assert(s =~= next + more);
        assert(next.len() == end + 1);
        assert(marks(codes.len())[k] == placeholder(k as nat));
        let tail = woven(texts, marks(codes.len()), k + 1);
        assert(text + (placeholder(k as nat) + tail) =~= text + placeholder(k as nat) + tail);
        assert(seq![spans(codes)[k]] + spans(codes).skip(k + 1) =~= spans(codes).skip(k));
    }
}

proof fn lemma_placeholder_chars(n: nat)
    ensures
        placeholder(n).len() == 14 + decimal(n).len(),
        placeholder(n).take(12) == "@@CODE_SPAN_"@,
        placeholder(n).subrange(12, 12 + decimal(n).len() as int) == decimal(n),
        forall|i: int|
            0 <= i < decimal(n).len() ==> #[trigger] placeholder(n)[12 + i] == decimal(n)[i],
        placeholder(n)[0] == '@',
        placeholder(n)[1] == '@',
        placeholder(n)[2] == 'C',
        placeholder(n)[12 + decimal(n).len() as int] == '@',
        placeholder(n)[13 + decimal(n).len() as int] == '@',
        all_plain(placeholder(n)),
        forall|i: int| 2 <= i < 12 + decimal(n).len() ==> #[trigger] placeholder(n)[i] != '@',
        forall|i: int| 0 <= i < 10 ==> placeholder(n)[2 + i] == #[trigger] "CODE_SPAN_"@[i],
        "CODE_SPAN_"@.len() == 10,
        forall|i: int| 0 <= i < 10 ==> #[trigger] "CODE_SPAN_"@[i] != '@',
{
    reveal_strlit("@@CODE_SPAN_");
    reveal_strlit("@@");
    reveal_strlit("CODE_SPAN_");
    lemma_decimal_digits(n);
    let p = placeholder(n);
    assert(p.take(12) =~= "@@CODE_SPAN_"@);
    assert(p.subrange(12, 12 + decimal(n).len() as int) =~= decimal(n));
    assert forall|i: int| 0 <= i < p.len() implies is_plain(#[trigger] p[i]) by {
        if 12 <= i < 12 + decimal(n).len() {
            assert(is_digit(decimal(n)[i - 12]));
        }
    }
    assert forall|i: int| 2 <= i < 12 + decimal(n).len() implies #[trigger] p[i] != '@' by {
        if i >= 12 {
            assert(is_digit(decimal(n)[i - 12]));
        }
    }
}

/// Characters at which no match starts stay.
proof fn lemma_unmatched_stay(
    pre: Seq<char>,
    rest: Seq<char>,
    part: Seq<char>,
    with: Seq<char>,
    i: int,
)
    requires
        0 <= i <= pre.len(),
        part.len() > 0,
        forall|k: int|
            i <= k < pre.len() ==> !part.is_prefix_of(#[trigger] (pre + rest).skip(k)),
    ensures
        replace_all((pre + rest).skip(i), part, with) == pre.skip(i) + replace_all(
            rest,
            part,
            with,
        ),
    decreases pre.len() - i,
{
    let s = (pre + rest).skip(i);
    if i == pre.len() {
        assert(s =~= rest);
        assert(pre.skip(i) + replace_all(rest, part, with) =~= replace_all(rest, part, with));
    } else {
        lemma_unmatched_stay(pre, rest, part, with, i + 1);
        assert(!part.is_prefix_of((pre + rest).skip(i)));
        assert(s.skip(1) =~= (pre + rest).skip(i + 1));
        assert(seq![s[0]] + (pre.skip(i + 1) + replace_all(rest, part, with)) =~= pre.skip(i)
            + replace_all(rest, part, with));
    }
}

/// What a placeholder holds stands where the placeholder does.
proof fn lemma_placeholder_at(s: Seq<char>, i: int, k: nat)
    requires
        0 <= i <= s.len(),
        placeholder(k).is_prefix_of(s.skip(i)),
    ensures
        i + placeholder(k).len() <= s.len(),
        forall|x: int| 0 <= x < placeholder(k).len() ==> #[trigger] placeholder(k)[x] == s[i + x],
        stands_at(s, i + 2, "CODE_SPAN_"@),
{
    let p = placeholder(k);
    lemma_placeholder_chars(k);
    assert forall|x: int| 0 <= x < p.len() implies #[trigger] p[x] == s[i + x] by {
        assert(s.skip(i).take(p.len() as int)[x] == p[x]);
    }
    let part = s.subrange(i + 2, i + 12);
    assert forall|x: int| 0 <= x < 10 implies part[x] == #[trigger] "CODE_SPAN_"@[x] by {
        assert(p[2 + x] == s[i + 2 + x]);
    }
    assert(part =~= "CODE_SPAN_"@);
}

/// Behind nameless text, the name of a placeholder stands in what follows.
proof fn lemma_name_behind(text: Seq<char>, more: Seq<char>, y: int)
    requires
        is_nameless(text),
        more.len() == 0 || (more.len() > 1 && more[0] == '@' && more[1] == '@'),
        stands_at(text + more, y, "CODE_SPAN_"@),
    ensures
        y >= text.len() + 2,
{
    let name = "CODE_SPAN_"@;
    let s = text + more;
    let n = text.len() as int;
    lemma_placeholder_chars(0);
    assert forall|x: int| 0 <= x < 10 implies s[y + x] == #[trigger] name[x] by {
        assert(s.subrange(y, y + 10)[x] == s[y + x]);
    }
    if y + 10 <= n {
        assert(text.subrange(y, y + 10) =~= s.subrange(y, y + 10));
        assert(stands_at(text, y, name));
    } else if y < n + 2 {
        assert(more.len() > 1);
        if y < n {
            assert(name[n - y] == s[n]);
            assert(s[n] == more[0]);
        } else {
            assert(name[0] == s[y]);
            assert(s[y] == more[y - n]);
        }
    }
}

/// No placeholder starts in nameless text.
proof fn lemma_text_is_passed(text: Seq<char>, more: Seq<char>, k: nat, i: int)
    requires
        is_nameless(text),
        more.len() == 0 || (more.len() > 1 && more[0] == '@' && more[1] == '@'),
        0 <= i < text.len(),
    ensures
        !placeholder(k).is_prefix_of((text + more).skip(i)),
{
    if placeholder(k).is_prefix_of((text + more).skip(i)) {
        lemma_placeholder_at(text + more, i, k);
        lemma_name_behind(text, more, i + 2);
    }
}

/// A placeholder, whatever follows it, holds no start of another one.
proof fn lemma_other_placeholder(j: nat, k: nat, text: Seq<char>, more: Seq<char>, i: int)
    requires
        j != k,
        is_nameless(text),
        more.len() == 0 || (more.len() > 1 && more[0] == '@' && more[1] == '@'),
        0 <= i < placeholder(j).len(),
    ensures
        !placeholder(k).is_prefix_of((placeholder(j) + (text + more)).skip(i)),
{
    let p = placeholder(k);
    let q = placeholder(j);
    let rest = text + more;
    let s = q + rest;
    lemma_placeholder_chars(j);
    lemma_placeholder_chars(k);
    lemma_decimal_digits(j);
    lemma_decimal_digits(k);
    let lj = decimal(j).len() as int;
    let lk = decimal(k).len() as int;
    if p.is_prefix_of(s.skip(i)) {
        lemma_placeholder_at(s, i, k);
        assert(p[0] == s[i] && p[1] == s[i + 1]);
        if i == 0 {
            if lk < lj {
                assert(p[12 + lk] == s[12 + lk]);
                assert(q[12 + lk] == decimal(j)[lk]);
                assert(is_digit(decimal(j)[lk]));
            } else if lj < lk {
                assert(p[12 + lj] == decimal(k)[lj]);
                assert(p[12 + lj] == s[12 + lj]);
                assert(is_digit(decimal(k)[lj]));
                assert(q[12 + lj] == '@');
            } else {
                assert forall|x: int| 0 <= x < lk implies decimal(k)[x] == decimal(j)[x] by {
                    assert(p[12 + x] == s[12 + x]);
                    assert(q[12 + x] == decimal(j)[x]);
                }
                assert(decimal(k) =~= decimal(j));
                lemma_decimal_injective(k, j);
            }
        } else if i == 1 {
            assert(q[2] == 'C');
        } else if i < 12 + lj {
            assert(q[i] != '@');
        } else {
            let y = i + 2 - q.len();
            assert(rest.subrange(y, y + 10) =~= s.subrange(i + 2, i + 12));
            assert(stands_at(rest, y, "CODE_SPAN_"@));
            lemma_name_behind(text, more, y);
        }
    }
}

/// Placeholders with higher numbers are left alone.
proof fn lemma_later_marks_stay(
    texts: Seq<Seq<char>>,
    n: nat,
    j: int,
    k: nat,
    with: Seq<char>,
)
    requires
        texts.len() == n + 1,
        k < j <= n,
        forall|i: int| 0 <= i < texts.len() ==> is_quiet(#[trigger] texts[i]),
    ensures
        replace_all(woven(texts, marks(n), j), placeholder(k), with) == woven(texts, marks(n), j),
    decreases n - j,
{
    lemma_placeholder_chars(k);
    let p = placeholder(k);
    let text = texts[j];
    let all = woven(texts, marks(n), j);
    let behind = all.skip(text.len() as int);
    assert(is_quiet(texts[j]));
    lemma_woven_start(texts, n, j);
    assert(all =~= text + behind);
    assert forall|i: int| 0 <= i < text.len() implies !p.is_prefix_of(
        #[trigger] (text + behind).skip(i),
    ) by {
        lemma_text_is_passed(text, behind, k, i);
    }
    lemma_unmatched_stay(text, behind, p, with, 0);
    assert(all.skip(0) =~= all);
    assert(text.skip(0) =~= text);
    if j == n {
        assert(behind =~= Seq::<char>::empty());
        assert(replace_all(Seq::<char>::empty(), p, with) =~= Seq::<char>::empty());
        assert(text + Seq::<char>::empty() =~= all);
    } else {
        let q = placeholder(j as nat);
        let rest = woven(texts, marks(n), j + 1);
        assert(marks(n)[j] == q);
        assert(behind =~= q + rest);
        lemma_later_marks_stay(texts, n, j + 1, k, with);
        lemma_woven_start(texts, n, j + 1);
        let more = rest.skip(texts[j + 1].len() as int);
        assert(rest =~= texts[j + 1] + more);
        assert(is_quiet(texts[j + 1]));
        assert forall|i: int| 0 <= i < q.len() implies !p.is_prefix_of(
            #[trigger] (q + rest).skip(i),
        ) by {
            lemma_other_placeholder(j as nat, k, texts[j + 1], more, i);
        }
        lemma_unmatched_stay(q, rest, p, with, 0);
        assert((q + rest).skip(0) =~= q + rest);
        assert(q.skip(0) =~= q);
        assert(text + (q + rest) =~= all);
    }
}

/// After a text comes a placeholder or nothing.
proof fn lemma_woven_start(texts: Seq<Seq<char>>, n: nat, j: int)
    requires
        texts.len() == n + 1,
        0 <= j <= n,
    ensures
        ({
            let all = woven(texts, marks(n), j);
            let more = all.skip(texts[j].len() as int);
            &&& all.len() >= texts[j].len()
            &&& all.take(texts[j].len() as int) == texts[j]
            &&& more.len() == 0 || (more.len() > 1 && more[0] == '@' && more[1] == '@')
        }),
{
    let all = woven(texts, marks(n), j);
    assert(all.take(texts[j].len() as int) =~= texts[j]);
    if j < n {
        lemma_placeholder_chars(j as nat);
        assert(marks(n)[j] == placeholder(j as nat));
    }
}

/// What stands before part number `k`.
spec fn before(texts: Seq<Seq<char>>, parts: Seq<Seq<char>>, k: int) -> Seq<char>
    decreases k,
{
    if k <= 0 {
        texts[0]
    } else {
        before(texts, parts, k - 1) + parts[k - 1] + texts[k]
    }
}

proof fn lemma_woven_split(texts: Seq<Seq<char>>, parts: Seq<Seq<char>>, k: int)
    requires
        texts.len() == parts.len() + 1,
        0 <= k < parts.len(),
    ensures
        woven(texts, parts, 0) == before(texts, parts, k) + parts[k] + woven(
            texts,
            parts,
            k + 1,
        ),
    decreases k,
{
    if k > 0 {
        lemma_woven_split(texts, parts, k - 1);
        let head = before(texts, parts, k - 1) + parts[k - 1];
        let tail = woven(texts, parts, k + 1);
        assert(head + (texts[k] + parts[k] + tail) =~= head + texts[k] + parts[k] + tail);
    }
}

proof fn lemma_same_tail(texts: Seq<Seq<char>>, a: Seq<Seq<char>>, b: Seq<Seq<char>>, k: int)
    requires
        a.len() == b.len(),
        0 <= k <= a.len(),
        forall|i: int| k <= i < a.len() ==> #[trigger] a[i] == b[i],
    ensures
        woven(texts, a, k) == woven(texts, b, k),
    decreases a.len() - k,
{
    if k < a.len() {
        lemma_same_tail(texts, a, b, k + 1);
        assert(a[k] == b[k]);
    }
}

proof fn lemma_same_head(texts: Seq<Seq<char>>, a: Seq<Seq<char>>, b: Seq<Seq<char>>, k: int)
    requires
        0 <= k,
        forall|i: int| 0 <= i < k ==> #[trigger] a[i] == b[i],
    ensures
        before(texts, a, k) == before(texts, b, k),
    decreases k,
{
    if k > 0 {
        lemma_same_head(texts, a, b, k - 1);
        assert(a[k - 1] == b[k - 1]);
    }
}

/// Text without a semicolon at the end of escaped text stands at the end of the
/// text itself.
proof fn lemma_escaped_end(s: Seq<char>, t: Seq<char>)
    requires
        t.len() <= escaped(s).len(),
        escaped(s).skip(escaped(s).len() - t.len()) == t,
        forall|i: int| 0 <= i < t.len() ==> #[trigger] t[i] != ';',
    ensures
        t.len() <= s.len(),
        s.skip(s.len() - t.len()) == t,
    decreases t.len(),
{
    let out = escaped(s);
    if t.len() == 0 {
        assert(s.skip(s.len() as int) =~= t);
    } else {
        reveal_strlit("&amp;");
        reveal_strlit("&lt;");
        reveal_strlit("&gt;");
        let n = t.len() as int;
        let init = s.drop_last();
        assert(out.skip(out.len() - n)[n - 1] == out[out.len() - 1]);
        assert(t[n - 1] != ';');
        assert(out[out.len() - 1] == escaped_char(s.last())[escaped_char(s.last()).len() - 1]);
        assert(escaped_char(s.last()) =~= seq![s.last()]);
        let head = escaped(init);
        let start = t.drop_last();
        assert(out =~= head.push(s.last()));
        assert(head.skip(head.len() - start.len()) =~= start) by {
            assert forall|i: int| 0 <= i < start.len() implies #[trigger] head[head.len()
                - start.len() + i] == start[i] by {
                assert(out.skip(out.len() - n)[i] == t[i]);
            }
        }
        assert forall|i: int| 0 <= i < start.len() implies #[trigger] start[i] != ';' by {
            assert(t[i] != ';');
        }
        lemma_escaped_end(init, start);
        let end = s.skip(s.len() - n);
        assert forall|i: int| 0 <= i < n implies #[trigger] end[i] == t[i] by {
            if i < n - 1 {
                assert(init.skip(init.len() - start.len())[i] == start[i]);
                assert(end[i] == init[init.len() - start.len() + i]);
            }
        }
        assert(end =~= t);
    }
}

/// Nameless text stays so when it is escaped.
proof fn lemma_escaped_is_nameless(s: Seq<char>)
    requires
        is_nameless(s),
    ensures
        is_nameless(escaped(s)),
    decreases s.len(),
{
    let name = "CODE_SPAN_"@;
    reveal_strlit("CODE_SPAN_");
    let out = escaped(s);
    if s.len() > 0 {
        reveal_strlit("&amp;");
        reveal_strlit("&lt;");
        reveal_strlit("&gt;");
        let init = s.drop_last();
        let head = escaped(init);
        let last = escaped_char(s.last());
        assert forall|y: int| !#[trigger] stands_at(init, y, name) by {
            if stands_at(init, y, name) {
                assert(s.subrange(y, y + 10) =~= init.subrange(y, y + 10));
                assert(stands_at(s, y, name));
            }
        }
        lemma_escaped_is_nameless(init);
        assert forall|y: int| !#[trigger] stands_at(out, y, name) by {
            if stands_at(out, y, name) {
                assert forall|x: int| 0 <= x < 10 implies out[y + x] == #[trigger] name[x] by {
                    assert(out.subrange(y, y + 10)[x] == out[y + x]);
                }
                if y + 10 <= head.len() {
                    assert(head.subrange(y, y + 10) =~= out.subrange(y, y + 10));
                    assert(stands_at(head, y, name));
                } else if y + 10 < out.len() {
                    let x = if y < head.len() {
                        head.len() - y
                    } else {
                        0
                    };
                    assert(out[y + x] == name[x]);
                    assert(out[y + x] == last[y + x - head.len()]);
                } else {
                    assert(out.skip(out.len() - 10) =~= out.subrange(y, y + 10));
                    lemma_escaped_end(s, name);
                    assert(s.subrange(s.len() - 10, s.len() as int) =~= s.skip(s.len() - 10));
                    assert(stands_at(s, s.len() - 10, name));
                }
            }
        }
    } else {
        assert forall|y: int| !#[trigger] stands_at(out, y, name) by {}
    }
}

/// Nameless texts stay so when a tag stands between them.
proof fn lemma_nameless_around(a: Seq<char>, tag: Seq<char>, b: Seq<char>)
    requires
        is_nameless(a),
        is_nameless(b),
        tag.len() > 0,
        forall|x: int|
            0 <= x < tag.len() ==> #[trigger] tag[x] == '<' || tag[x] == '/' || tag[x] == '>'
                || 'a' <= tag[x] <= 'z',
    ensures
        is_nameless(a + tag + b),
{
    let name = "CODE_SPAN_"@;
    reveal_strlit("CODE_SPAN_");
    let s = a + tag + b;
    let n = a.len() as int;
    let m = n + tag.len();
    assert forall|y: int| !#[trigger] stands_at(s, y, name) by {
        if stands_at(s, y, name) {
            assert forall|x: int| 0 <= x < 10 implies s[y + x] == #[trigger] name[x] by {
                assert(s.subrange(y, y + 10)[x] == s[y + x]);
            }
            if y + 10 <= n {
                assert(a.subrange(y, y + 10) =~= s.subrange(y, y + 10));
                assert(stands_at(a, y, name));
            } else if y >= m {
                assert(b.subrange(y - m, y - m + 10) =~= s.subrange(y, y + 10));
                assert(stands_at(b, y - m, name));
            } else {
                let x = if y < n {
                    n - y
                } else {
                    0
                };
                assert(s[y + x] == name[x]);
                assert(s[y + x] == tag[y + x - n]);
            }
        }
    }
}

proof fn lemma_before_is_nameless(texts: Seq<Seq<char>>, codes: Seq<Seq<char>>, k: int)
    requires
        texts.len() == codes.len() + 1,
        0 <= k <= codes.len(),
        forall|i: int| 0 <= i < texts.len() ==> is_nameless(#[trigger] texts[i]),
        forall|i: int| 0 <= i < codes.len() ==> is_nameless(#[trigger] codes[i]),
    ensures
        is_nameless(before(texts, spans(codes), k)),
    decreases k,
{
    let out = before(texts, spans(codes), k);
    if k <= 0 {
        assert(is_nameless(texts[0]));
    } else {
        lemma_before_is_nameless(texts, codes, k - 1);
        reveal_strlit("<code>");
        reveal_strlit("</code>");
        let head = before(texts, spans(codes), k - 1);
        let code = escaped(codes[k - 1]);
        assert(is_nameless(codes[k - 1]));
        lemma_escaped_is_nameless(codes[k - 1]);
        assert(is_nameless(texts[k]));
        assert(spans(codes)[k - 1] == "<code>"@ + code + "</code>"@);
        lemma_nameless_around(head, "<code>"@, code);
        lemma_nameless_around(head + "<code>"@ + code, "</code>"@, texts[k]);
        assert(out =~= head + "<code>"@ + code + "</code>"@ + texts[k]);
    }
}

proof fn lemma_restored_spans(texts: Seq<Seq<char>>, codes: Seq<Seq<char>>, k: int)
    requires
        texts.len() == codes.len() + 1,
        0 <= k <= codes.len(),
        forall|i: int| 0 <= i < texts.len() ==> is_quiet(#[trigger] texts[i]),
        forall|i: int| 0 <= i < codes.len() ==> is_nameless(#[trigger] codes[i]),
    ensures
        restored_from(woven(texts, mixed(codes, k), 0), spans(codes), k as nat) == woven(
            texts,
            spans(codes),
            0,
        ),
    decreases codes.len() - k,
{
    let n = codes.len();
    if k == n {
        assert(mixed(codes, k) =~= spans(codes));
    } else {
        let p = placeholder(k as nat);
        let html = spans(codes)[k];
        let now = mixed(codes, k);
        let next = mixed(codes, k + 1);
        lemma_woven_split(texts, now, k);
        lemma_woven_split(texts, next, k);
        assert(now[k] == p);
        assert(next[k] == html);
        lemma_same_tail(texts, now, marks(n), k + 1);
        lemma_same_tail(texts, next, marks(n), k + 1);
        lemma_same_head(texts, now, spans(codes), k);
        lemma_same_head(texts, next, spans(codes), k);
        let head = before(texts, spans(codes), k);
        let tail = woven(texts, marks(n), k + 1);
        assert forall|i: int| 0 <= i < texts.len() implies is_nameless(#[trigger] texts[i]) by {
            assert(is_quiet(texts[i]));
        }
        lemma_before_is_nameless(texts, codes, k);
        lemma_placeholder_chars(k as nat);
        let behind = p + tail;
        assert(head + p + tail =~= head + behind);
        assert forall|i: int| 0 <= i < head.len() implies !p.is_prefix_of(
            #[trigger] (head + behind).skip(i),
        ) by {
            lemma_text_is_passed(head, behind, k as nat, i);
        }
        lemma_unmatched_stay(head, behind, p, html, 0);
        assert((head + behind).skip(0) =~= head + behind);
        assert(head.skip(0) =~= head);
        assert(p =~= (p + tail).take(p.len() as int));
        assert((p + tail).skip(p.len() as int) =~= tail);
        lemma_later_marks_stay(texts, n, k + 1, k as nat, html);
        assert(head + (html + tail) =~= head + html + tail);
        lemma_restored_spans(texts, codes, k + 1);
    }
}

proof fn lemma_woven_plain(texts: Seq<Seq<char>>, n: nat, k: int)
    requires
        texts.len() == n + 1,
        0 <= k <= n,
        forall|i: int| 0 <= i < texts.len() ==> all_plain(#[trigger] texts[i]),
    ensures
        all_plain(woven(texts, marks(n), k)),
    decreases n - k,
{
    assert(all_plain(texts[k]));
    if k < n {
        lemma_woven_plain(texts, n, k + 1);
        lemma_placeholder_chars(k as nat);
        let all = woven(texts, marks(n), k);
        let rest = woven(texts, marks(n), k + 1);
        let p = placeholder(k as nat);
        assert(marks(n)[k] == p);
        assert forall|i: int| 0 <= i < all.len() implies is_plain(#[trigger] all[i]) by {
            if i < texts[k].len() {
                assert(all[i] == texts[k][i]);
            } else if i < texts[k].len() + p.len() {
                assert(all[i] == p[i - texts[k].len()]);
            } else {
                assert(all[i] == rest[i - texts[k].len() - p.len()]);
            }
        }
    }
}

/// Every code span shows its own code, in its own place: plain text with code
/// in back quotes between its parts is shown as the text with the code, set as
/// code, between the same parts.
pub proof fn law_every_span_shows_its_code(texts: Seq<Seq<char>>, codes: Seq<Seq<char>>)
    requires
        texts.len() == codes.len() + 1,
        forall|i: int| 0 <= i < texts.len() ==> is_quiet(#[trigger] texts[i]),
        forall|i: int|
            0 <= i < codes.len() ==> !(#[trigger] codes[i]).contains('`') && is_nameless(codes[i]),
    ensures
        inline_html(
            woven(
                texts,
                Seq::new(codes.len(), |k: int| seq!['`'] + codes[k] + seq!['`']),
                0,
            ),
        ) == woven(
            texts,
            Seq::new(codes.len(), |k: int| "<code>"@ + escaped(codes[k]) + "</code>"@),
            0,
        ),
{
    let none = Seq::<char>::empty();
    let s = woven(texts, quoted(codes), 0);
    assert forall|i: int| 0 <= i < texts.len() implies all_plain(#[trigger] texts[i]) by {
        assert(is_quiet(texts[i]));
    }
    lemma_protected_spans(none, texts, codes, 0);
    assert(none + s =~= s);
    assert(spans(codes).skip(0) =~= spans(codes));
    lemma_woven_plain(texts, codes.len(), 0);
    lemma_styles_plain(woven(texts, marks(codes.len()), 0));
    assert(mixed(codes, 0) =~= marks(codes.len()));
    lemma_restored_spans(texts, codes, 0);
}

/// Two code spans in one line each show their own code.
pub proof fn law_two_spans(
    a: Seq<char>,
    x: Seq<char>,
    b: Seq<char>,
    y: Seq<char>,
    c: Seq<char>,
)
    requires
        is_quiet(a),
        is_quiet(b),
        is_quiet(c),
        !x.contains('`'),
        is_nameless(x),
        !y.contains('`'),
        is_nameless(y),
    ensures
        inline_html(
            a + (seq!['`'] + x + seq!['`']) + b + (seq!['`'] + y + seq!['`']) + c,
        ) == a + ("<code>"@ + escaped(x) + "</code>"@) + b + ("<code>"@ + escaped(y)
            + "</code>"@) + c,
{
    let texts = seq![a, b, c];
    let codes = seq![x, y];
    law_every_span_shows_its_code(texts, codes);
    let q = quoted(codes);
    let h = spans(codes);
    reveal_with_fuel(woven, 4);
    assert(woven(texts, q, 0) =~= a + q[0] + b + q[1] + c);
    assert(woven(texts, h, 0) =~= a + h[0] + b + h[1] + c);
}

} // verus!
