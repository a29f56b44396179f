//! Styles that occur more than once in a line, and marks that style nothing.
use vstd::prelude::*;

use crate::basics::{law_trim, law_trimmed_stays};
use crate::markdown::inline::{
    bolded_from, closing_paren, escaped, escaped_char, inline_html, italic_upto, link_address,
    link_html, link_opening, linked_from, lone_star, protected_from, span_close, LinkView,
};
use crate::markdown::laws::{all_plain, is_plain};
use crate::markdown::shown::woven;
use crate::markdown::styles::{
    lemma_escaped_same, lemma_italic_state, lemma_no_bold, lemma_no_italic, lemma_no_links,
    lemma_only_styled, lemma_paren_close,
};
use crate::markdown::tags::{lemma_italic_copies, lemma_linked_copies};
use crate::patterns::{
    find_from, lemma_find_from, lemma_find_from_is, lemma_nothing_replaced, stands_at,
};
use crate::text::{index_from, is_white_space, lemma_run_end_is, not_white, other_than, trim};

verus! {

/// What holds of all characters of the texts and of the parts holds of what is
/// woven of them.
proof fn lemma_woven_all(
    texts: Seq<Seq<char>>,
    parts: Seq<Seq<char>>,
    k: int,
    holds: spec_fn(char) -> bool,
)
    requires
        texts.len() == parts.len() + 1,
        0 <= k <= parts.len(),
        forall|i: int, j: int|
            0 <= i < texts.len() && 0 <= j < texts[i].len() ==> holds(#[trigger] texts[i][j]),
        forall|i: int, j: int|
            0 <= i < parts.len() && 0 <= j < parts[i].len() ==> holds(#[trigger] parts[i][j]),
    ensures
        forall|j: int|
            0 <= j < woven(texts, parts, k).len() ==> holds(#[trigger] woven(texts, parts, k)[j]),
    decreases parts.len() - k,
{
    let all = woven(texts, parts, k);
    if k < parts.len() {
        lemma_woven_all(texts, parts, k + 1, holds);
        let rest = woven(texts, parts, k + 1);
        assert forall|j: int| 0 <= j < all.len() implies holds(#[trigger] all[j]) by {
            if j < texts[k].len() {
                assert(all[j] == texts[k][j]);
            } else if j < texts[k].len() + parts[k].len() {
                assert(all[j] == parts[k][j - texts[k].len()]);
            } else {
                assert(all[j] == rest[j - texts[k].len() - parts[k].len()]);
            }
        }
    } else {
        assert forall|j: int| 0 <= j < all.len() implies holds(#[trigger] all[j]) by {
            assert(all[j] == texts[k][j]);
        }
    }
}

spec fn between(open: Seq<char>, inner: Seq<Seq<char>>, close: Seq<char>) -> Seq<Seq<char>> {
    Seq::new(inner.len(), |k: int| open + inner[k] + close)
}

spec fn all_texts_plain(texts: Seq<Seq<char>>) -> bool {
    forall|i: int| 0 <= i < texts.len() ==> all_plain(#[trigger] texts[i])
}

proof fn lemma_between_all(
    open: Seq<char>,
    inner: Seq<Seq<char>>,
    close: Seq<char>,
    holds: spec_fn(char) -> bool,
)
    requires
        forall|j: int| 0 <= j < open.len() ==> holds(#[trigger] open[j]),
        forall|j: int| 0 <= j < close.len() ==> holds(#[trigger] close[j]),
        forall|i: int, j: int|
            0 <= i < inner.len() && 0 <= j < inner[i].len() ==> holds(#[trigger] inner[i][j]),
    ensures
        forall|i: int, j: int|
            0 <= i < inner.len() && 0 <= j < between(open, inner, close)[i].len() ==> holds(
                #[trigger] between(open, inner, close)[i][j],
            ),
{
    assert forall|i: int, j: int|
        0 <= i < inner.len() && 0 <= j < between(open, inner, close)[i].len() implies holds(
        #[trigger] between(open, inner, close)[i][j],
    ) by {
        let part = between(open, inner, close)[i];
        if j < open.len() {
            assert(part[j] == open[j]);
        } else if j < open.len() + inner[i].len() {
            assert(part[j] == inner[i][j - open.len()]);
        } else {
            assert(part[j] == close[j - open.len() - inner[i].len()]);
        }
    }
}

// ---------------------------------------------------------------------------
// Bold
// ---------------------------------------------------------------------------
proof fn lemma_all_bold(pre: Seq<char>, texts: Seq<Seq<char>>, inner: Seq<Seq<char>>, k: int)
    requires
        texts.len() == inner.len() + 1,
        0 <= k <= inner.len(),
        all_texts_plain(texts),
        all_texts_plain(inner),
    ensures
        bolded_from(pre + woven(texts, between("**"@, inner, "**"@), k), pre.len() as int)
            == woven(texts, between("<b>"@, inner, "</b>"@), k),
    decreases inner.len() - k,
{
    reveal_strlit("**");
    let parts = between("**"@, inner, "**"@);
    let rest = woven(texts, parts, k);
    let s = pre + rest;
    let from = pre.len() as int;
    let text = texts[k];
    let n = from + text.len();
    assert(all_plain(text));
    assert forall|j: int| from <= j < n implies #[trigger] s[j] != '*' by {
        assert(s[j] == text[j - from]);
        assert(is_plain(text[j - from]));
    }
    if k == inner.len() {
        lemma_find_from(s, from, "**"@);
        if let Some(at) = find_from(s, from, "**"@) {
            assert(s.subrange(at, at + 2)[0] == s[at]);
        }
        assert(s.skip(from) =~= text);
    } else {
        let x = inner[k];
        let more = woven(texts, parts, k + 1);
        let m = n + 2 + x.len();
        assert(all_plain(x));
        assert(parts[k] == "**"@ + x + "**"@);
        assert(s.subrange(n, n + 2) =~= "**"@);
        assert forall|j: int| from <= j < n implies !#[trigger] stands_at(s, j, "**"@) by {
            if stands_at(s, j, "**"@) {
                assert(s.subrange(j, j + 2)[0] == s[j]);
            }
        }
        lemma_find_from_is(s, from, "**"@, n);
        assert(s.subrange(m, m + 2) =~= "**"@);
        assert forall|j: int| n + 2 <= j < m implies !#[trigger] stands_at(s, j, "**"@) by {
            if stands_at(s, j, "**"@) {
                assert(s.subrange(j, j + 2)[0] == s[j]);
                assert(s[j] == x[j - n - 2]);
                assert(is_plain(x[j - n - 2]));
            }
        }
        lemma_find_from_is(s, n + 2, "**"@, m);
        let next = pre + text + ("**"@ + x + "**"@);
        lemma_all_bold(next, texts, inner, k + 1);
        assert(s =~= next + more);
        assert(next.len() == m + 2);
        assert(s.subrange(from, n) =~= text);
        assert(s.subrange(n + 2, m) =~= x);
        let shown = woven(texts, between("<b>"@, inner, "</b>"@), k + 1);
        assert(text + "<b>"@ + x + "</b>"@ + shown =~= text + ("<b>"@ + x + "</b>"@) + shown);
    }
}

/// Everything between two double asterisks is set bold, pair after pair, and
/// the text between the pairs is not.
pub proof fn law_every_bold_part(texts: Seq<Seq<char>>, inner: Seq<Seq<char>>)
    requires
        texts.len() == inner.len() + 1,
        forall|i: int| 0 <= i < texts.len() ==> all_plain(#[trigger] texts[i]),
        forall|i: int| 0 <= i < inner.len() ==> all_plain(#[trigger] inner[i]),
    ensures
        inline_html(
            woven(texts, Seq::new(inner.len(), |k: int| "**"@ + inner[k] + "**"@), 0),
        ) == woven(texts, Seq::new(inner.len(), |k: int| "<b>"@ + inner[k] + "</b>"@), 0),
{
    reveal_strlit("**");
    reveal_strlit("<b>");
    reveal_strlit("</b>");
    let none = Seq::<char>::empty();
    let parts = between("**"@, inner, "**"@);
    let shown = between("<b>"@, inner, "</b>"@);
    let s = woven(texts, parts, 0);
    let out = woven(texts, shown, 0);
    let starred = |c: char| is_plain(c) || c == '*';
    let tagged = |c: char| is_plain(c) || c == '<' || c == '>';
    lemma_plain_chars(texts);
    lemma_plain_chars(inner);
    lemma_between_all("**"@, inner, "**"@, starred);
    lemma_woven_all(texts, parts, 0, starred);
    lemma_between_all("<b>"@, inner, "</b>"@, tagged);
    lemma_woven_all(texts, shown, 0, tagged);
    assert forall|j: int| 0 <= j < s.len() implies #[trigger] s[j] != '`' && s[j] != '&' && s[j]
        != '<' && s[j] != '>' && s[j] != '[' by {
        assert(starred(s[j]));
    }
    lemma_only_styled(s);
    lemma_no_links(s);
    lemma_all_bold(none, texts, inner, 0);
    assert(none + s =~= s);
    assert forall|j: int| 0 <= j < out.len() implies #[trigger] out[j] != '*' by {
        assert(tagged(out[j]));
    }
    lemma_no_italic(out);
}

proof fn lemma_plain_chars(texts: Seq<Seq<char>>)
    requires
        all_texts_plain(texts),
    ensures
        forall|i: int, j: int|
            0 <= i < texts.len() && 0 <= j < texts[i].len() ==> is_plain(#[trigger] texts[i][j]),
{
    assert forall|i: int, j: int| 0 <= i < texts.len() && 0 <= j < texts[i].len() implies is_plain(
        #[trigger] texts[i][j],
    ) by {
        assert(all_plain(texts[i]));
    }
}

// ---------------------------------------------------------------------------
// Italic
// ---------------------------------------------------------------------------
/// No two asterisks stand side by side, and the first character is one only
/// where the first text is empty.
proof fn lemma_single_stars(texts: Seq<Seq<char>>, inner: Seq<Seq<char>>, k: int)
    requires
        texts.len() == inner.len() + 1,
        0 <= k <= inner.len(),
        all_texts_plain(texts),
        all_texts_plain(inner),
        forall|i: int| 0 < i < inner.len() ==> (#[trigger] texts[i]).len() > 0,
        forall|i: int| 0 <= i < inner.len() ==> (#[trigger] inner[i]).len() > 0,
    ensures
        ({
            let s = woven(texts, between("*"@, inner, "*"@), k);
            &&& forall|j: int| 0 <= j < s.len() - 1 ==> !(#[trigger] s[j] == '*' && s[j + 1] == '*')
            &&& s.len() > 0 && s[0] == '*' ==> texts[k].len() == 0 && k < inner.len()
        }),
    decreases inner.len() - k,
{
    reveal_strlit("*");
    let parts = between("*"@, inner, "*"@);
    let s = woven(texts, parts, k);
    let text = texts[k];
    assert(all_plain(text));
    if k == inner.len() {
        assert forall|j: int| 0 <= j < s.len() implies #[trigger] s[j] != '*' by {
            assert(is_plain(text[j]));
        }
    } else {
        lemma_single_stars(texts, inner, k + 1);
        let x = inner[k];
        let more = woven(texts, parts, k + 1);
        let n = text.len() as int;
        let m = n + 1 + x.len();
        assert(all_plain(x));
        assert(x.len() > 0);
        assert(parts[k] == "*"@ + x + "*"@);
        if k + 1 < inner.len() {
            assert(texts[k + 1].len() > 0);
        }
        assert forall|j: int| 0 <= j < s.len() implies #[trigger] s[j] != '*' || j > m || j == n
            || j == m by {
            if j < n {
                assert(s[j] == text[j]);
                assert(is_plain(text[j]));
            } else if n < j < m {
                assert(s[j] == x[j - n - 1]);
                assert(is_plain(x[j - n - 1]));
            }
        }
        assert forall|j: int| 0 <= j < s.len() - 1 implies !(#[trigger] s[j] == '*' && s[j + 1]
            == '*') by {
            if j > m {
                assert(s[j] == more[j - m - 1]);
                assert(s[j + 1] == more[j - m - 1 + 1]);
            } else if j == m {
                assert(s[j + 1] == more[0]);
            } else if s[j] == '*' {
                assert(j == n);
                assert(s[n + 1] == x[0]);
                assert(is_plain(x[0]));
            }
        }
        if s[0] == '*' && n > 0 {
            assert(is_plain(text[0]));
        }
    }
}

proof fn lemma_all_italic(
    pre: Seq<char>,
    done: Seq<char>,
    texts: Seq<Seq<char>>,
    inner: Seq<Seq<char>>,
    k: int,
)
    requires
        texts.len() == inner.len() + 1,
        0 <= k <= inner.len(),
        all_texts_plain(texts),
        all_texts_plain(inner),
        forall|i: int| 0 < i < inner.len() ==> (#[trigger] texts[i]).len() > 0,
        forall|i: int| 0 <= i < inner.len() ==> (#[trigger] inner[i]).len() > 0,
        k == 0 ==> pre.len() == 0,
        italic_upto(pre + woven(texts, between("*"@, inner, "*"@), k), pre.len() as int) == (
            done,
            false,
        ),
    ensures
        ({
            let s = pre + woven(texts, between("*"@, inner, "*"@), k);
            italic_upto(s, s.len() as int).0 == done + woven(
                texts,
                between("<i>"@, inner, "</i>"@),
                k,
            )
        }),
    decreases inner.len() - k,
{
    reveal_strlit("*");
    let parts = between("*"@, inner, "*"@);
    let shown = between("<i>"@, inner, "</i>"@);
    let s = pre + woven(texts, parts, k);
    let from = pre.len() as int;
    let text = texts[k];
    let n = from + text.len();
    assert(all_plain(text));
    assert forall|j: int| from <= j < n implies !#[trigger] lone_star(s, j) by {
        assert(s[j] == text[j - from]);
        assert(is_plain(text[j - from]));
    }
    lemma_italic_copies(s, from, n);
    lemma_italic_state(s, from, n);
    assert(s.subrange(from, n) =~= text);
    if k < inner.len() {
        let x = inner[k];
        let more = woven(texts, parts, k + 1);
        let m = n + 1 + x.len();
        assert(all_plain(x));
        assert(x.len() > 0);
        assert(parts[k] == "*"@ + x + "*"@);
        assert(s[n] == '*');
        assert(s[m] == '*');
        if k > 0 {
            assert(text.len() > 0);
        }
        assert(lone_star(s, n)) by {
            assert(s[n + 1] == x[0]);
            assert(is_plain(x[0]));
            if n > 0 {
                assert(s[n - 1] == text[text.len() - 1]);
                assert(is_plain(text[text.len() - 1]));
            }
        }
        lemma_single_stars(texts, inner, k + 1);
        if k + 1 < inner.len() {
            assert(texts[k + 1].len() > 0);
        }
        assert(lone_star(s, m)) by {
            assert(s[m - 1] == x[x.len() - 1]);
            assert(is_plain(x[x.len() - 1]));
            if m + 1 < s.len() {
                assert(s[m + 1] == more[0]);
            }
        }
        assert forall|j: int| n + 1 <= j < m implies !#[trigger] lone_star(s, j) by {
            assert(s[j] == x[j - n - 1]);
            assert(is_plain(x[j - n - 1]));
        }
        lemma_italic_copies(s, n + 1, m);
        lemma_italic_state(s, n + 1, m);
        assert(s.subrange(n + 1, m) =~= x);
        let next = pre + text + ("*"@ + x + "*"@);
        assert(s =~= next + more);
        assert(next.len() == m + 1);
        let now = done + text + "<i>"@ + x + "</i>"@;
        assert(italic_upto(s, n + 1) == (done + text + "<i>"@, true));
        assert(italic_upto(s, m + 1) == (now, false));
        lemma_all_italic(next, now, texts, inner, k + 1);
        assert(now + woven(texts, shown, k + 1) =~= done + (text + ("<i>"@ + x + "</i>"@) + woven(
            texts,
            shown,
            k + 1,
        )));
    }
}

/// Everything between two single asterisks is set italic, pair after pair, and
/// the text between the pairs is not.
pub proof fn law_every_italic_part(texts: Seq<Seq<char>>, inner: Seq<Seq<char>>)
    requires
        texts.len() == inner.len() + 1,
        forall|i: int| 0 <= i < texts.len() ==> all_plain(#[trigger] texts[i]),
        forall|i: int| 0 <= i < inner.len() ==> all_plain(#[trigger] inner[i]),
        forall|i: int| 0 < i < inner.len() ==> (#[trigger] texts[i]).len() > 0,
        forall|i: int| 0 <= i < inner.len() ==> (#[trigger] inner[i]).len() > 0,
    ensures
        inline_html(
            woven(texts, Seq::new(inner.len(), |k: int| "*"@ + inner[k] + "*"@), 0),
        ) == woven(texts, Seq::new(inner.len(), |k: int| "<i>"@ + inner[k] + "</i>"@), 0),
{
    reveal_strlit("*");
    let none = Seq::<char>::empty();
    let parts = between("*"@, inner, "*"@);
    let s = woven(texts, parts, 0);
    let starred = |c: char| is_plain(c) || c == '*';
    lemma_plain_chars(texts);
    lemma_plain_chars(inner);
    lemma_between_all("*"@, inner, "*"@, starred);
    lemma_woven_all(texts, parts, 0, starred);
    assert forall|j: int| 0 <= j < s.len() implies #[trigger] s[j] != '`' && s[j] != '&' && s[j]
        != '<' && s[j] != '>' && s[j] != '[' by {
        assert(starred(s[j]));
    }
    lemma_only_styled(s);
    lemma_no_links(s);
    lemma_single_stars(texts, inner, 0);
    lemma_no_bold(s);
    assert(none + s =~= s);
    lemma_all_italic(none, none, texts, inner, 0);
    let out = woven(texts, between("<i>"@, inner, "</i>"@), 0);
    assert(none + out =~= out);
}

// ---------------------------------------------------------------------------
// Links
// ---------------------------------------------------------------------------
/// An address that means itself in a link.
pub open spec fn is_address(s: Seq<char>) -> bool {
    &&& s.len() > 0
    &&& all_plain(s)
    &&& forall|k: int|
        0 <= k < s.len() ==> !is_white_space(#[trigger] s[k]) && s[k] != '(' && s[k] != ')' && s[k]
            != '"'
}

proof fn lemma_link_step(s: Seq<char>, n: int, label: Seq<char>, address: Seq<char>)
    requires
        all_plain(label),
        !label.contains(']'),
        is_address(address),
        0 <= n,
        n + label.len() + address.len() + 4 <= s.len(),
        s.subrange(n, n + label.len() + address.len() + 4) == "["@ + label + "]("@ + address
            + ")"@,
    ensures
        link_opening(s, n) == Some(
            LinkView { label, href: address, next: n + label.len() + address.len() + 4 },
        ),
        link_html(
            LinkView { label, href: address, next: n + label.len() + address.len() + 4 },
        ) == "<a href=\""@ + address + "\">"@ + label + "</a>"@,
{
    reveal_strlit("[");
    reveal_strlit("](");
    reveal_strlit(")");
    let l = n + 1 + label.len();
    let u = l + 2 + address.len();
    let part = s.subrange(n, u + 1);
    assert forall|k: int| n <= k < u + 1 implies #[trigger] s[k] == ("["@ + label + "]("@ + address
        + ")"@)[k - n] by {
        assert(part[k - n] == s[k]);
    }
    assert(s[n] == '[' && s[l] == ']' && s[l + 1] == '(' && s[u] == ')');
    assert forall|k: int| n + 1 <= k < l implies other_than(']')(#[trigger] s[k]) by {
        assert(s[k] == label[k - n - 1]);
        assert(label.contains(label[k - n - 1]));
    }
    lemma_run_end_is(s, n + 1, other_than(']'), l);
    assert(index_from(s, n + 1, ']') == Some(l));
    assert forall|k: int| l + 2 <= k < u implies #[trigger] s[k] != '(' && s[k] != ')' by {
        assert(s[k] == address[k - l - 2]);
    }
    lemma_paren_close(s, l + 2, u);
    assert(s.subrange(l + 2, u) =~= address);
    assert(s.subrange(n + 1, l) =~= label);
    assert(!is_white_space(address[0]) && !is_white_space(address[address.len() - 1]));
    law_trimmed_stays(address);
    assert(is_plain(address[0]));
    assert forall|k: int| 0 <= k < address.len() implies not_white()(#[trigger] address[k]) by {
        assert(!is_white_space(address[k]));
    }
    lemma_run_end_is(address, 0, not_white(), address.len() as int);
    assert(address.take(address.len() as int) =~= address);
    assert(link_address(address) == Some(address));
    assert forall|at: int| !#[trigger] stands_at(address, at, seq!['"']) by {
        if stands_at(address, at, seq!['"']) {
            assert(address.subrange(at, at + 1)[0] == address[at]);
        }
    }
    lemma_nothing_replaced(address, seq!['"'], "&quot;"@);
}

spec fn written_links(labels: Seq<Seq<char>>, addresses: Seq<Seq<char>>) -> Seq<Seq<char>> {
    Seq::new(labels.len(), |k: int| "["@ + labels[k] + "]("@ + addresses[k] + ")"@)
}

spec fn shown_links(labels: Seq<Seq<char>>, addresses: Seq<Seq<char>>) -> Seq<Seq<char>> {
    Seq::new(
        labels.len(),
        |k: int| "<a href=\""@ + addresses[k] + "\">"@ + labels[k] + "</a>"@,
    )
}

proof fn lemma_all_links(
    pre: Seq<char>,
    texts: Seq<Seq<char>>,
    labels: Seq<Seq<char>>,
    addresses: Seq<Seq<char>>,
    k: int,
)
    requires
        texts.len() == labels.len() + 1,
        addresses.len() == labels.len(),
        0 <= k <= labels.len(),
        all_texts_plain(texts),
        all_texts_plain(labels),
        forall|i: int| 0 <= i < labels.len() ==> !(#[trigger] labels[i]).contains(']'),
        forall|i: int| 0 <= i < addresses.len() ==> is_address(#[trigger] addresses[i]),
    ensures
        linked_from(pre + woven(texts, written_links(labels, addresses), k), pre.len() as int)
            == woven(texts, shown_links(labels, addresses), k),
    decreases labels.len() - k,
{
    reveal_strlit("[");
    reveal_strlit("](");
    reveal_strlit(")");
    let parts = written_links(labels, addresses);
    let s = pre + woven(texts, parts, k);
    let from = pre.len() as int;
    let text = texts[k];
    let n = from + text.len();
    assert(all_plain(text));
    assert forall|j: int| from <= j < n implies #[trigger] s[j] != '[' by {
        assert(s[j] == text[j - from]);
        assert(is_plain(text[j - from]));
    }
    lemma_linked_copies(s, from, n);
    assert(s.subrange(from, n) =~= text);
    if k == labels.len() {
        assert(linked_from(s, n) =~= Seq::<char>::empty());
        assert(text + Seq::<char>::empty() =~= text);
    } else {
        let label = labels[k];
        let address = addresses[k];
        let more = woven(texts, parts, k + 1);
        let end = n + label.len() + address.len() + 4;
        assert(all_plain(label));
        assert(is_address(address));
        assert(parts[k] == "["@ + label + "]("@ + address + ")"@);
        assert(s.subrange(n, end) =~= parts[k]);
        lemma_link_step(s, n, label, address);
        let next = pre + text + parts[k];
        lemma_all_links(next, texts, labels, addresses, k + 1);
        assert(s =~= next + more);
        assert(next.len() == end);
        let shown = woven(texts, shown_links(labels, addresses), k + 1);
        let html = "<a href=\""@ + address + "\">"@ + label + "</a>"@;
        assert(shown_links(labels, addresses)[k] == html);
        assert(text + (html + shown) =~= text + html + shown);
    }
}

/// Every link shows its own label and leads to its own address.
pub proof fn law_every_link(
    texts: Seq<Seq<char>>,
    labels: Seq<Seq<char>>,
    addresses: Seq<Seq<char>>,
)
    requires
        texts.len() == labels.len() + 1,
        addresses.len() == labels.len(),
        forall|i: int| 0 <= i < texts.len() ==> all_plain(#[trigger] texts[i]),
        forall|i: int| 0 <= i < labels.len() ==> all_plain(#[trigger] labels[i]),
        forall|i: int| 0 <= i < labels.len() ==> !(#[trigger] labels[i]).contains(']'),
        forall|i: int| 0 <= i < addresses.len() ==> is_address(#[trigger] addresses[i]),
    ensures
        inline_html(
            woven(
                texts,
                Seq::new(
                    labels.len(),
                    |k: int| "["@ + labels[k] + "]("@ + addresses[k] + ")"@,
                ),
                0,
            ),
        ) == woven(
            texts,
            Seq::new(
                labels.len(),
                |k: int| "<a href=\""@ + addresses[k] + "\">"@ + labels[k] + "</a>"@,
            ),
            0,
        ),
{
    let none = Seq::<char>::empty();
    let parts = written_links(labels, addresses);
    let shown = shown_links(labels, addresses);
    let s = woven(texts, parts, 0);
    let out = woven(texts, shown, 0);
    let written = |c: char| is_plain(c) || c == '[';
    let tagged = |c: char| is_plain(c) || c == '<' || c == '>';
    lemma_plain_chars(texts);
    lemma_plain_chars(labels);
    assert forall|i: int, j: int| 0 <= i < addresses.len() && 0 <= j
        < addresses[i].len() implies is_plain(#[trigger] addresses[i][j]) by {
        assert(is_address(addresses[i]));
    }
    lemma_link_chars(labels, addresses);
    lemma_woven_all(texts, parts, 0, written);
    lemma_woven_all(texts, shown, 0, tagged);
    assert forall|j: int| 0 <= j < s.len() implies #[trigger] s[j] != '`' && s[j] != '&' && s[j]
        != '<' && s[j] != '>' by {
        assert(written(s[j]));
    }
    lemma_only_styled(s);
    lemma_all_links(none, texts, labels, addresses, 0);
    assert(none + s =~= s);
    assert forall|j: int| 0 <= j < out.len() implies #[trigger] out[j] != '*' by {
        assert(tagged(out[j]));
    }
    lemma_no_bold(out);
    lemma_no_italic(out);
}

proof fn lemma_link_chars(labels: Seq<Seq<char>>, addresses: Seq<Seq<char>>)
    requires
        addresses.len() == labels.len(),
        forall|i: int, j: int|
            0 <= i < labels.len() && 0 <= j < labels[i].len() ==> is_plain(#[trigger] labels[i][j]),
        forall|i: int, j: int|
            0 <= i < addresses.len() && 0 <= j < addresses[i].len() ==> is_plain(
                #[trigger] addresses[i][j],
            ),
    ensures
        forall|i: int, j: int|
            0 <= i < labels.len() && 0 <= j < written_links(labels, addresses)[i].len() ==> (
            is_plain(#[trigger] written_links(labels, addresses)[i][j]) || written_links(
                labels,
                addresses,
            )[i][j] == '['),
        forall|i: int, j: int|
            0 <= i < labels.len() && 0 <= j < shown_links(labels, addresses)[i].len() ==> (
            is_plain(#[trigger] shown_links(labels, addresses)[i][j]) || shown_links(
                labels,
                addresses,
            )[i][j] == '<' || shown_links(labels, addresses)[i][j] == '>'),
{
    reveal_strlit("[");
    reveal_strlit("](");
    reveal_strlit(")");
    reveal_strlit("<a href=\"");
    reveal_strlit("\">");
    reveal_strlit("</a>");
    assert forall|i: int, j: int|
        0 <= i < labels.len() && 0 <= j < written_links(labels, addresses)[i].len() implies (
    is_plain(#[trigger] written_links(labels, addresses)[i][j]) || written_links(
        labels,
        addresses,
    )[i][j] == '[') by {
        let part = written_links(labels, addresses)[i];
        let l = 1 + labels[i].len() as int;
        let u = l + 2 + addresses[i].len();
        if 1 <= j < l {
            assert(part[j] == labels[i][j - 1]);
        } else if l + 2 <= j < u {
            assert(part[j] == addresses[i][j - l - 2]);
        }
    }
    assert forall|i: int, j: int|
        0 <= i < labels.len() && 0 <= j < shown_links(labels, addresses)[i].len() implies (
    is_plain(#[trigger] shown_links(labels, addresses)[i][j]) || shown_links(
        labels,
        addresses,
    )[i][j] == '<' || shown_links(labels, addresses)[i][j] == '>') by {
        let part = shown_links(labels, addresses)[i];
        let p = 9 + addresses[i].len() as int;
        let q = p + 2 + labels[i].len();
        if j < 9 {
            assert(part[j] == "<a href=\""@[j]);
        } else if j < p {
            assert(part[j] == addresses[i][j - 9]);
        } else if j < p + 2 {
            assert(part[j] == "\">"@[j - p]);
        } else if j < q {
            assert(part[j] == labels[i][j - p - 2]);
        } else {
            assert(part[j] == "</a>"@[j - q]);
        }
    }
}

/// The address of a link is its first word, whatever follows, and white space
/// around it does not matter; without a word there is no address.
pub proof fn law_link_addresses(before: Seq<char>, address: Seq<char>, after: Seq<char>)
    requires
        forall|k: int| 0 <= k < before.len() ==> is_white_space(#[trigger] before[k]),
        address.len() > 0,
        forall|k: int| 0 <= k < address.len() ==> !is_white_space(#[trigger] address[k]),
        address[0] != '<',
        after.len() > 0 ==> is_white_space(after[0]),
    ensures
        link_address(before + address + after) == Some(address),
        link_address(before) is None,
{
    let s = before + address + after;
    let t = trim(s);
    let (head, tail) = law_trim(s);
    assert(s[before.len() as int] == address[0]);
    assert(head.len() == before.len()) by {
        if head.len() < before.len() {
            if t.len() > 0 {
                assert(s[head.len() as int] == t[0]);
                assert(s[head.len() as int] == before[head.len() as int]);
            } else {
                let i = before.len() as int;
                assert(s[i] == tail[i - head.len()]);
            }
        } else if head.len() > before.len() {
            assert(s[before.len() as int] == head[before.len() as int]);
        }
    }
    assert(t.len() >= address.len()) by {
        if t.len() < address.len() {
            let i = before.len() as int + t.len();
            assert(s[i] == tail[0]);
            assert(s[i] == address[t.len() as int]);
        }
    }
    assert forall|k: int| 0 <= k < address.len() implies #[trigger] t[k] == address[k] by {
        assert(t[k] == s[before.len() + k]);
    }
    assert forall|k: int| 0 <= k < address.len() implies not_white()(#[trigger] t[k]) by {
        assert(t[k] == address[k]);
        assert(!is_white_space(address[k]));
    }
    if address.len() < t.len() {
        assert(t[address.len() as int] == s[before.len() as int + address.len()]);
        assert(s[before.len() as int + address.len()] == after[0]);
    }
    lemma_run_end_is(t, 0, not_white(), address.len() as int);
    assert(t.take(address.len() as int) =~= address);
    let (h, l) = law_trim(before);
    if trim(before).len() > 0 {
        assert(before[h.len() as int] == trim(before)[0]);
    }
}

/// An address in angle brackets is what stands in them, trimmed.
pub proof fn law_bracketed_addresses(address: Seq<char>, after: Seq<char>)
    requires
        !address.contains('>'),
        trim(address).len() > 0,
        after.len() > 0 ==> !is_white_space(after[after.len() - 1]),
    ensures
        link_address("<"@ + address + ">"@ + after) == Some(trim(address)),
{
    reveal_strlit("<");
    reveal_strlit(">");
    let s = "<"@ + address + ">"@ + after;
    let end = 1 + address.len() as int;
    assert(s[0] == '<');
    assert(s[end] == '>');
    if after.len() > 0 {
        assert(s[s.len() - 1] == after[after.len() - 1]);
    } else {
        assert(s[s.len() - 1] == '>');
    }
    law_trimmed_stays(s);
    assert forall|k: int| 1 <= k < end implies other_than('>')(#[trigger] s[k]) by {
        assert(s[k] == address[k - 1]);
        assert(address.contains(address[k - 1]));
    }
    lemma_run_end_is(s, 1, other_than('>'), end);
    assert(s.subrange(1, end) =~= address);
}

proof fn lemma_paren_copies(s: Seq<char>, from: int, to: int, depth: nat)
    requires
        0 <= from <= to <= s.len(),
        forall|k: int| from <= k < to ==> #[trigger] s[k] != '(' && s[k] != ')',
    ensures
        closing_paren(s, from, depth) == closing_paren(s, to, depth),
    decreases to - from,
{
    if from < to {
        assert(s[from] != '(');
        lemma_paren_copies(s, from + 1, to, depth);
    }
}

/// A link ends at the parenthesis that matches the one it opened with: pairs
/// inside its address are part of the address.
pub proof fn law_nested_parentheses(x: Seq<char>, y: Seq<char>, z: Seq<char>, rest: Seq<char>)
    requires
        forall|k: int| 0 <= k < x.len() ==> #[trigger] x[k] != '(' && x[k] != ')',
        forall|k: int| 0 <= k < y.len() ==> #[trigger] y[k] != '(' && y[k] != ')',
        forall|k: int| 0 <= k < z.len() ==> #[trigger] z[k] != '(' && z[k] != ')',
    ensures
        closing_paren(x + "("@ + y + ")"@ + z + ")"@ + rest, 0, 0) == Some(
            x.len() as int + y.len() + z.len() + 2,
        ),
{
    reveal_strlit("(");
    reveal_strlit(")");
    let s = x + "("@ + y + ")"@ + z + ")"@ + rest;
    let a = x.len() as int;
    let b = a + 1 + y.len();
    let c = b + 1 + z.len();
    assert(s[a] == '(' && s[b] == ')' && s[c] == ')');
    assert forall|k: int| 0 <= k < a implies #[trigger] s[k] != '(' && s[k] != ')' by {
        assert(s[k] == x[k]);
    }
    assert forall|k: int| a + 1 <= k < b implies #[trigger] s[k] != '(' && s[k] != ')' by {
        assert(s[k] == y[k - a - 1]);
    }
    assert forall|k: int| b + 1 <= k < c implies #[trigger] s[k] != '(' && s[k] != ')' by {
        assert(s[k] == z[k - b - 1]);
    }
    lemma_paren_copies(s, 0, a, 0);
    lemma_paren_copies(s, a + 1, b, 1);
    lemma_paren_copies(s, b + 1, c, 0);
}

// ---------------------------------------------------------------------------
// What styles nothing
// ---------------------------------------------------------------------------
/// Characters that mean something in HTML are shown as they are written.
pub proof fn law_special_characters_are_shown(s: Seq<char>)
    requires
        forall|k: int| 0 <= k < s.len() ==> #[trigger] s[k] != '`' && s[k] != '[' && s[k] != '*',
    ensures
        inline_html(s) == escaped(s),
{
    lemma_protected_copied(s, 0);
    assert(s.skip(0) =~= s);
    let t = escaped(s);
    lemma_escaped_unstyled(s);
    lemma_no_links(t);
    lemma_no_bold(t);
    lemma_no_italic(t);
}

proof fn lemma_protected_copied(s: Seq<char>, i: int)
    requires
        0 <= i <= s.len(),
        forall|k: int| 0 <= k < s.len() ==> span_close(s, k) is None,
    ensures
        protected_from(s, i, 0).0 == s.skip(i),
        protected_from(s, i, 0).1 == Seq::<Seq<char>>::empty(),
    decreases s.len() - i,
{
    if i < s.len() {
        assert(span_close(s, i) is None);
        lemma_protected_copied(s, i + 1);
        assert(seq![s[i]] + s.skip(i + 1) =~= s.skip(i));
    }
}

proof fn lemma_escaped_unstyled(s: Seq<char>)
    requires
        forall|k: int| 0 <= k < s.len() ==> #[trigger] s[k] != '[' && s[k] != '*',
    ensures
        forall|k: int|
            0 <= k < escaped(s).len() ==> #[trigger] escaped(s)[k] != '[' && escaped(s)[k] != '*',
    decreases s.len(),
{
    if s.len() > 0 {
        let init = s.drop_last();
        assert forall|k: int| 0 <= k < init.len() implies #[trigger] init[k] != '[' && init[k]
            != '*' by {
            assert(s[k] != '[');
        }
        lemma_escaped_unstyled(init);
        assert(s[s.len() - 1] != '[');
        reveal_strlit("&amp;");
        reveal_strlit("&lt;");
        reveal_strlit("&gt;");
        let last = escaped_char(s.last());
        let out = escaped(s);
        assert forall|k: int| 0 <= k < out.len() implies #[trigger] out[k] != '[' && out[k]
            != '*' by {
            if k < escaped(init).len() {
                assert(out[k] == escaped(init)[k]);
            } else {
                assert(out[k] == last[k - escaped(init).len()]);
            }
        }
    }
}

/// A single back quote, a label without an address, and double asterisks
/// without a partner stay as they are.
pub proof fn law_lone_marks_stay(a: Seq<char>, b: Seq<char>, c: Seq<char>)
    requires
        all_plain(a),
        all_plain(b),
        all_plain(c),
        !b.contains(']'),
        c.len() > 0 ==> c[0] != '(',
    ensures
        inline_html(a + "`"@ + b) == a + "`"@ + b,
        inline_html(a + "["@ + b + "]"@ + c) == a + "["@ + b + "]"@ + c,
        inline_html(a + "**"@ + b) == a + "**"@ + b,
{
    lemma_lone_quote(a, b);
    lemma_lone_label(a, b, c);
    lemma_lone_stars(a, b);
}

proof fn lemma_lone_quote(a: Seq<char>, b: Seq<char>)
    requires
        all_plain(a),
        all_plain(b),
    ensures
        inline_html(a + "`"@ + b) == a + "`"@ + b,
{
    reveal_strlit("`");
    let s = a + "`"@ + b;
    let n = a.len() as int;
    assert forall|k: int| 0 <= k < s.len() implies #[trigger] s[k] != '&' && s[k] != '<' && s[k]
        != '>' && s[k] != '[' && s[k] != '*' && (s[k] == '`' ==> k == n) by {
        if k < n {
            assert(is_plain(a[k]));
        } else if k > n {
            assert(is_plain(b[k - n - 1]));
        }
    }
    assert forall|k: int| 0 <= k < s.len() implies span_close(s, k) is None by {
        if s[k] == '`' {
            assert forall|j: int| n + 1 <= j < s.len() implies other_than('`')(
                #[trigger] s[j],
            ) by {
                assert(s[j] != '`');
            }
            lemma_run_end_is(s, n + 1, other_than('`'), s.len() as int);
        }
    }
    lemma_protected_copied(s, 0);
    assert(s.skip(0) =~= s);
    lemma_escaped_same(s);
    lemma_no_links(s);
    lemma_no_bold(s);
    lemma_no_italic(s);
}

proof fn lemma_lone_label(a: Seq<char>, b: Seq<char>, c: Seq<char>)
    requires
        all_plain(a),
        all_plain(b),
        all_plain(c),
        !b.contains(']'),
        c.len() > 0 ==> c[0] != '(',
    ensures
        inline_html(a + "["@ + b + "]"@ + c) == a + "["@ + b + "]"@ + c,
{
    reveal_strlit("[");
    reveal_strlit("]");
    let s = a + "["@ + b + "]"@ + c;
    let n = a.len() as int;
    let m = n + 1 + b.len();
    assert forall|k: int| 0 <= k < s.len() implies #[trigger] s[k] != '`' && s[k] != '&' && s[k]
        != '<' && s[k] != '>' && s[k] != '*' && (s[k] == '[' ==> k == n) by {
        if k < n {
            assert(is_plain(a[k]));
        } else if n < k < m {
            assert(is_plain(b[k - n - 1]));
        } else if k > m {
            assert(is_plain(c[k - m - 1]));
        }
    }
    lemma_only_styled(s);
    lemma_linked_copies(s, 0, n);
    assert forall|k: int| n + 1 <= k < m implies other_than(']')(#[trigger] s[k]) by {
        assert(s[k] == b[k - n - 1]);
        assert(b.contains(b[k - n - 1]));
    }
    assert(s[m] == ']');
    lemma_run_end_is(s, n + 1, other_than(']'), m);
    if m + 1 < s.len() {
        assert(s[m + 1] == c[0]);
    }
    assert(s[n] == '[');
    assert(link_opening(s, n) is None);
    lemma_linked_copies(s, n + 1, s.len() as int);
    assert(linked_from(s, s.len() as int) =~= Seq::<char>::empty());
    assert(linked_from(s, n) =~= s.skip(n)) by {
        assert(s.subrange(n + 1, s.len() as int) + Seq::<char>::empty() =~= s.skip(n + 1));
        assert(seq![s[n]] + s.skip(n + 1) =~= s.skip(n));
    }
    assert(s.subrange(0, n) + s.skip(n) =~= s);
    lemma_no_bold(s);
    lemma_no_italic(s);
}

proof fn lemma_lone_stars(a: Seq<char>, b: Seq<char>)
    requires
        all_plain(a),
        all_plain(b),
    ensures
        inline_html(a + "**"@ + b) == a + "**"@ + b,
{
    reveal_strlit("**");
    let s = a + "**"@ + b;
    let n = a.len() as int;
    assert forall|k: int| 0 <= k < s.len() implies #[trigger] s[k] != '`' && s[k] != '&' && s[k]
        != '<' && s[k] != '>' && s[k] != '[' && (s[k] == '*' ==> k == n || k == n + 1) by {
        if k < n {
            assert(is_plain(a[k]));
        } else if k > n + 1 {
            assert(is_plain(b[k - n - 2]));
        }
    }
    lemma_only_styled(s);
    lemma_no_links(s);
    assert(s.subrange(n, n + 2) =~= "**"@);
    assert forall|k: int| 0 <= k < n implies !#[trigger] stands_at(s, k, "**"@) by {
        if stands_at(s, k, "**"@) {
            assert(s.subrange(k, k + 2)[0] == s[k]);
        }
    }
    lemma_find_from_is(s, 0, "**"@, n);
    lemma_find_from(s, n + 2, "**"@);
    if let Some(at) = find_from(s, n + 2, "**"@) {
        assert(s.subrange(at, at + 2)[0] == s[at]);
    }
    assert(bolded_from(s, 0) == s.skip(0));
    assert(s.skip(0) =~= s);
    assert forall|k: int| 0 <= k < s.len() implies !#[trigger] lone_star(s, k) by {
        assert(s[n] == '*' && s[n + 1] == '*');
        if s[k] == '*' {
            assert(k == n || k == n + 1);
        }
    }
    lemma_italic_copies(s, 0, s.len() as int);
    assert(italic_upto(s, 0).0 + s.subrange(0, s.len() as int) =~= s);
}

} // verus!
