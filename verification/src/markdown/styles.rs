//! How escaped, bold, italic and linked text is shown.
use vstd::prelude::*;

use crate::basics::{law_replace_char, law_trimmed_stays};
use crate::markdown::inline::{
    attribute_text, bolded_from, closing_paren, escaped, inline_html, italic_upto, link_address,
    link_html, link_opening, linked_from, lone_star, protected_from, LinkView,
};
use crate::markdown::laws::{all_plain, is_plain};
use crate::markdown::tags::{lemma_italic_copies, lemma_linked_copies};
use crate::patterns::{
    find_from, lemma_find_from, lemma_find_from_is, lemma_nothing_replaced, stands_at,
};
use crate::text::{index_from, is_white_space, lemma_run_end_is, not_white, other_than};

verus! {

/// The characters that mean something in HTML are escaped, each where it
/// stands; every other character stays.
pub proof fn law_escaping(s: Seq<char>, c: char)
    ensures
        escaped(Seq::empty()) == Seq::<char>::empty(),
        escaped(s.push('&')) == escaped(s) + "&amp;"@,
        escaped(s.push('<')) == escaped(s) + "&lt;"@,
        escaped(s.push('>')) == escaped(s) + "&gt;"@,
        c != '&' && c != '<' && c != '>' ==> escaped(s.push(c)) == escaped(s).push(c),
{
    assert(s.push('&').drop_last() =~= s);
    assert(s.push('<').drop_last() =~= s);
    assert(s.push('>').drop_last() =~= s);
    assert(s.push(c).drop_last() =~= s);
    assert(escaped(s) + seq![c] =~= escaped(s).push(c));
}

/// In an attribute the quotation mark is escaped wherever it stands, and
/// nothing else is.
pub proof fn law_attributes(s: Seq<char>, c: char)
    ensures
        attribute_text(Seq::empty()) == Seq::<char>::empty(),
        attribute_text(s.push('"')) == attribute_text(s) + "&quot;"@,
        c != '"' ==> attribute_text(s.push(c)) == attribute_text(s).push(c),
{
    law_replace_char(s, '"', "&quot;"@, '"');
    law_replace_char(s, '"', "&quot;"@, c);
    assert(attribute_text(s) + seq![c] =~= attribute_text(s).push(c));
}

proof fn lemma_protected_all(s: Seq<char>, i: int)
    requires
        0 <= i <= s.len(),
        forall|k: int| 0 <= k < s.len() ==> #[trigger] s[k] != '`',
    ensures
        protected_from(s, i, 0).0 == s.skip(i),
        protected_from(s, i, 0).1 == Seq::<Seq<char>>::empty(),
    decreases s.len() - i,
{
    if i < s.len() {
        assert(s[i] != '`');
        lemma_protected_all(s, i + 1);
        assert(seq![s[i]] + s.skip(i + 1) =~= s.skip(i));
    }
}

pub proof fn lemma_escaped_same(s: Seq<char>)
    requires
        forall|k: int|
            0 <= k < s.len() ==> #[trigger] s[k] != '&' && s[k] != '<' && s[k] != '>',
    ensures
        escaped(s) == s,
    decreases s.len(),
{
    if s.len() > 0 {
        assert(s[s.len() - 1] == s.last());
        assert forall|k: int| 0 <= k < s.drop_last().len() implies #[trigger] s.drop_last()[k]
            != '&' && s.drop_last()[k] != '<' && s.drop_last()[k] != '>' by {
            assert(s[k] != '&');
        }
        lemma_escaped_same(s.drop_last());
        assert(s.drop_last() + seq![s.last()] =~= s);
    }
}

/// Text without code and without what is escaped is only styled.
pub proof fn lemma_only_styled(s: Seq<char>)
    requires
        forall|k: int|
            0 <= k < s.len() ==> #[trigger] s[k] != '`' && s[k] != '&' && s[k] != '<' && s[k] != '>',
    ensures
        ({
            let bold = bolded_from(linked_from(s, 0), 0);
            inline_html(s) == italic_upto(bold, bold.len() as int).0
        }),
{
    lemma_protected_all(s, 0);
    assert(s.skip(0) =~= s);
    lemma_escaped_same(s);
}

pub proof fn lemma_no_links(s: Seq<char>)
    requires
        forall|k: int| 0 <= k < s.len() ==> #[trigger] s[k] != '[',
    ensures
        linked_from(s, 0) == s,
{
    lemma_linked_copies(s, 0, s.len() as int);
    assert(s.subrange(0, s.len() as int) + linked_from(s, s.len() as int) =~= s);
}

pub proof fn lemma_no_bold(s: Seq<char>)
    requires
        forall|k: int| 0 <= k < s.len() - 1 ==> !(#[trigger] s[k] == '*' && s[k + 1] == '*'),
    ensures
        bolded_from(s, 0) == s,
{
    reveal_strlit("**");
    lemma_find_from(s, 0, "**"@);
    if let Some(at) = find_from(s, 0, "**"@) {
        assert(s.subrange(at, at + 2)[0] == s[at]);
        assert(s.subrange(at, at + 2)[1] == s[at + 1]);
    }
    assert(s.skip(0) =~= s);
}

pub proof fn lemma_no_italic(s: Seq<char>)
    requires
        forall|k: int| 0 <= k < s.len() ==> #[trigger] s[k] != '*',
    ensures
        italic_upto(s, s.len() as int).0 == s,
{
    assert forall|k: int| 0 <= k < s.len() implies !#[trigger] lone_star(s, k) by {
        assert(s[k] != '*');
    }
    lemma_italic_copies(s, 0, s.len() as int);
    assert(italic_upto(s, 0).0 + s.subrange(0, s.len() as int) =~= s);
}

/// What stands between double asterisks is set bold.
pub proof fn law_bold(a: Seq<char>, x: Seq<char>, b: Seq<char>)
    requires
        all_plain(a),
        all_plain(x),
        all_plain(b),
    ensures
        inline_html(a + "**"@ + x + "**"@ + b) == a + "<b>"@ + x + "</b>"@ + b,
{
    reveal_strlit("**");
    reveal_strlit("<b>");
    reveal_strlit("</b>");
    let s = a + "**"@ + x + "**"@ + b;
    let n = a.len() as int;
    let m = n + 2 + x.len();
    assert forall|k: int| 0 <= k < s.len() implies #[trigger] s[k] != '`' && s[k] != '&' && s[k]
        != '<' && s[k] != '>' && s[k] != '[' && (s[k] == '*' ==> k == n || k == n + 1 || k == m
        || k == m + 1) by {
        if k < n {
            assert(is_plain(a[k]));
        } else if n + 2 <= k < m {
            assert(is_plain(x[k - n - 2]));
        } else if k >= m + 2 {
            assert(is_plain(b[k - m - 2]));
        }
    }
    lemma_only_styled(s);
    lemma_no_links(s);
    assert(s.subrange(n, n + 2) =~= "**"@);
    assert forall|k: int| 0 <= k < n implies !#[trigger] stands_at(s, k, "**"@) by {
        if stands_at(s, k, "**"@) {
            assert(s.subrange(k, k + 2)[0] == s[k]);
        }
    }
    lemma_find_from_is(s, 0, "**"@, n);
    assert(s.subrange(m, m + 2) =~= "**"@);
    assert forall|k: int| n + 2 <= k < m implies !#[trigger] stands_at(s, k, "**"@) by {
        if stands_at(s, k, "**"@) {
            assert(s.subrange(k, k + 2)[0] == s[k]);
        }
    }
    lemma_find_from_is(s, n + 2, "**"@, m);
    lemma_find_from(s, m + 2, "**"@);
    if let Some(at) = find_from(s, m + 2, "**"@) {
        assert(s.subrange(at, at + 2)[0] == s[at]);
    }
    assert(bolded_from(s, m + 2) == s.skip(m + 2));
    let out = a + "<b>"@ + x + "</b>"@ + b;
    assert(s.subrange(0, n) =~= a);
    assert(s.subrange(n + 2, m) =~= x);
    assert(s.skip(m + 2) =~= b);
    assert(bolded_from(s, 0) =~= out);
    assert forall|k: int| 0 <= k < out.len() implies #[trigger] out[k] != '*' by {
        if k < n {
            assert(is_plain(a[k]));
        } else if n + 3 <= k < n + 3 + x.len() {
            assert(is_plain(x[k - n - 3]));
        } else if k >= n + 7 + x.len() {
            assert(is_plain(b[k - n - 7 - x.len()]));
        }
    }
    lemma_no_italic(out);
}

pub proof fn lemma_italic_state(s: Seq<char>, from: int, to: int)
    requires
        0 <= from <= to <= s.len(),
        forall|k: int| from <= k < to ==> !#[trigger] lone_star(s, k),
    ensures
        italic_upto(s, to).1 == italic_upto(s, from).1,
    decreases to - from,
{
    if from < to {
        assert(!lone_star(s, to - 1));
        lemma_italic_state(s, from, to - 1);
    }
}

/// What stands between single asterisks is set italic.
pub proof fn law_italic(a: Seq<char>, x: Seq<char>, b: Seq<char>)
    requires
        all_plain(a),
        all_plain(x),
        all_plain(b),
        x.len() > 0,
    ensures
        inline_html(a + "*"@ + x + "*"@ + b) == a + "<i>"@ + x + "</i>"@ + b,
{
    reveal_strlit("*");
    let s = a + "*"@ + x + "*"@ + b;
    let n = a.len() as int;
    let m = n + 1 + x.len();
    assert forall|k: int| 0 <= k < s.len() implies #[trigger] s[k] != '`' && s[k] != '&' && s[k]
        != '<' && s[k] != '>' && s[k] != '[' && (s[k] == '*' <==> k == n || k == m) by {
        if k < n {
            assert(is_plain(a[k]));
        } else if n < k < m {
            assert(is_plain(x[k - n - 1]));
        } else if k > m {
            assert(is_plain(b[k - m - 1]));
        }
    }
    lemma_only_styled(s);
    lemma_no_links(s);
    lemma_no_bold(s);
    assert(s[n] == '*');
    assert(s[m] == '*');
    assert(lone_star(s, n)) by {
        assert(s[n + 1] != '*');
    }
    assert(lone_star(s, m)) by {
        assert(s[m - 1] != '*');
    }
    assert forall|k: int| 0 <= k < s.len() && k != n && k != m implies !#[trigger] lone_star(
        s,
        k,
    ) by {
        assert(s[k] != '*');
    }
    lemma_italic_copies(s, 0, n);
    lemma_italic_state(s, 0, n);
    assert(s.subrange(0, n) =~= a);
    assert(italic_upto(s, n).0 =~= a);
    assert(italic_upto(s, n + 1) == (a + "<i>"@, true));
    lemma_italic_copies(s, n + 1, m);
    lemma_italic_state(s, n + 1, m);
    assert(s.subrange(n + 1, m) =~= x);
    assert(italic_upto(s, m + 1) == (a + "<i>"@ + x + "</i>"@, false));
    lemma_italic_copies(s, m + 1, s.len() as int);
    assert(s.subrange(m + 1, s.len() as int) =~= b);
}

pub proof fn lemma_paren_close(s: Seq<char>, from: int, to: int)
    requires
        0 <= from <= to < s.len(),
        s[to] == ')',
        forall|k: int| from <= k < to ==> #[trigger] s[k] != '(' && s[k] != ')',
    ensures
        closing_paren(s, from, 0) == Some(to),
    decreases to - from,
{
    if from < to {
        assert(s[from] != '(');
        lemma_paren_close(s, from + 1, to);
    }
}

/// Parts that are put together first may as well be put together one by one.
proof fn lemma_flat_link(
    a: Seq<char>,
    open: Seq<char>,
    address: Seq<char>,
    middle: Seq<char>,
    label: Seq<char>,
    close: Seq<char>,
    b: Seq<char>,
)
    ensures
        a + (open + address + middle + label + close + b) == a + open + address + middle + label
            + close + b,
{
    assert(a + (open + address) =~= a + open + address);
    assert(a + (open + address + middle) =~= a + (open + address) + middle);
    assert(a + (open + address + middle + label) =~= a + (open + address + middle) + label);
    let all = open + address + middle + label;
    assert(a + (all + close) =~= a + all + close);
    assert(a + (all + close + b) =~= a + (all + close) + b);
}

/// A label in brackets with an address in parentheses behind it is a link: the
/// label is shown, and leads to the address.
#[verifier::rlimit(30)]
pub proof fn law_links(a: Seq<char>, label: Seq<char>, address: Seq<char>, b: Seq<char>)
    requires
        all_plain(a),
        all_plain(label),
        all_plain(address),
        all_plain(b),
        !label.contains(']'),
        address.len() > 0,
        forall|k: int|
            0 <= k < address.len() ==> !is_white_space(#[trigger] address[k]) && address[k] != '('
                && address[k] != ')' && address[k] != '"',
    ensures
        inline_html(a + "["@ + label + "]("@ + address + ")"@ + b) == a + "<a href=\""@ + address
            + "\">"@ + label + "</a>"@ + b,
{
    reveal_strlit("[");
    reveal_strlit("](");
    reveal_strlit(")");
    reveal_strlit("<a href=\"");
    reveal_strlit("\">");
    reveal_strlit("</a>");
    let s = a + "["@ + label + "]("@ + address + ")"@ + b;
    let n = a.len() as int;
    let l = n + 1 + label.len();
    let u = l + 2 + address.len();
    assert forall|k: int| 0 <= k < s.len() implies #[trigger] s[k] != '`' && s[k] != '&' && s[k]
        != '<' && s[k] != '>' && s[k] != '*' && (s[k] == '[' ==> k == n) by {
        if k < n {
            assert(is_plain(a[k]));
        } else if n < k < l {
            assert(is_plain(label[k - n - 1]));
        } else if l + 2 <= k < u {
            assert(is_plain(address[k - l - 2]));
        } else if k > u {
            assert(is_plain(b[k - u - 1]));
        }
    }
    lemma_only_styled(s);
    lemma_linked_copies(s, 0, n);
    assert(s.subrange(0, n) =~= a);
    assert forall|k: int| n + 1 <= k < l implies other_than(']')(#[trigger] s[k]) by {
        assert(s[k] == label[k - n - 1]);
        assert(label.contains(label[k - n - 1]));
    }
    lemma_run_end_is(s, n + 1, other_than(']'), l);
    assert(index_from(s, n + 1, ']') == Some(l));
    assert forall|k: int| l + 2 <= k < u implies #[trigger] s[k] != '(' && s[k] != ')' by {
        assert(s[k] == address[k - l - 2]);
    }
    lemma_paren_close(s, l + 2, u);
    assert(s.subrange(l + 2, u) =~= address);
    assert(s.subrange(n + 1, l) =~= label);
    assert(!is_white_space(address[0]) && !is_white_space(address[address.len() - 1]));
    law_trimmed_stays(address);
    assert(is_plain(address[0]));
    assert forall|k: int| 0 <= k < address.len() implies not_white()(#[trigger] address[k]) by {
        assert(!is_white_space(address[k]));
    }
    lemma_run_end_is(address, 0, not_white(), address.len() as int);
    assert(address.take(address.len() as int) =~= address);
    assert(link_address(address) == Some(address));
    assert forall|at: int| !#[trigger] stands_at(address, at, seq!['"']) by {
        if stands_at(address, at, seq!['"']) {
            assert(address.subrange(at, at + 1)[0] == address[at]);
        }
    }
    lemma_nothing_replaced(address, seq!['"'], "&quot;"@);
    let link = LinkView { label, href: address, next: u + 1 };
    assert(link_opening(s, n) == Some(link));
    lemma_linked_copies(s, u + 1, s.len() as int);
    assert(s.subrange(u + 1, s.len() as int) =~= b);
    assert(linked_from(s, s.len() as int) =~= Seq::<char>::empty());
    let out = a + "<a href=\""@ + address + "\">"@ + label + "</a>"@ + b;
    assert(linked_from(s, u + 1) =~= b);
    assert(linked_from(s, n) == link_html(link) + b);
    lemma_flat_link(a, "<a href=\""@, address, "\">"@, label, "</a>"@, b);
    assert(linked_from(s, 0) == out);
    lemma_link_has_no_star(a, address, label, b);
    lemma_no_bold(out);
    lemma_no_italic(out);
}

proof fn lemma_link_has_no_star(
    a: Seq<char>,
    address: Seq<char>,
    label: Seq<char>,
    b: Seq<char>,
)
    requires
        all_plain(a),
        all_plain(label),
        all_plain(address),
        all_plain(b),
    ensures
        ({
            let out = a + "<a href=\""@ + address + "\">"@ + label + "</a>"@ + b;
            forall|k: int| 0 <= k < out.len() ==> #[trigger] out[k] != '*'
        }),
{
    reveal_strlit("<a href=\"");
    reveal_strlit("\">");
    reveal_strlit("</a>");
    let out = a + "<a href=\""@ + address + "\">"@ + label + "</a>"@ + b;
    let p = a.len() as int + 9;
    let q = p + address.len() + 2;
    let r = q + label.len() + 4;
    assert forall|k: int| 0 <= k < out.len() implies #[trigger] out[k] != '*' by {
        if k < a.len() {
            assert(is_plain(a[k]));
        } else if k < p {
            assert(out[k] == "<a href=\""@[k - a.len()]);
        } else if k < p + address.len() {
            assert(is_plain(address[k - p]));
        } else if k < q {
            assert(out[k] == "\">"@[k - p - address.len()]);
        } else if k < q + label.len() {
            assert(is_plain(label[k - q]));
        } else if k < r {
            assert(out[k] == "</a>"@[k - q - label.len()]);
        } else {
            assert(is_plain(b[k - r]));
        }
    }
}

} // verus!
