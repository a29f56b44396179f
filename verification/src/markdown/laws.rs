//! What holds of inline rendering as a whole.
use vstd::prelude::*;

use crate::markdown::inline::{
    bolded_from, code_html, escaped, escaped_char, inline_html, italic_upto, linked_from,
    placeholder, protected_from, restored_from, span_close,
};
use crate::numbers::decimal;
use crate::patterns::{find_from, lemma_find_from, replace_all};
use crate::text::{lemma_run_end_is, other_than};

verus! {

/// Characters that mean themselves to the renderer.
pub open spec fn is_plain(c: char) -> bool {
    c != '`' && c != '[' && c != '*' && c != '&' && c != '<' && c != '>'
}

/// Text that holds nothing but plain characters.
pub open spec fn all_plain(s: Seq<char>) -> bool {
    forall|k: int| 0 <= k < s.len() ==> is_plain(#[trigger] s[k])
}

/// Escaped text opens and closes no tag.
pub proof fn law_escaped_holds_no_brackets(s: Seq<char>)
    ensures
        !escaped(s).contains('<'),
        !escaped(s).contains('>'),
    decreases s.len(),
{
    if s.len() > 0 {
        law_escaped_holds_no_brackets(s.drop_last());
        reveal_strlit("&amp;");
        reveal_strlit("&lt;");
        reveal_strlit("&gt;");
        let head = escaped(s.drop_last());
        let last = escaped_char(s.last());
        assert forall|k: int| 0 <= k < escaped(s).len() implies escaped(s)[k] != '<' && escaped(
            s,
        )[k] != '>' by {
            if k < head.len() {
                assert(head.contains(head[k]));
            } else {
                assert(escaped(s)[k] == last[k - head.len()]);
            }
        }
    }
}

proof fn lemma_escaped_plain(s: Seq<char>)
    requires
        all_plain(s),
    ensures
        escaped(s) == s,
    decreases s.len(),
{
    if s.len() > 0 {
        assert(is_plain(s[s.len() - 1]));
        lemma_escaped_plain(s.drop_last());
        assert(s.drop_last() + seq![s.last()] =~= s);
    }
}

proof fn lemma_linked_plain(s: Seq<char>, i: int)
    requires
        all_plain(s),
        0 <= i <= s.len(),
    ensures
        linked_from(s, i) == s.skip(i),
    decreases s.len() - i,
{
    if i < s.len() {
        assert(is_plain(s[i]));
        lemma_linked_plain(s, i + 1);
        assert(seq![s[i]] + s.skip(i + 1) =~= s.skip(i));
    }
}

proof fn lemma_bold_plain(s: Seq<char>)
    requires
        all_plain(s),
    ensures
        bolded_from(s, 0) == s,
{
    reveal_strlit("**");
    lemma_find_from(s, 0, "**"@);
    if let Some(at) = find_from(s, 0, "**"@) {
        assert(s.subrange(at, at + 2)[0] == '*');
        assert(is_plain(s[at]));
    }
    assert(s.skip(0) =~= s);
}

proof fn lemma_italic_plain(s: Seq<char>, n: int)
    requires
        all_plain(s),
        0 <= n <= s.len(),
    ensures
        italic_upto(s, n).0 == s.take(n),
    decreases n,
{
    if n > 0 {
        assert(is_plain(s[n - 1]));
        lemma_italic_plain(s, n - 1);
        assert(s.take(n - 1).push(s[n - 1]) =~= s.take(n));
    }
}

proof fn lemma_protected_plain(s: Seq<char>, i: int, n: nat)
    requires
        all_plain(s),
        0 <= i <= s.len(),
    ensures
        protected_from(s, i, n).0 == s.skip(i),
        protected_from(s, i, n).1 == Seq::<Seq<char>>::empty(),
    decreases s.len() - i,
{
    if i < s.len() {
        assert(is_plain(s[i]));
        lemma_protected_plain(s, i + 1, n);
        assert(seq![s[i]] + s.skip(i + 1) =~= s.skip(i));
    }
}

/// Links, bold and italic leave plain text alone.
pub proof fn lemma_styles_plain(s: Seq<char>)
    requires
        all_plain(s),
    ensures
        ({
            let bold = bolded_from(linked_from(escaped(s), 0), 0);
            italic_upto(bold, bold.len() as int).0 == s
        }),
{
    lemma_escaped_plain(s);
    lemma_linked_plain(s, 0);
    assert(s.skip(0) =~= s);
    lemma_bold_plain(s);
    lemma_italic_plain(s, s.len() as int);
    assert(s.take(s.len() as int) =~= s);
}

/// Plain text renders to itself.
pub proof fn law_plain_text_stays(s: Seq<char>)
    requires
        all_plain(s),
    ensures
        inline_html(s) == s,
{
    lemma_protected_plain(s, 0, 0);
    assert(s.skip(0) =~= s);
    lemma_styles_plain(s);
}

/// What stands between back quotes is shown literally: whatever it holds, it
/// is escaped and nothing in it is rendered.
pub proof fn law_code_span_is_literal(code: Seq<char>)
    requires
        !code.contains('`'),
    ensures
        inline_html(seq!['`'] + code + seq!['`']) == code_html(code),
{
    let s = seq!['`'] + code + seq!['`'];
    let end = code.len() as int + 1;
    assert forall|k: int| 1 <= k < end implies other_than('`')(#[trigger] s[k]) by {
        assert(s[k] == code[k - 1]);
        assert(code.contains(code[k - 1]));
    }
    lemma_run_end_is(s, 1, other_than('`'), end);
    assert(span_close(s, 0) == Some(end));
    assert(s.subrange(1, end) =~= code);
    let p = placeholder(0);
    let html = code_html(code);
    assert(protected_from(s, end + 1, 1) == (Seq::<char>::empty(), Seq::<Seq<char>>::empty()));
    assert(protected_from(s, 0, 0).0 =~= p);
    assert(protected_from(s, 0, 0).1 =~= seq![html]);
    assert(all_plain(p)) by {
        reveal_strlit("@@CODE_SPAN_");
        reveal_strlit("@@");
        assert(decimal(0) =~= seq!['0']);
    }
    lemma_styles_plain(p);
    assert(p.len() > 0) by {
        reveal_strlit("@@");
    }
    assert(p.is_prefix_of(p));
    assert(p.skip(p.len() as int) =~= Seq::<char>::empty());
    assert(html + replace_all(Seq::<char>::empty(), p, html) =~= html);
    assert(replace_all(p, p, html) == html);
    assert(restored_from(html, seq![html], 1) == html);
}

} // verus!
