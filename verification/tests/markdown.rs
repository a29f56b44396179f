use codexclaw::markdown::{
    markdown_to_telegram_html, sanitize_telegram_html, split_telegram_message,
};

#[test]
fn renders_basic_markdown() {
    let rendered = markdown_to_telegram_html("## Title\n\n**bold** and `code`");
    assert!(rendered.contains("<b>Title</b>"));
    assert!(rendered.contains("<b>bold</b>"));
    assert!(rendered.contains("<code>code</code>"));
}

#[test]
fn preserves_markdown_link_literal_inside_code_span() {
    let rendered = markdown_to_telegram_html("`[x](url \"title\")`");
    assert_eq!(rendered, "<code>[x](url \"title\")</code>");
}

#[test]
fn renders_links_with_nested_parentheses_and_brackets_in_target() {
    let rendered = markdown_to_telegram_html(
        "[file](/Users/test/app/[lang]/(app)/(no-header)/component.tsx#L32)",
    );
    assert_eq!(
        rendered,
        "<a href=\"/Users/test/app/[lang]/(app)/(no-header)/component.tsx#L32\">file</a>"
    );
    assert_eq!(rendered.matches("<a ").count(), 1);
}

#[test]
fn strips_optional_markdown_link_title_and_escapes_quotes_in_href() {
    let rendered =
        markdown_to_telegram_html("[title](https://example.com/path?q=\"x\" \"Example title\")");
    assert_eq!(
        rendered,
        "<a href=\"https://example.com/path?q=&quot;x&quot;\">title</a>"
    );
}

#[test]
fn splits_large_messages() {
    let text = format!("{}\n{}", "a".repeat(3000), "b".repeat(3000));
    let chunks = split_telegram_message(&text, 4096);
    assert_eq!(chunks.len(), 2);
}

#[test]
fn splitting_puts_each_line_where_it_fits() {
    let text = format!("{}\n{}", "a".repeat(3000), "b".repeat(3000));
    assert_eq!(
        split_telegram_message(&text, 4096),
        vec!["a".repeat(3000), "b".repeat(3000)]
    );
    assert_eq!(split_telegram_message("one\ntwo\nthree", 8), vec!["one\ntwo", "three"]);
    assert_eq!(split_telegram_message("one\ntwo", 7), vec!["one\ntwo"]);
    assert_eq!(split_telegram_message("", 0), vec![""]);
}

#[test]
fn a_line_over_the_limit_stays_whole() {
    assert_eq!(split_telegram_message("abcdef\nx", 3), vec!["abcdef", "x"]);
}

#[test]
fn blank_rest_is_not_sent() {
    assert_eq!(split_telegram_message("abc\n\n\n\n\n", 4), vec!["abc"]);
    assert_eq!(split_telegram_message("\n\n\n", 2), vec![""]);
}

#[test]
fn splitting_keeps_everything_but_white_space() {
    let text = "alpha beta\r\ngamma\n\n  delta\nepsilon zeta eta\n";
    for limit in 0..40 {
        let chunks = split_telegram_message(text, limit);
        let kept: String = chunks
            .concat()
            .chars()
            .filter(|c| !c.is_whitespace())
            .collect();
        assert_eq!(kept, "alphabetagammadeltaepsilonzetaeta");
        if limit >= 16 {
            assert!(chunks.iter().all(|chunk| chunk.chars().count() <= limit));
        }
    }
}

#[test]
fn sanitizing_escapes_model_tags_only() {
    assert_eq!(
        sanitize_telegram_html("<b>x</b> <name>n</name> <thinking>t</thinking>"),
        "<b>x</b> &lt;name&gt;n&lt;/name&gt; &lt;thinking&gt;t&lt;/thinking&gt;"
    );
    let tricky = sanitize_telegram_html("<na<name>me> <</name>/name> <thin<thinking>king>");
    for tag in ["<name>", "</name>", "<thinking>", "</thinking>"] {
        assert!(!tricky.contains(tag));
    }
}

#[test]
fn plain_text_stays_as_it_is() {
    assert_eq!(markdown_to_telegram_html("plain text, nothing else"), "plain text, nothing else");
}

#[test]
fn code_spans_are_literal() {
    assert_eq!(
        markdown_to_telegram_html("`**a** <b> & [c](d)`"),
        "<code>**a** &lt;b&gt; &amp; [c](d)</code>"
    );
    assert_eq!(markdown_to_telegram_html("a ` b"), "a ` b");
}

#[test]
fn fenced_code_is_escaped_and_not_rendered() {
    assert_eq!(
        markdown_to_telegram_html("```rust\nlet a = b < c;\n**x**\n```\nafter"),
        "<pre><code>let a = b &lt; c;\n**x**</code></pre>\n\nafter"
    );
    assert_eq!(
        markdown_to_telegram_html("~~~\n```\nopen"),
        "<pre><code>```\nopen</code></pre>"
    );
}

#[test]
fn headings_need_a_space_and_at_most_six_signs() {
    assert_eq!(markdown_to_telegram_html("###### six"), "<b>six</b>");
    assert_eq!(markdown_to_telegram_html("####### seven"), "####### seven");
    assert_eq!(markdown_to_telegram_html("#none"), "#none");
}

#[test]
fn quotes_and_lists_are_gathered() {
    assert_eq!(
        markdown_to_telegram_html("> one\n>> two\nthree"),
        "<blockquote>one\ntwo</blockquote>\n\nthree"
    );
    assert_eq!(markdown_to_telegram_html("- a\n* b\n+ *c*"), "• a\n• b\n• <i>c</i>");
    assert_eq!(markdown_to_telegram_html("7. a\n3) b\n12. c"), "1. a\n2. b\n3. c");
}

#[test]
fn paragraphs_keep_their_lines() {
    assert_eq!(
        markdown_to_telegram_html("  one\r\n  two  \r\n\r\nthree\rfour"),
        "one\ntwo\n\nthree\nfour"
    );
}

#[test]
fn emphasis_is_rendered() {
    assert_eq!(markdown_to_telegram_html("**a** b **c**"), "<b>a</b> b <b>c</b>");
    assert_eq!(markdown_to_telegram_html("*a* and *b"), "<i>a</i> and <i>b");
    assert_eq!(markdown_to_telegram_html("a ** b"), "a ** b");
    assert_eq!(markdown_to_telegram_html("a & b < c > d"), "a &amp; b &lt; c &gt; d");
}

#[test]
fn what_is_no_link_stays() {
    assert_eq!(markdown_to_telegram_html("[a]"), "[a]");
    assert_eq!(markdown_to_telegram_html("[a]()"), "[a]()");
    assert_eq!(markdown_to_telegram_html("[a](b"), "[a](b");
}

#[test]
fn every_bracket_opens_a_tag_of_the_renderer() {
    let tags = [
        "<b>", "</b>", "<i>", "</i>", "<code>", "</code>", "<pre>", "</pre>", "<blockquote>",
        "</blockquote>", "<a href=\"", "</a>",
    ];
    let texts = [
        "<script>*x*</script> [a<b](<http://x/>) `<i>`",
        "> <u>quoted</u>\n\n- <b>one</b>\n- **two**\n\n1. <1>\n\n# <h1>",
        "```\n<pre>\n```\n\n@@CODE_SPAN_0@@ `a<b` *open",
        "[x](http://a/**b**?c=\"<d>\") <name>n</name> <thinking>",
    ];
    for text in texts {
        let html = markdown_to_telegram_html(text);
        for (at, _) in html.match_indices('<') {
            assert!(tags.iter().any(|tag| html[at..].starts_with(tag)), "{html}");
        }
        assert_eq!(sanitize_telegram_html(&html), html);
    }
}

#[test]
fn markup_in_the_text_is_shown() {
    assert_eq!(
        markdown_to_telegram_html("<b>no</b> **yes**"),
        "&lt;b&gt;no&lt;/b&gt; <b>yes</b>"
    );
    assert_eq!(markdown_to_telegram_html("<name>"), "&lt;name&gt;");
}

#[test]
fn texts_with_an_empty_line_between_render_apart() {
    let texts = [
        "one",
        "# Head\nwords",
        "- a\n- b\n",
        "> quoted\r\n> more",
        "1. x\n2. y\r",
        "\n\n*open",
        "```\ncode\n```",
    ];
    for first in &texts[..6] {
        for second in texts {
            assert_eq!(
                markdown_to_telegram_html(&format!("{first}\n\n{second}")),
                format!(
                    "{}\n\n{}",
                    markdown_to_telegram_html(first),
                    markdown_to_telegram_html(second)
                )
            );
        }
    }
    assert_eq!(
        markdown_to_telegram_html("- a\n\n- b"),
        "• a\n\n• b"
    );
    assert_eq!(
        markdown_to_telegram_html("```\na\n\nb"),
        "<pre><code>a\n\nb</code></pre>"
    );
}

#[test]
fn every_ampersand_starts_an_entity() {
    let texts = [
        "a & b &lt; `&` **&&** *&*",
        "[x&y](http://a/?b=\"c\"&d=&e 'title') [&](&)",
        "> & quoted\n\n- &\n\n```\n& <\n```\n\n# &",
    ];
    for text in texts {
        let html = markdown_to_telegram_html(text);
        for (at, _) in html.match_indices('&') {
            let entities = ["&amp;", "&lt;", "&gt;", "&quot;"];
            assert!(entities.iter().any(|entity| html[at..].starts_with(entity)), "{html}");
        }
    }
    assert_eq!(markdown_to_telegram_html("&lt;"), "&amp;lt;");
}

#[test]
fn sanitizing_twice_is_sanitizing_once() {
    for text in ["<name>a</name>", "<thi<name>nking>", "<b>plain</b> & text", ""] {
        let once = sanitize_telegram_html(text);
        assert_eq!(sanitize_telegram_html(&once), once);
    }
    assert_eq!(sanitize_telegram_html("<b>plain</b>"), "<b>plain</b>");
}

#[test]
fn line_endings_are_alike() {
    let text = "# Head\nwords\nmore\n\n- a\n- b\n\n```\ncode\n\nmore\n```\n";
    let html = markdown_to_telegram_html(text);
    assert_eq!(markdown_to_telegram_html(&text.replace('\n', "\r\n")), html);
    assert_eq!(markdown_to_telegram_html(&text.replace('\n', "\r")), html);
}
