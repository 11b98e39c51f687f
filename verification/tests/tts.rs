use epub_io::pipeline::tts::{
    clean_decoded_for_tts, clean_for_tts, escape_attr, escape_stray_ampersands, expand_abbreviations, normalize_whitespace,
    remove_bracket_markers, remove_footnote_markers, remove_html_tag_and_content, replace_symbols,
    wrap_xhtml,
};

#[test]
fn expands_eg() {
    let out = clean_for_tts("<p>e.g. cats</p>");
    assert!(out.contains("for example"), "got: {out}");
}

#[test]
fn expands_dr() {
    let out = clean_for_tts("<p>Dr. Smith</p>");
    assert!(out.contains("Doctor Smith"), "got: {out}");
}

#[test]
fn replaces_em_dash() {
    let out = clean_for_tts("<p>one\u{2014}two</p>");
    assert!(out.contains("one, two"), "got: {out}");
}

#[test]
fn removes_sup_footnotes() {
    let out = clean_for_tts("<p>text<sup>1</sup> more</p>");
    assert!(!out.contains("<sup>"), "got: {out}");
}

#[test]
fn removes_bracket_markers() {
    let out = clean_for_tts("<p>hello[1] world[^2]</p>");
    assert!(!out.contains("[1]"), "got: {out}");
    assert!(!out.contains("[^2]"), "got: {out}");
}

#[test]
fn clean_for_tts_full_pipeline() {
    assert_eq!(
        clean_for_tts("<p>Mr.  Smith&amp;co  said\u{2026}[3]<sup>4</sup></p>"),
        "<p>Mister Smith&amp;co said.</p>"
    );
    assert_eq!(clean_decoded_for_tts("<p>a\n\n b</p>"), "<p>a\nb</p>");
}

#[test]
fn symbols_are_spoken() {
    assert_eq!(replace_symbols("1\u{2013}2"), "1 to 2");
    assert_eq!(replace_symbols("\u{201C}hi\u{201D} \u{2018}x\u{2019}"), "\"hi\" 'x'");
    assert_eq!(replace_symbols("a\u{00B7}b\u{2022}c\u{00A0}d"), "a bc d");
}

#[test]
fn abbreviations_expand_in_table_order() {
    assert_eq!(expand_abbreviations("e.g., this"), "for example, this");
    assert_eq!(expand_abbreviations("U.S. vs. U.K."), "United States versus United Kingdom");
    assert_eq!(expand_abbreviations("nothing here"), "nothing here");
}

#[test]
fn sup_elements_are_removed_with_content() {
    assert_eq!(remove_html_tag_and_content("a<sup>1</sup>b<sup x='y'>2</sup>c", "sup"), "abc");
    assert_eq!(remove_html_tag_and_content("plain", "sup"), "plain");
}

#[test]
fn unclosed_sup_is_left_as_it_stands() {
    assert_eq!(remove_html_tag_and_content("ab<sup>x", "sup"), "ab<sup>x");
    assert_eq!(remove_html_tag_and_content("a<sup>1</sup>b<sup>c", "sup"), "ab<sup>c");
}

#[test]
fn bracket_markers_need_digits_and_a_closing_bracket() {
    assert_eq!(remove_bracket_markers("a[12]b[^3]c"), "abc");
    assert_eq!(remove_bracket_markers("[x] [] [^] [1"), "[x] [] [^] [1");
    // Removal is a single left-to-right pass.
    assert_eq!(remove_bracket_markers("[[1]1]"), "[1]");
}

#[test]
fn bracket_markers_keep_non_ascii_text() {
    assert_eq!(remove_bracket_markers("\u{e9}"), "\u{e9}");
    assert_eq!(remove_bracket_markers("na\u{ef}ve[1] caf\u{e9}"), "na\u{ef}ve caf\u{e9}");
}

#[test]
fn footnote_markers_sup_then_brackets() {
    assert_eq!(remove_footnote_markers("x<sup>[1]</sup>[2]y"), "xy");
}

#[test]
fn whitespace_runs_collapse_outside_tags() {
    assert_eq!(normalize_whitespace("a  \t b"), "a b");
    assert_eq!(normalize_whitespace("a\n\n\nb"), "a\nb");
    assert_eq!(normalize_whitespace("a \nb"), "a b");
    assert_eq!(normalize_whitespace("<p  class='x'>  y</p>"), "<p  class='x'> y</p>");
}

#[test]
fn escaped_attributes_hold_no_markup() {
    assert_eq!(escape_attr("a&b\"c<d>e"), "a&amp;b&quot;c&lt;d&gt;e");
    let e = escape_attr("<\">&");
    assert!(!e.contains('<') && !e.contains('>') && !e.contains('"'));
}

#[test]
fn wrap_xhtml_exact_shell() {
    let doc = wrap_xhtml("T<1>", "en", "<p>x</p>");
    let expected = "<?xml version=\"1.0\" encoding=\"UTF-8\"?>\n<!DOCTYPE html>\n<html xmlns=\"http://www.w3.org/1999/xhtml\"\n      xmlns:epub=\"http://www.idpf.org/2007/ops\"\n      xml:lang=\"en\" lang=\"en\">\n<head>\n  <meta charset=\"UTF-8\"/>\n  <title>T&lt;1&gt;</title>\n</head>\n<body epub:type=\"bodymatter chapter\">\n<p>x</p>\n</body>\n</html>";
    assert_eq!(doc, expected);
}

#[test]
fn normalizing_whitespace_twice_changes_nothing() {
    for s in ["a  \t b\n\n\r c", "<p   class='x'>  one \n two</p>", "  lead", "\n\n<br/>\t\t"] {
        let once = normalize_whitespace(s);
        assert_eq!(normalize_whitespace(&once), once);
    }
    assert_eq!(normalize_whitespace("a \n\tb"), "a b");
}

#[test]
fn cleanup_keeps_ampersands_and_brackets_escaped() {
    assert_eq!(clean_for_tts("<p>a &amp; b &lt;c&gt;</p>"), "<p>a &amp; b &lt;c></p>");
    assert_eq!(clean_for_tts("<p title=\"x&amp;y\">one&nbsp;two&mdash;three</p>"), "<p title=\"x&amp;y\">one two, three</p>");
}

#[test]
fn normalizing_whitespace_keeps_every_other_character() {
    let s = "<p  a='1'>x \t y\n\n z</p>";
    let r = normalize_whitespace(s);
    assert!(r.len() <= s.len());
    let keep = |t: &str| t.chars().filter(|c| !matches!(c, ' ' | '\t' | '\n' | '\r')).collect::<String>();
    assert_eq!(keep(&r), keep(s));
}

#[test]
fn stray_ampersands_outside_tags_are_escaped() {
    assert_eq!(escape_stray_ampersands("a & b<x y='&'>&amp;&lt;"), "a &amp; b<x y='&'>&amp;&lt;");
    assert_eq!(clean_for_tts("<p>R&amp;D &unknown; x</p>"), "<p>R&amp;D &amp;unknown; x</p>");
}
