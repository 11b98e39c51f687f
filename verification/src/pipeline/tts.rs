//! Narration cleanup of chapter markup and the XHTML shell for EPUB chapters.

use vstd::prelude::*;

use crate::text::{
    matches_at,
    chars_of, find_chars, find_from, lemma_find_from_skip, push_range, replace_all, replace_chars,
    replace_str, string_of,
};

verus! {

// ---------------------------------------------------------------------------
// Typographic symbols
// ---------------------------------------------------------------------------

/// The typographic symbols that narration replaces, each with its spoken form,
/// in the order they are applied.
pub open spec fn symbol_table() -> Seq<(Seq<char>, Seq<char>)> {
    seq![
        ("\u{2014}"@, ", "@),
        ("\u{2013}"@, " to "@),
        ("\u{2026}"@, "."@),
        ("\u{201C}"@, "\""@),
        ("\u{201D}"@, "\""@),
        ("\u{2018}"@, "'"@),
        ("\u{2019}"@, "'"@),
        ("\u{00B7}"@, " "@),
        ("\u{2022}"@, ""@),
        ("\u{00A0}"@, " "@),
    ]
}

/// Every pair of `table` applied in order, each one replacing all occurrences.
pub open spec fn replace_each(s: Seq<char>, table: Seq<(Seq<char>, Seq<char>)>) -> Seq<char>
    decreases table.len(),
{
    if table.len() == 0 {
        s
    } else {
        replace_each(replace_all(s, table[0].0, table[0].1), table.drop_first())
    }
}

/// Views of a table of string pairs.
pub open spec fn pair_views(t: Seq<(&str, &str)>) -> Seq<(Seq<char>, Seq<char>)> {
    t.map_values(|p: (&str, &str)| (p.0@, p.1@))
}

fn symbol_pairs() -> (t: Vec<(&'static str, &'static str)>)
    ensures
        pair_views(t@) == symbol_table(),
{
    let t = vec![
        ("\u{2014}", ", "),
        ("\u{2013}", " to "),
        ("\u{2026}", "."),
        ("\u{201C}", "\""),
        ("\u{201D}", "\""),
        ("\u{2018}", "'"),
        ("\u{2019}", "'"),
        ("\u{00B7}", " "),
        ("\u{2022}", ""),
        ("\u{00A0}", " "),
    ];
    assert(pair_views(t@) =~= symbol_table());
    t
}

/// Applies every pair of `table` in order to `s`.
fn apply_pairs(s: &str, table: &Vec<(&'static str, &'static str)>) -> (r: String)
    ensures
        r@ == replace_each(s@, pair_views(table@)),
{
    let mut cur = string_of(chars_of(s).as_slice());
    let mut k: usize = 0;
    assert(pair_views(table@).skip(0) =~= pair_views(table@));
    while k < table.len()
        invariant
            k <= table.len(),
            replace_each(cur@, pair_views(table@).skip(k as int)) == replace_each(
                s@,
                pair_views(table@),
            ),
        decreases table.len() - k,
    {
        let ghost rest = pair_views(table@).skip(k as int);
        let (pat, with) = table[k];
        cur = replace_str(cur.as_str(), pat, with);
        assert(rest.drop_first() =~= pair_views(table@).skip(k + 1));
        k = k + 1;
    }
    assert(pair_views(table@).skip(table.len() as int) =~= Seq::<(Seq<char>, Seq<char>)>::empty());
    cur
}

/// Typographic symbols replaced by their spoken forms.
pub open spec fn symbols_replaced(s: Seq<char>) -> Seq<char> {
    replace_each(s, symbol_table())
}

/// Replaces dashes, ellipses, curly quotes, middle dots, bullets and
/// non-breaking spaces with plain spoken equivalents.
pub fn replace_symbols(s: &str) -> (r: String)
    ensures
        r@ == symbols_replaced(s@),
{
    let table = symbol_pairs();
    apply_pairs(s, &table)
}

// ---------------------------------------------------------------------------
// Attribute escaping and the XHTML shell
// ---------------------------------------------------------------------------

/// The markup-significant characters of an attribute value, escaped.
pub open spec fn attr_escaped(s: Seq<char>) -> Seq<char> {
    replace_all(
        replace_all(replace_all(replace_all(s, "&"@, "&amp;"@), "\""@, "&quot;"@), "<"@, "&lt;"@),
        ">"@,
        "&gt;"@,
    )
}

/// Escapes `&`, `"`, `<` and `>` (in that order) so `s` can stand inside a
/// quoted attribute or as element text.
pub fn escape_attr(s: &str) -> (r: String)
    ensures
        r@ == attr_escaped(s@),
{
    let a = replace_str(s, "&", "&amp;");
    let b = replace_str(a.as_str(), "\"", "&quot;");
    let c = replace_str(b.as_str(), "<", "&lt;");
    replace_str(c.as_str(), ">", "&gt;")
}

pub open spec fn xhtml_part1() -> Seq<char> {
    "<?xml version=\"1.0\" encoding=\"UTF-8\"?>\n<!DOCTYPE html>\n<html xmlns=\"http://www.w3.org/1999/xhtml\"\n      xmlns:epub=\"http://www.idpf.org/2007/ops\"\n      xml:lang=\""@
}

pub open spec fn xhtml_part2() -> Seq<char> {
    "\" lang=\""@
}

pub open spec fn xhtml_part3() -> Seq<char> {
    "\">\n<head>\n  <meta charset=\"UTF-8\"/>\n  <title>"@
}

pub open spec fn xhtml_part4() -> Seq<char> {
    "</title>\n</head>\n<body epub:type=\"bodymatter chapter\">\n"@
}

pub open spec fn xhtml_part5() -> Seq<char> {
    "\n</body>\n</html>"@
}

/// The complete XHTML document for one chapter.
pub open spec fn xhtml_document(title: Seq<char>, lang: Seq<char>, body: Seq<char>) -> Seq<char> {
    xhtml_part1() + attr_escaped(lang) + xhtml_part2() + attr_escaped(lang) + xhtml_part3()
        + attr_escaped(title) + xhtml_part4() + body + xhtml_part5()
}

/// Wraps cleaned chapter content in a full EPUB-compatible XHTML shell; the
/// title and language are escaped, the body is inserted as it is.
pub fn wrap_xhtml(title: &str, lang: &str, body_content: &str) -> (r: String)
    ensures
        r@ == xhtml_document(title@, lang@, body_content@),
{
    let lang_e = escape_attr(lang);
    let title_e = escape_attr(title);
    let mut out = String::from_str(
        "<?xml version=\"1.0\" encoding=\"UTF-8\"?>\n<!DOCTYPE html>\n<html xmlns=\"http://www.w3.org/1999/xhtml\"\n      xmlns:epub=\"http://www.idpf.org/2007/ops\"\n      xml:lang=\"",
    );
    out.append(lang_e.as_str());
    out.append("\" lang=\"");
    out.append(lang_e.as_str());
    out.append("\">\n<head>\n  <meta charset=\"UTF-8\"/>\n  <title>");
    out.append(title_e.as_str());
    out.append("</title>\n</head>\n<body epub:type=\"bodymatter chapter\">\n");
    out.append(body_content);
    out.append("\n</body>\n</html>");
    out
}

// ---------------------------------------------------------------------------
// Whitespace
// ---------------------------------------------------------------------------

/// Whitespace outside tags collapsed: a run of spaces and tabs becomes one
/// space, a run starting with a line break becomes one line break; a run is
/// broken by any other character, and `<`/`>` toggle being inside a tag.
pub open spec fn ws_normalized(s: Seq<char>, prev_space: bool, in_tag: bool) -> Seq<char>
    decreases s.len(),
{
    if s.len() == 0 {
        seq![]
    } else {
        let c = s[0];
        let rest = s.drop_first();
        if c == '<' {
            seq![c] + ws_normalized(rest, false, true)
        } else if c == '>' {
            seq![c] + ws_normalized(rest, false, false)
        } else if (c == ' ' || c == '\t') && !in_tag {
            (if prev_space {
                seq![]
            } else {
                seq![' ']
            }) + ws_normalized(rest, true, in_tag)
        } else if (c == '\n' || c == '\r') && !in_tag {
            (if prev_space {
                seq![]
            } else {
                seq!['\n']
            }) + ws_normalized(rest, true, in_tag)
        } else {
            seq![c] + ws_normalized(rest, false, in_tag)
        }
    }
}

proof fn lemma_ws_normalized_idempotent(s: Seq<char>, prev_space: bool, in_tag: bool)
    ensures
        ws_normalized(ws_normalized(s, prev_space, in_tag), prev_space, in_tag) == ws_normalized(
            s,
            prev_space,
            in_tag,
        ),
    decreases s.len(),
{
    if s.len() > 0 {
        let c = s[0];
        let rest = s.drop_first();
        let out = ws_normalized(s, prev_space, in_tag);
        if c == '<' {
            lemma_ws_normalized_idempotent(rest, false, true);
            let x = ws_normalized(rest, false, true);
            assert((seq![c] + x).drop_first() =~= x);
        } else if c == '>' {
            lemma_ws_normalized_idempotent(rest, false, false);
            let x = ws_normalized(rest, false, false);
            assert((seq![c] + x).drop_first() =~= x);
        } else if (c == ' ' || c == '\t') && !in_tag {
            lemma_ws_normalized_idempotent(rest, true, in_tag);
            let x = ws_normalized(rest, true, in_tag);
            if prev_space {
                assert(seq![] + x =~= x);
            } else {
                assert((seq![' '] + x).drop_first() =~= x);
            }
        } else if (c == '\n' || c == '\r') && !in_tag {
            lemma_ws_normalized_idempotent(rest, true, in_tag);
            let x = ws_normalized(rest, true, in_tag);
            if prev_space {
                assert(seq![] + x =~= x);
            } else {
                assert((seq!['\n'] + x).drop_first() =~= x);
            }
        } else {
            lemma_ws_normalized_idempotent(rest, false, in_tag);
            let x = ws_normalized(rest, false, in_tag);
            assert((seq![c] + x).drop_first() =~= x);
        }
    }
}

/// A space, tab, line feed or carriage return.
pub open spec fn is_ws_char(c: char) -> bool {
    c == ' ' || c == '\t' || c == '\n' || c == '\r'
}

pub open spec fn keeps_non_ws() -> spec_fn(char) -> bool {
    |c: char| !is_ws_char(c)
}

/// The characters of `s` that are not white space, in order.
pub open spec fn non_ws(s: Seq<char>) -> Seq<char> {
    s.filter(keeps_non_ws())
}

proof fn lemma_non_ws_single(c: char)
    ensures
        non_ws(seq![c]) == (if is_ws_char(c) {
            Seq::<char>::empty()
        } else {
            seq![c]
        }),
{
    reveal(Seq::filter);
    let p = keeps_non_ws();
    assert(seq![c].drop_last() =~= Seq::<char>::empty());
    assert(Seq::<char>::empty().filter(p) == Seq::<char>::empty());
    assert(seq![c].last() == c);
    assert(p(c) == !is_ws_char(c));
    assert(Seq::<char>::empty().push(c) =~= seq![c]);
    assert(seq![c].filter(p) == (if p(c) {
        Seq::<char>::empty().filter(p).push(c)
    } else {
        Seq::<char>::empty().filter(p)
    }));
}

proof fn lemma_ws_normalized_keeps_text(s: Seq<char>, prev_space: bool, in_tag: bool)
    ensures
        non_ws(ws_normalized(s, prev_space, in_tag)) == non_ws(s),
        ws_normalized(s, prev_space, in_tag).len() <= s.len(),
    decreases s.len(),
{
    broadcast use Seq::filter_distributes_over_add;

    if s.len() == 0 {
        reveal(Seq::filter);
    } else {
        let c = s[0];
        let rest = s.drop_first();
        assert(s =~= seq![c] + rest);
        lemma_non_ws_single(c);
        lemma_non_ws_single(' ');
        lemma_non_ws_single('\n');
        reveal(Seq::filter);
        assert(non_ws(Seq::<char>::empty()) =~= Seq::<char>::empty());
        if c == '<' {
            lemma_ws_normalized_keeps_text(rest, false, true);
        } else if c == '>' {
            lemma_ws_normalized_keeps_text(rest, false, false);
        } else if (c == ' ' || c == '\t') && !in_tag {
            lemma_ws_normalized_keeps_text(rest, true, in_tag);
            assert(Seq::<char>::empty() + ws_normalized(rest, true, in_tag) =~= ws_normalized(rest, true, in_tag));
        } else if (c == '\n' || c == '\r') && !in_tag {
            lemma_ws_normalized_keeps_text(rest, true, in_tag);
            assert(Seq::<char>::empty() + ws_normalized(rest, true, in_tag) =~= ws_normalized(rest, true, in_tag));
        } else {
            lemma_ws_normalized_keeps_text(rest, false, in_tag);
        }
    }
}

/// Normalizing white space never lengthens the text and keeps every
/// character that is not white space, in order.
pub proof fn law_normalize_whitespace_keeps_text(s: Seq<char>)
    ensures
        ws_normalized(s, false, false).len() <= s.len(),
        non_ws(ws_normalized(s, false, false)) == non_ws(s),
{
    lemma_ws_normalized_keeps_text(s, false, false);
}

/// Normalizing white space a second time changes nothing: what one call
/// gives, the next call keeps.
pub proof fn law_normalize_whitespace_idempotent(s: Seq<char>)
    ensures
        ws_normalized(ws_normalized(s, false, false), false, false) == ws_normalized(s, false, false),
{
    lemma_ws_normalized_idempotent(s, false, false);
}

/// Collapses runs of whitespace outside tags.
pub fn normalize_whitespace(s: &str) -> (r: String)
    ensures
        r@ == ws_normalized(s@, false, false),
{
    let v = chars_of(s);
    let mut out: Vec<char> = Vec::new();
    let mut prev_space = false;
    let mut in_tag = false;
    let mut i: usize = 0;
    assert(v@.skip(0) =~= v@);
    while i < v.len()
        invariant
            i <= v.len(),
            out@ + ws_normalized(v@.skip(i as int), prev_space, in_tag) == ws_normalized(
                v@,
                false,
                false,
            ),
        decreases v.len() - i,
    {
        let ghost out0 = out@;
        let ghost rest = v@.skip(i as int);
        let ghost p0 = prev_space;
        let ghost t0 = in_tag;
        let ch = v[i];
        assert(rest[0] == ch);
        assert(rest.drop_first() =~= v@.skip(i + 1));
        if ch == '<' {
            in_tag = true;
            prev_space = false;
            out.push(ch);
        } else if ch == '>' {
            in_tag = false;
            prev_space = false;
            out.push(ch);
        } else if (ch == ' ' || ch == '\t') && !in_tag {
            if !prev_space {
                out.push(' ');
            }
            prev_space = true;
        } else if (ch == '\n' || ch == '\r') && !in_tag {
            if !prev_space {
                out.push('\n');
            }
            prev_space = true;
        } else {
            prev_space = false;
            out.push(ch);
        }
        assert(out0 + ws_normalized(rest, p0, t0) =~= out@ + ws_normalized(
            v@.skip(i + 1),
            prev_space,
            in_tag,
        ));
        i = i + 1;
    }
    assert(v@.skip(i as int) =~= Seq::<char>::empty());
    assert(out@ + Seq::<char>::empty() =~= out@);
    string_of(out.as_slice())
}

} // verus!

verus! {

// ---------------------------------------------------------------------------
// Abbreviations
// ---------------------------------------------------------------------------

/// Abbreviations and their spoken expansions, applied in this order (so that
/// "e.g.," is expanded before "e.g.").
pub open spec fn abbreviation_table() -> Seq<(Seq<char>, Seq<char>)> {
    seq![
        ("e.g.,"@, "for example,"@),
        ("e.g."@, "for example"@),
        ("i.e.,"@, "that is,"@),
        ("i.e."@, "that is"@),
        ("etc."@, "and so on"@),
        ("vs."@, "versus"@),
        ("approx."@, "approximately"@),
        ("dept."@, "department"@),
        ("est."@, "established"@),
        ("fig."@, "figure"@),
        ("govt."@, "government"@),
        ("incl."@, "including"@),
        ("min."@, "minutes"@),
        ("misc."@, "miscellaneous"@),
        ("no."@, "number"@),
        ("ref."@, "reference"@),
        ("vol."@, "volume"@),
        ("Mr."@, "Mister"@),
        ("Mrs."@, "Missus"@),
        ("Ms."@, "Miss"@),
        ("Dr."@, "Doctor"@),
        ("Prof."@, "Professor"@),
        ("Sr."@, "Senior"@),
        ("Jr."@, "Junior"@),
        ("St."@, "Saint"@),
        ("Sgt."@, "Sergeant"@),
        ("Lt."@, "Lieutenant"@),
        ("Cpl."@, "Corporal"@),
        ("Pvt."@, "Private"@),
        ("Gen."@, "General"@),
        ("Capt."@, "Captain"@),
        ("Cmdr."@, "Commander"@),
        ("Col."@, "Colonel"@),
        ("Maj."@, "Major"@),
        ("Gov."@, "Governor"@),
        ("Sen."@, "Senator"@),
        ("Rep."@, "Representative"@),
        ("Pres."@, "President"@),
        ("Sec."@, "Secretary"@),
        ("Hon."@, "Honorable"@),
        ("Rev."@, "Reverend"@),
        ("B.C."@, "Before Christ"@),
        ("A.D."@, "Anno Domini"@),
        ("a.m."@, "in the morning"@),
        ("p.m."@, "in the afternoon"@),
        ("U.S."@, "United States"@),
        ("U.K."@, "United Kingdom"@),
        ("U.N."@, "United Nations"@),
        ("D.C."@, "District of Columbia"@),
    ]
}

fn abbreviation_pairs() -> (t: Vec<(&'static str, &'static str)>)
    ensures
        pair_views(t@) == abbreviation_table(),
{
    let t = vec![
        ("e.g.,", "for example,"),
        ("e.g.", "for example"),
        ("i.e.,", "that is,"),
        ("i.e.", "that is"),
        ("etc.", "and so on"),
        ("vs.", "versus"),
        ("approx.", "approximately"),
        ("dept.", "department"),
        ("est.", "established"),
        ("fig.", "figure"),
        ("govt.", "government"),
        ("incl.", "including"),
        ("min.", "minutes"),
        ("misc.", "miscellaneous"),
        ("no.", "number"),
        ("ref.", "reference"),
        ("vol.", "volume"),
        ("Mr.", "Mister"),
        ("Mrs.", "Missus"),
        ("Ms.", "Miss"),
        ("Dr.", "Doctor"),
        ("Prof.", "Professor"),
        ("Sr.", "Senior"),
        ("Jr.", "Junior"),
        ("St.", "Saint"),
        ("Sgt.", "Sergeant"),
        ("Lt.", "Lieutenant"),
        ("Cpl.", "Corporal"),
        ("Pvt.", "Private"),
        ("Gen.", "General"),
        ("Capt.", "Captain"),
        ("Cmdr.", "Commander"),
        ("Col.", "Colonel"),
        ("Maj.", "Major"),
        ("Gov.", "Governor"),
        ("Sen.", "Senator"),
        ("Rep.", "Representative"),
        ("Pres.", "President"),
        ("Sec.", "Secretary"),
        ("Hon.", "Honorable"),
        ("Rev.", "Reverend"),
        ("B.C.", "Before Christ"),
        ("A.D.", "Anno Domini"),
        ("a.m.", "in the morning"),
        ("p.m.", "in the afternoon"),
        ("U.S.", "United States"),
        ("U.K.", "United Kingdom"),
        ("U.N.", "United Nations"),
        ("D.C.", "District of Columbia"),
    ];
    assert(pair_views(t@) =~= abbreviation_table());
    t
}

/// Common abbreviations expanded to their spoken forms.
pub open spec fn abbreviations_expanded(s: Seq<char>) -> Seq<char> {
    replace_each(s, abbreviation_table())
}

/// Expands common abbreviations ("e.g.", "Dr.", "U.S.", ...) everywhere in `s`.
pub fn expand_abbreviations(s: &str) -> (r: String)
    ensures
        r@ == abbreviations_expanded(s@),
{
    let table = abbreviation_pairs();
    apply_pairs(s, &table)
}

// ---------------------------------------------------------------------------
// Footnote markers
// ---------------------------------------------------------------------------

/// The opening text of an element named `tag`: `<tag`.
pub open spec fn open_tag(tag: Seq<char>) -> Seq<char> {
    seq!['<'] + tag
}

/// The closing text of an element named `tag`: `</tag>`.
pub open spec fn close_tag(tag: Seq<char>) -> Seq<char> {
    seq!['<', '/'] + tag + seq!['>']
}

/// Every `open ... close` span removed, scanning left to right. An `open`
/// with no `close` after it is left as it stands, with the rest of the text.
pub open spec fn spans_removed(s: Seq<char>, open: Seq<char>, close: Seq<char>) -> Seq<char>
    decreases s.len(),
{
    if close.len() == 0 {
        s
    } else {
        match find_from(s, open, 0) {
            None => s,
            Some(st) => match find_from(s, close, st) {
                None => s,
                Some(e) => if 0 <= st <= e && e + close.len() <= s.len() {
                    s.take(st) + spans_removed(s.skip(e + close.len()), open, close)
                } else {
                    s
                },
            },
        }
    }
}

/// Every `<tag ...>...</tag>` element removed from `s`, content included.
pub open spec fn element_removed(s: Seq<char>, tag: Seq<char>) -> Seq<char> {
    spans_removed(s, open_tag(tag), close_tag(tag))
}

/// Removes each `<tag...` up to and including the next `</tag>`.
pub fn remove_html_tag_and_content(s: &str, tag: &str) -> (r: String)
    ensures
        r@ == element_removed(s@, tag@),
{
    let v = chars_of(s);
    let t = chars_of(tag);
    let mut open: Vec<char> = Vec::new();
    open.push('<');
    push_range(&mut open, t.as_slice(), 0, t.len());
    let mut close: Vec<char> = Vec::new();
    close.push('<');
    close.push('/');
    push_range(&mut close, t.as_slice(), 0, t.len());
    close.push('>');
    assert(open@ =~= open_tag(tag@));
    assert(close@ =~= close_tag(tag@));
    let ghost goal = element_removed(s@, tag@);
    let mut out: Vec<char> = Vec::new();
    let mut pos: usize = 0;
    assert(v@.skip(0) =~= v@);
    loop
        invariant_except_break
            out@ + spans_removed(v@.skip(pos as int), open@, close@) == goal,
        invariant
            pos <= v.len(),
            close@.len() > 0,
            open@ == open_tag(tag@),
            close@ == close_tag(tag@),
            goal == element_removed(s@, tag@),
            v@ == s@,
        ensures
            pos <= v.len(),
            out@ + v@.skip(pos as int) == goal,
        decreases v.len() + 1 - pos,
    {
        let ghost rest = v@.skip(pos as int);
        proof {
            lemma_find_from_skip(v@, open@, pos as int, 0);
        }
        match find_chars(v.as_slice(), pos, open.as_slice()) {
            None => {
                break;
            },
            Some(start) => {
                proof {
                    crate::text::lemma_find_from(v@, open@, pos as int);
                    lemma_find_from_skip(v@, close@, pos as int, start - pos);
                }
                let ghost st = start - pos;
                match find_chars(v.as_slice(), start, close.as_slice()) {
                    None => {
                        break;
                    },
                    Some(end) => {
                        proof {
                            crate::text::lemma_find_from(v@, close@, start as int);
                        }
                        push_range(&mut out, v.as_slice(), pos, start);
                        assert(v@.subrange(pos as int, start as int) =~= rest.take(st));
                        assert(rest.skip((end - pos) + close.len()) =~= v@.skip(
                            end + close.len(),
                        ));
                        pos = end + close.len();
                    },
                }
            },
        }
    }
    push_range(&mut out, v.as_slice(), pos, v.len());
    assert(v@.subrange(pos as int, v.len() as int) =~= v@.skip(pos as int));
    string_of(out.as_slice())
}

} // verus!

verus! {

pub open spec fn is_ascii_digit(c: char) -> bool {
    '0' <= c <= '9'
}

/// The number of consecutive ASCII digits in `s` starting at index `j`.
pub open spec fn digit_run(s: Seq<char>, j: int) -> int
    decreases s.len() - j,
{
    if j < 0 || j >= s.len() || !is_ascii_digit(s[j]) {
        0
    } else {
        1 + digit_run(s, j + 1)
    }
}

/// The length of the footnote marker `[digits]` or `[^digits]` that starts
/// `s` (whose first character is `[`), or 0 when `s` does not start with one.
pub open spec fn marker_len(s: Seq<char>) -> int {
    let j: int = if 1 < s.len() && s[1] == '^' {
        2
    } else {
        1
    };
    let k = j + digit_run(s, j);
    if k > j && k < s.len() && s[k] == ']' {
        k + 1
    } else {
        0
    }
}

/// `s` with every footnote marker removed, scanning left to right; every
/// other character is kept.
pub open spec fn markers_removed(s: Seq<char>) -> Seq<char>
    decreases s.len(),
{
    if s.len() == 0 {
        seq![]
    } else if s[0] == '[' && marker_len(s) > 0 {
        if marker_len(s) <= s.len() {
            markers_removed(s.skip(marker_len(s)))
        } else {
            seq![]
        }
    } else {
        seq![s[0]] + markers_removed(s.drop_first())
    }
}

/// Removes `[n]` and `[^n]` footnote markers, keeping every other character.
pub fn remove_bracket_markers(s: &str) -> (r: String)
    ensures
        r@ == markers_removed(s@),
{
    let v = chars_of(s);
    let ghost b = v@;
    let mut out: Vec<char> = Vec::new();
    let mut i: usize = 0;
    assert(b.skip(0) =~= b);
    while i < v.len()
        invariant
            i <= v.len(),
            b == v@,
            b == s@,
            out@ + markers_removed(b.skip(i as int)) == markers_removed(b),
        decreases v.len() - i,
    {
        let ghost rest = b.skip(i as int);
        if v[i] == '[' {
            let mut j: usize = 1;
            if j < v.len() - i && v[i + j] == '^' {
                j = j + 1;
            }
            let digit_start = j;
            assert(digit_start as int == (if 1 < rest.len() && rest[1] == '^' {
                2int
            } else {
                1int
            }));
            while j < v.len() - i && '0' <= v[i + j] && v[i + j] <= '9'
                invariant
                    digit_start <= j <= v.len() - i,
                    i < v.len(),
                    b == v@,
                    rest == b.skip(i as int),
                    digit_run(rest, digit_start as int) == (j - digit_start) + digit_run(
                        rest,
                        j as int,
                    ),
                decreases v.len() - i - j,
            {
                j = j + 1;
            }
            assert(digit_run(rest, j as int) == 0);
            if j > digit_start && j < v.len() - i && v[i + j] == ']' {
                assert(marker_len(rest) == j + 1);
                assert(rest.skip(j + 1) =~= b.skip(i + j + 1));
                i = i + j + 1;
                continue;
            }
            assert(marker_len(rest) == 0);
        }
        let ghost out0 = out@;
        out.push(v[i]);
        assert(rest.drop_first() =~= b.skip(i + 1));
        assert(out@ + markers_removed(b.skip(i + 1)) =~= out0 + markers_removed(rest));
        i = i + 1;
    }
    assert(b.skip(i as int) =~= Seq::<char>::empty());
    assert(out@ + Seq::<char>::empty() =~= out@);
    string_of(out.as_slice())
}

} // verus!

verus! {

/// Footnote markers removed: `<sup>` elements first, then `[n]`/`[^n]`.
pub open spec fn footnotes_removed(s: Seq<char>) -> Seq<char> {
    markers_removed(element_removed(s, "sup"@))
}

/// Removes `<sup>...</sup>` elements and `[n]`/`[^n]` markers.
pub fn remove_footnote_markers(s: &str) -> (r: String)
    ensures
        r@ == footnotes_removed(s@),
{
    let without_sup = remove_html_tag_and_content(s, "sup");
    remove_bracket_markers(without_sup.as_str())
}

/// The narration cleanup applied after HTML entities are decoded: symbols
/// replaced, footnote markers removed, abbreviations expanded, whitespace
/// collapsed.
pub open spec fn tts_cleaned(decoded: Seq<char>) -> Seq<char> {
    ws_normalized(
        abbreviations_expanded(footnotes_removed(symbols_replaced(decoded))),
        false,
        false,
    )
}

/// The text `html_escape::decode_html_entities` produces for `s`.
pub uninterp spec fn html_entities_decoded(s: Seq<char>) -> Seq<char>;

/// Calls `html_escape::decode_html_entities`, which decodes named and
/// numeric character references that end in `;`. Its output is named, not
/// stated, but for one plain fact: a text without `&` has no reference to
/// decode and comes back unchanged.
#[verifier::external_body]
fn decode_html_entities(html: &str) -> (r: String)
    ensures
        r@ == html_entities_decoded(html@),
        !html@.contains('&') ==> r@ == html@,
{
    html_escape::decode_html_entities(html).into_owned()
}

/// How one character of text is written in markup: `&` as `&amp;`, `<` as
/// `&lt;`, any other character as itself.
pub open spec fn char_escaped(c: char) -> Seq<char> {
    if c == '&' {
        seq!['&', 'a', 'm', 'p', ';']
    } else if c == '<' {
        seq!['&', 'l', 't', ';']
    } else {
        seq![c]
    }
}

/// Text with `&` and `<` written as the references `&amp;` and `&lt;`, so
/// that it can stand in markup.
pub open spec fn text_escaped(t: Seq<char>) -> Seq<char>
    decreases t.len(),
{
    if t.len() == 0 {
        seq![]
    } else {
        char_escaped(t[0]) + text_escaped(t.drop_first())
    }
}

/// Every `&` in `s` begins `&amp;` or `&lt;`, and `s` has no `<`.
pub open spec fn references_well_formed(s: Seq<char>) -> bool
    decreases s.len(),
{
    if s.len() == 0 {
        true
    } else if s[0] == '<' {
        false
    } else if s[0] == '&' {
        (s.len() >= 5 && s.take(5) == seq!['&', 'a', 'm', 'p', ';'] && references_well_formed(s.skip(5)))
            || (s.len() >= 4 && s.take(4) == seq!['&', 'l', 't', ';'] && references_well_formed(s.skip(4)))
    } else {
        references_well_formed(s.drop_first())
    }
}

/// Escaped text has no `<`, and each of its `&` begins the reference
/// `&amp;` or `&lt;`: it can stand as the text of well-formed markup.
pub proof fn law_escaped_text_is_well_formed(t: Seq<char>)
    ensures
        references_well_formed(text_escaped(t)),
    decreases t.len(),
{
    if t.len() > 0 {
        law_escaped_text_is_well_formed(t.drop_first());
        let rest = text_escaped(t.drop_first());
        let e = char_escaped(t[0]);
        let s = e + rest;
        if t[0] == '&' {
            assert(s.take(5) =~= e);
            assert(s.skip(5) =~= rest);
        } else if t[0] == '<' {
            assert(s.take(4) =~= e);
            assert(s.skip(4) =~= rest);
        } else {
            assert(s[0] == t[0]);
            assert(s.drop_first() =~= rest);
        }
    }
}

/// Escapes `&` and `<` in text.
pub fn escape_text(t: &str) -> (r: String)
    ensures
        r@ == text_escaped(t@),
{
    let v = chars_of(t);
    let mut out: Vec<char> = Vec::new();
    let mut i: usize = 0;
    assert(v@.skip(0) =~= v@);
    while i < v.len()
        invariant
            i <= v.len(),
            v@ == t@,
            out@ + text_escaped(v@.skip(i as int)) == text_escaped(t@),
        decreases v.len() - i,
    {
        let c = v[i];
        let ghost rest = v@.skip(i as int);
        let ghost out0 = out@;
        assert(rest[0] == c);
        assert(rest.drop_first() =~= v@.skip(i + 1));
        if c == '&' {
            out.push('&');
            out.push('a');
            out.push('m');
            out.push('p');
            out.push(';');
        } else if c == '<' {
            out.push('&');
            out.push('l');
            out.push('t');
            out.push(';');
        } else {
            out.push(c);
        }
        assert(out@ =~= out0 + char_escaped(c));
        assert(out0 + (char_escaped(c) + text_escaped(v@.skip(i + 1))) =~= out@ + text_escaped(v@.skip(i + 1)));
        i = i + 1;
    }
    assert(v@.skip(i as int) =~= Seq::<char>::empty());
    assert(out@ + Seq::<char>::empty() =~= out@);
    string_of(out.as_slice())
}

/// The markup `s` with the character references of each text node decoded
/// and the node's `&` and `<` escaped again; tags (from `<` to the next `>`)
/// are kept as they are, and an unclosed tag is kept with the rest of `s`.
pub open spec fn text_nodes_decoded(s: Seq<char>) -> Seq<char>
    decreases s.len(),
{
    if s.len() == 0 {
        seq![]
    } else if s[0] == '<' {
        match find_from(s, seq!['>'], 0) {
            Some(e) => if 0 <= e && e + 1 <= s.len() {
                s.take(e + 1) + text_nodes_decoded(s.skip(e + 1))
            } else {
                s
            },
            None => s,
        }
    } else {
        let n = match find_from(s, seq!['<'], 0) {
            Some(k) => k,
            None => s.len() as int,
        };
        if 0 < n <= s.len() {
            text_escaped(html_entities_decoded(s.take(n))) + text_nodes_decoded(s.skip(n))
        } else {
            s
        }
    }
}

/// Decodes the character references of each text node of `html` and escapes
/// the node's `&` and `<` again, leaving tags as they are.
pub fn decode_text_nodes(html: &str) -> (r: String)
    ensures
        r@ == text_nodes_decoded(html@),
{
    let v = chars_of(html);
    let mut gt: Vec<char> = Vec::new();
    gt.push('>');
    let mut lt: Vec<char> = Vec::new();
    lt.push('<');
    assert(gt@ =~= seq!['>']);
    assert(lt@ =~= seq!['<']);
    let ghost goal = text_nodes_decoded(v@);
    let mut out: Vec<char> = Vec::new();
    let mut pos: usize = 0;
    assert(v@.skip(0) =~= v@);
    assert(out@ + goal =~= goal);
    while pos < v.len()
        invariant
            pos <= v.len(),
            gt@ == seq!['>'],
            lt@ == seq!['<'],
            out@ + text_nodes_decoded(v@.skip(pos as int)) == goal,
        decreases v.len() - pos,
    {
        let ghost rest = v@.skip(pos as int);
        let ghost out0 = out@;
        proof {
            lemma_find_from_skip(v@, gt@, pos as int, 0);
            lemma_find_from_skip(v@, lt@, pos as int, 0);
        }
        if v[pos] == '<' {
            match find_chars(v.as_slice(), pos, gt.as_slice()) {
                Some(e) => {
                    proof {
                        crate::text::lemma_find_from(v@, gt@, pos as int);
                    }
                    push_range(&mut out, v.as_slice(), pos, e + 1);
                    assert(v@.subrange(pos as int, e + 1) =~= rest.take(e + 1 - pos));
                    assert(rest.skip(e + 1 - pos) =~= v@.skip(e + 1));
                    assert(out@ + text_nodes_decoded(v@.skip(e + 1)) =~= out0 + (rest.take(e + 1 - pos)
                        + text_nodes_decoded(rest.skip(e + 1 - pos))));
                    pos = e + 1;
                },
                None => {
                    push_range(&mut out, v.as_slice(), pos, v.len());
                    assert(v@.subrange(pos as int, v.len() as int) =~= rest);
                    pos = v.len();
                    assert(v@.skip(pos as int) =~= Seq::<char>::empty());
                    assert(out@ + Seq::<char>::empty() =~= out@);
                },
            }
        } else {
            let n = match find_chars(v.as_slice(), pos, lt.as_slice()) {
                Some(k) => {
                    proof {
                        crate::text::lemma_find_from(v@, lt@, pos as int);
                        if k == pos {
                            assert(v@.subrange(pos as int, pos + 1)[0] == v@[pos as int]);
                        }
                    }
                    k
                },
                None => v.len(),
            };
            let mut seg: Vec<char> = Vec::new();
            push_range(&mut seg, v.as_slice(), pos, n);
            assert(seg@ =~= rest.take(n - pos));
            let text = string_of(seg.as_slice());
            let decoded = decode_html_entities(text.as_str());
            let escaped = escape_text(decoded.as_str());
            let ev = chars_of(escaped.as_str());
            push_range(&mut out, ev.as_slice(), 0, ev.len());
            assert(ev@.subrange(0, ev.len() as int) =~= ev@);
            assert(rest.skip(n - pos) =~= v@.skip(n as int));
            assert(out@ + text_nodes_decoded(v@.skip(n as int)) =~= out0 + (text_escaped(
                html_entities_decoded(rest.take(n - pos)),
            ) + text_nodes_decoded(rest.skip(n - pos))));
            pos = n;
        }
    }
    string_of(out.as_slice())
}

/// The narration cleanup of markup whose entities are already decoded.
pub fn clean_decoded_for_tts(decoded: &str) -> (r: String)
    ensures
        r@ == tts_cleaned(decoded@),
{
    let s = replace_symbols(decoded);
    let s = remove_footnote_markers(s.as_str());
    let s = expand_abbreviations(s.as_str());
    normalize_whitespace(s.as_str())
}

/// `s` starts with `p`.
pub open spec fn starts_with(s: Seq<char>, p: Seq<char>) -> bool {
    p.len() <= s.len() && s.take(p.len() as int) == p
}

/// A `&` that begins `&amp;` or `&lt;`.
pub open spec fn begins_reference(s: Seq<char>) -> bool {
    starts_with(s, seq!['&', 'a', 'm', 'p', ';']) || starts_with(s, seq!['&', 'l', 't', ';'])
}

/// Every `&` outside tags in `s` begins the reference `&amp;` or `&lt;`;
/// `in_tag` tells whether `s` starts inside a tag (from `<` to `>`), as
/// the white-space normalizer reads it.
pub open spec fn references_ok(s: Seq<char>, in_tag: bool) -> bool
    decreases s.len(),
{
    if s.len() == 0 {
        true
    } else if s[0] == '<' {
        references_ok(s.drop_first(), true)
    } else if s[0] == '>' {
        references_ok(s.drop_first(), false)
    } else if s[0] == '&' && !in_tag {
        begins_reference(s) && references_ok(s.drop_first(), false)
    } else {
        references_ok(s.drop_first(), in_tag)
    }
}

/// `s` with every `&` outside tags that does not begin `&amp;` or `&lt;`
/// written as `&amp;`.
pub open spec fn stray_ampersands_escaped(s: Seq<char>, in_tag: bool) -> Seq<char>
    decreases s.len(),
{
    if s.len() == 0 {
        seq![]
    } else {
        let c = s[0];
        let rest = s.drop_first();
        if c == '<' {
            seq![c] + stray_ampersands_escaped(rest, true)
        } else if c == '>' {
            seq![c] + stray_ampersands_escaped(rest, false)
        } else if c == '&' && !in_tag && !begins_reference(s) {
            seq!['&', 'a', 'm', 'p', ';'] + stray_ampersands_escaped(rest, false)
        } else {
            seq![c] + stray_ampersands_escaped(rest, in_tag)
        }
    }
}

proof fn lemma_escaped_keeps_reference_prefix(x: Seq<char>, rest: Seq<char>, in_tag: bool)
    requires
        x.len() <= 4,
        forall|i: int| 0 <= i < x.len() ==> x[i] != '<' && x[i] != '>' && x[i] != '&',
    ensures
        stray_ampersands_escaped(x + rest, in_tag) == x + stray_ampersands_escaped(rest, in_tag),
    decreases x.len(),
{
    if x.len() > 0 {
        let s = x + rest;
        assert(s[0] == x[0]);
        assert(s.drop_first() =~= x.drop_first() + rest);
        lemma_escaped_keeps_reference_prefix(x.drop_first(), rest, in_tag);
        assert(seq![x[0]] + (x.drop_first() + stray_ampersands_escaped(rest, in_tag)) =~= x
            + stray_ampersands_escaped(rest, in_tag));
    }
}

proof fn lemma_ok_after_plain_prefix(x: Seq<char>, rest: Seq<char>, in_tag: bool)
    requires
        forall|i: int| 0 <= i < x.len() ==> x[i] != '<' && x[i] != '>' && x[i] != '&',
        references_ok(rest, in_tag),
    ensures
        references_ok(x + rest, in_tag),
    decreases x.len(),
{
    if x.len() > 0 {
        let s = x + rest;
        assert(s[0] == x[0]);
        assert(s.drop_first() =~= x.drop_first() + rest);
        lemma_ok_after_plain_prefix(x.drop_first(), rest, in_tag);
    }
}

/// Escaping stray ampersands leaves every `&` outside tags beginning a
/// reference.
pub proof fn lemma_stray_ampersands_escaped_ok(s: Seq<char>, in_tag: bool)
    ensures
        references_ok(stray_ampersands_escaped(s, in_tag), in_tag),
    decreases s.len(),
{
    if s.len() > 0 {
        let c = s[0];
        let rest = s.drop_first();
        if c == '<' {
            lemma_stray_ampersands_escaped_ok(rest, true);
            assert((seq![c] + stray_ampersands_escaped(rest, true)).drop_first() =~= stray_ampersands_escaped(rest, true));
        } else if c == '>' {
            lemma_stray_ampersands_escaped_ok(rest, false);
            assert((seq![c] + stray_ampersands_escaped(rest, false)).drop_first() =~= stray_ampersands_escaped(rest, false));
        } else if c == '&' && !in_tag && !begins_reference(s) {
            lemma_stray_ampersands_escaped_ok(rest, false);
            let t = stray_ampersands_escaped(rest, false);
            let out = seq!['&', 'a', 'm', 'p', ';'] + t;
            lemma_ok_after_plain_prefix(seq!['a', 'm', 'p', ';'], t, false);
            assert(out.drop_first() =~= seq!['a', 'm', 'p', ';'] + t);
            assert(out.take(5) =~= seq!['&', 'a', 'm', 'p', ';']);
        } else if c == '&' && !in_tag {
            lemma_stray_ampersands_escaped_ok(rest, false);
            let t = stray_ampersands_escaped(rest, false);
            let out = seq![c] + t;
            assert(out.drop_first() =~= t);
            if starts_with(s, seq!['&', 'a', 'm', 'p', ';']) {
                let x = seq!['a', 'm', 'p', ';'];
                assert(rest =~= x + rest.skip(4));
                lemma_escaped_keeps_reference_prefix(x, rest.skip(4), false);
                assert(out.take(5) =~= seq!['&', 'a', 'm', 'p', ';']);
            } else {
                let x = seq!['l', 't', ';'];
                assert(s.take(4) == seq!['&', 'l', 't', ';']);
                assert(rest =~= x + rest.skip(3));
                lemma_escaped_keeps_reference_prefix(x, rest.skip(3), false);
                assert(out.take(4) =~= seq!['&', 'l', 't', ';']);
            }
        } else {
            lemma_stray_ampersands_escaped_ok(rest, in_tag);
            assert((seq![c] + stray_ampersands_escaped(rest, in_tag)).drop_first() =~= stray_ampersands_escaped(rest, in_tag));
        }
    }
}

/// Writes each `&` outside tags that does not begin `&amp;` or `&lt;` as
/// `&amp;`.
pub fn escape_stray_ampersands(s: &str) -> (r: String)
    ensures
        r@ == stray_ampersands_escaped(s@, false),
{
    let v = chars_of(s);
    let mut out: Vec<char> = Vec::new();
    let mut in_tag = false;
    let mut i: usize = 0;
    assert(v@.skip(0) =~= v@);
    while i < v.len()
        invariant
            i <= v.len(),
            v@ == s@,
            out@ + stray_ampersands_escaped(v@.skip(i as int), in_tag) == stray_ampersands_escaped(s@, false),
        decreases v.len() - i,
    {
        let c = v[i];
        let ghost rest = v@.skip(i as int);
        let ghost out0 = out@;
        let ghost t0 = in_tag;
        assert(rest[0] == c);
        assert(rest.drop_first() =~= v@.skip(i + 1));
        if c == '<' {
            out.push(c);
            in_tag = true;
        } else if c == '>' {
            out.push(c);
            in_tag = false;
        } else if c == '&' && !in_tag {
            let amp = v.len() - i >= 5 && v[i + 1] == 'a' && v[i + 2] == 'm' && v[i + 3] == 'p' && v[i + 4] == ';';
            let lt = v.len() - i >= 4 && v[i + 1] == 'l' && v[i + 2] == 't' && v[i + 3] == ';';
            proof {
                if amp {
                    assert(rest.take(5) =~= seq!['&', 'a', 'm', 'p', ';']);
                } else if starts_with(rest, seq!['&', 'a', 'm', 'p', ';']) {
                    assert(rest.take(5)[1] == rest[1]);
                    assert(rest.take(5)[2] == rest[2]);
                    assert(rest.take(5)[3] == rest[3]);
                    assert(rest.take(5)[4] == rest[4]);
                }
                if lt {
                    assert(rest.take(4) =~= seq!['&', 'l', 't', ';']);
                } else if starts_with(rest, seq!['&', 'l', 't', ';']) {
                    assert(rest.take(4)[1] == rest[1]);
                    assert(rest.take(4)[2] == rest[2]);
                    assert(rest.take(4)[3] == rest[3]);
                }
                assert((amp || lt) == begins_reference(rest));
            }
            if amp || lt {
                out.push(c);
            } else {
                out.push('&');
                out.push('a');
                out.push('m');
                out.push('p');
                out.push(';');
            }
        } else {
            out.push(c);
        }
        assert(out0 + stray_ampersands_escaped(rest, t0) =~= out@ + stray_ampersands_escaped(v@.skip(i + 1), in_tag));
        i = i + 1;
    }
    assert(v@.skip(i as int) =~= Seq::<char>::empty());
    assert(out@ + Seq::<char>::empty() =~= out@);
    string_of(out.as_slice())
}

/// The narration cleanup of an HTML chapter string: character references of
/// its text decoded (with `&` and `<` kept escaped), symbols replaced,
/// footnote markers removed, abbreviations expanded, white space collapsed,
/// and any `&` outside tags left without a reference escaped.
pub open spec fn cleaned_for_tts(html: Seq<char>) -> Seq<char> {
    stray_ampersands_escaped(tts_cleaned(text_nodes_decoded(html)), false)
}

/// Applies narration cleanup to an HTML chapter string: decodes the
/// character references of its text (keeping `&` and `<` escaped), then
/// replaces symbols, removes footnote markers, expands abbreviations and
/// collapses whitespace; an `&` outside tags is always left beginning a
/// reference, so the markup stays well-formed.
pub fn clean_for_tts(html: &str) -> (r: String)
    ensures
        r@ == cleaned_for_tts(html@),
{
    let decoded = decode_text_nodes(html);
    let cleaned = clean_decoded_for_tts(decoded.as_str());
    escape_stray_ampersands(cleaned.as_str())
}

/// The cleaned markup of any chapter is well-formed in its references:
/// every `&` outside tags begins `&amp;` or `&lt;`.
pub proof fn law_cleaned_markup_references_are_well_formed(html: Seq<char>)
    ensures
        references_ok(cleaned_for_tts(html), false),
{
    lemma_stray_ampersands_escaped_ok(tts_cleaned(text_nodes_decoded(html)), false);
}

} // verus!

verus! {

/// When the replacement `w` lacks `d`, and `d` is either the replaced
/// character `c` or absent from `s`, then `d` is absent from the result of
/// replacing every `c` in `s` by `w`.
pub proof fn lemma_replace_char_absent(s: Seq<char>, c: char, w: Seq<char>, d: char)
    requires
        !w.contains(d),
        d == c || !s.contains(d),
    ensures
        !replace_all(s, seq![c], w).contains(d),
    decreases s.len(),
{
    let pat = seq![c];
    if s.len() == 0 {
    } else if pat.len() <= s.len() && s.take(1) == pat {
        assert(!s.skip(1).contains(d) || d == c) by {
            if s.skip(1).contains(d) {
                let k = choose|k: int| 0 <= k < s.skip(1).len() && s.skip(1)[k] == d;
                assert(s[k + 1] == d);
            }
        }
        lemma_replace_char_absent(s.skip(1), c, w, d);
        let r = replace_all(s.skip(1), pat, w);
        assert(!(w + r).contains(d)) by {
            if (w + r).contains(d) {
                let k = choose|k: int| 0 <= k < (w + r).len() && (w + r)[k] == d;
                if k < w.len() {
                    assert(w[k] == d);
                } else {
                    assert(r[k - w.len()] == d);
                }
            }
        }
    } else {
        assert(s[0] != c) by {
            if s[0] == c {
                assert(s.take(1) =~= pat);
            }
        }
        assert(s[0] != d);
        assert(!s.drop_first().contains(d) || d == c) by {
            if s.drop_first().contains(d) {
                let k = choose|k: int| 0 <= k < s.drop_first().len() && s.drop_first()[k] == d;
                assert(s[k + 1] == d);
            }
        }
        lemma_replace_char_absent(s.drop_first(), c, w, d);
        let r = replace_all(s.drop_first(), pat, w);
        assert(!(seq![s[0]] + r).contains(d)) by {
            if (seq![s[0]] + r).contains(d) {
                let k = choose|k: int| 0 <= k < (seq![s[0]] + r).len() && (seq![s[0]] + r)[k] == d;
                if k == 0 {
                } else {
                    assert(r[k - 1] == d);
                }
            }
        }
    }
}

/// An escaped attribute value holds no `<`, `>` or `"`: a chapter title or
/// language cannot close the attribute or open a tag in the XHTML shell.
pub proof fn law_escaped_attr_has_no_markup(s: Seq<char>)
    ensures
        !attr_escaped(s).contains('<'),
        !attr_escaped(s).contains('>'),
        !attr_escaped(s).contains('"'),
{
    reveal_strlit("&");
    reveal_strlit("&amp;");
    reveal_strlit("\"");
    reveal_strlit("&quot;");
    reveal_strlit("<");
    reveal_strlit("&lt;");
    reveal_strlit(">");
    reveal_strlit("&gt;");
    assert("&"@ =~= seq!['&']);
    assert("\""@ =~= seq!['"']);
    assert("<"@ =~= seq!['<']);
    assert(">"@ =~= seq!['>']);
    let a = replace_all(s, "&"@, "&amp;"@);
    let b = replace_all(a, "\""@, "&quot;"@);
    let c = replace_all(b, "<"@, "&lt;"@);
    assert(!"&quot;"@.contains('"')) by {
        assert(forall|i: int| 0 <= i < "&quot;"@.len() ==> "&quot;"@[i] != '"');
    }
    assert(!"&lt;"@.contains('"'));
    assert(!"&lt;"@.contains('<'));
    assert(!"&gt;"@.contains('"'));
    assert(!"&gt;"@.contains('<'));
    assert(!"&gt;"@.contains('>'));
    lemma_replace_char_absent(a, '"', "&quot;"@, '"');
    lemma_replace_char_absent(b, '<', "&lt;"@, '"');
    lemma_replace_char_absent(c, '>', "&gt;"@, '"');
    lemma_replace_char_absent(b, '<', "&lt;"@, '<');
    lemma_replace_char_absent(c, '>', "&gt;"@, '<');
    lemma_replace_char_absent(c, '>', "&gt;"@, '>');
}

} // verus!

verus! {

/// `s` holds no `.`.
#[verifier::opaque]
pub open spec fn dot_free(s: Seq<char>) -> bool {
    forall|t: int| 0 <= t < s.len() ==> #[trigger] s[t] != '.'
}

/// A character that occurs in the written form of an abbreviation: an ASCII
/// letter, `.` or `,`.
pub open spec fn abbreviation_char(c: char) -> bool {
    ('a' <= c && c <= 'z') || ('A' <= c && c <= 'Z') || c == '.' || c == ','
}

/// An abbreviation placed between `a` and `b` stands alone: neither holds a
/// `.`, and `a` is empty or ends in a character that no abbreviation is
/// written with (a space, a `>`, a digit, ...).
pub open spec fn lone_between(a: Seq<char>, b: Seq<char>) -> bool {
    &&& dot_free(a)
    &&& dot_free(b)
    &&& (a.len() == 0 || !abbreviation_char(a.last()))
}

/// `p` is written with abbreviation characters only and holds a `.`.
#[verifier::opaque]
pub open spec fn abbreviation_shaped(p: Seq<char>) -> bool {
    &&& forall|t: int| 0 <= t < p.len() ==> abbreviation_char(#[trigger] p[t])
    &&& exists|d: int| 0 <= d < p.len() && #[trigger] p[d] == '.'
}

/// `p` agrees with `x` read from offset `o`, and where it runs past the end
/// of `x` it holds no `.`.
#[verifier::opaque]
pub open spec fn fits_at(p: Seq<char>, x: Seq<char>, o: int) -> bool {
    forall|t: int|
        0 <= t < p.len() ==> if o + t < x.len() {
            #[trigger] p[t] == x[o + t]
        } else {
            p[t] != '.'
        }
}

/// `fits_at`, checked character by character from index `t` of `p` on.
pub open spec fn fits_from(p: Seq<char>, x: Seq<char>, o: int, t: int) -> bool
    decreases p.len() - t,
{
    if t < 0 || t >= p.len() {
        true
    } else {
        (if o + t < x.len() {
            p[t] == x[o + t]
        } else {
            p[t] != '.'
        }) && fits_from(p, x, o, t + 1)
    }
}

proof fn lemma_fits_from(p: Seq<char>, x: Seq<char>, o: int, t: int)
    requires
        fits_at(p, x, o),
        0 <= t,
    ensures
        fits_from(p, x, o, t),
    decreases p.len() - t,
{
    reveal(fits_at);
    if t < p.len() {
        lemma_fits_from(p, x, o, t + 1);
    }
}

proof fn lemma_dot_free_has_no_match(s: Seq<char>, p: Seq<char>, k: int)
    requires
        dot_free(s),
        abbreviation_shaped(p),
    ensures
        !matches_at(s, k, p),
{
    reveal(dot_free);
    reveal(abbreviation_shaped);
    if matches_at(s, k, p) {
        let d = choose|d: int| 0 <= d < p.len() && #[trigger] p[d] == '.';
        assert(s.subrange(k, k + p.len())[d] == s[k + d]);
    }
}

proof fn lemma_shaped_nonempty(p: Seq<char>)
    requires
        abbreviation_shaped(p),
    ensures
        p.len() > 0,
{
    reveal(abbreviation_shaped);
}

/// An occurrence of an abbreviation-shaped `p` in `a + x + b`, with `x`
/// standing alone, starts inside `x` and fits there.
proof fn lemma_match_fits(a: Seq<char>, x: Seq<char>, b: Seq<char>, p: Seq<char>, k: int)
    requires
        lone_between(a, b),
        abbreviation_shaped(p),
        matches_at(a + x + b, k, p),
    ensures
        a.len() <= k < a.len() + x.len(),
        fits_at(p, x, k - a.len()),
        k - a.len() + p.len() > x.len() ==> b.len() > 0 && p[x.len() - (k - a.len())] == b[0],
{
    reveal(dot_free);
    reveal(abbreviation_shaped);
    let s = a + x + b;
    let d = choose|d: int| 0 <= d < p.len() && #[trigger] p[d] == '.';
    assert(s.subrange(k, k + p.len())[d] == s[k + d]);
    assert forall|t: int| 0 <= t < p.len() implies #[trigger] p[t] == s[k + t] by {
        assert(s.subrange(k, k + p.len())[t] == s[k + t]);
    }
    if k + d < a.len() {
        assert(a[k + d] == '.');
    }
    if k + d >= a.len() + x.len() {
        assert(b[k + d - a.len() - x.len()] == '.');
    }
    if k < a.len() {
        let t = a.len() - 1 - k;
        assert(p[t] == s[a.len() - 1]);
        assert(abbreviation_char(p[t]));
    }
    let o = k - a.len();
    reveal(fits_at);
    assert forall|t: int| 0 <= t < p.len() implies if o + t < x.len() {
        #[trigger] p[t] == x[o + t]
    } else {
        p[t] != '.'
    } by {
        assert(p[t] == s[k + t]);
        if o + t >= x.len() {
            assert(s[k + t] == b[o + t - x.len()]);
        }
    }
    if o + p.len() > x.len() {
        assert(p[x.len() - o] == s[k + x.len() - o]);
    }
}

/// Replacing a pattern that holds a `.` leaves a text without `.` as it is,
/// whatever the table.
proof fn lemma_replace_each_dot_free(s: Seq<char>, table: Seq<(Seq<char>, Seq<char>)>)
    requires
        dot_free(s),
        forall|j: int| 0 <= j < table.len() ==> abbreviation_shaped(#[trigger] table[j].0),
    ensures
        replace_each(s, table) == s,
    decreases table.len(),
{
    if table.len() > 0 {
        let p = table[0].0;
        assert(abbreviation_shaped(p));
        lemma_shaped_nonempty(p);
        assert forall|k: int| !#[trigger] matches_at(s, k, p) by {
            lemma_dot_free_has_no_match(s, p, k);
        }
        assert(p.len() > 0);
        crate::text::lemma_replace_all_absent(s, p, table[0].1);
        let rest = table.drop_first();
        assert forall|j: int| 0 <= j < rest.len() implies abbreviation_shaped(#[trigger] rest[j].0) by {
            assert(rest[j] == table[j + 1]);
        }
        lemma_replace_each_dot_free(s, rest);
    }
}

/// Pairs whose patterns do not occur in `s` can be passed over.
proof fn lemma_replace_each_skip(s: Seq<char>, table: Seq<(Seq<char>, Seq<char>)>, i: int)
    requires
        0 <= i <= table.len(),
        forall|j: int|
            0 <= j < i ==> (#[trigger] table[j].0).len() > 0 && forall|k: int|
                !matches_at(s, k, table[j].0),
    ensures
        replace_each(s, table) == replace_each(s, table.skip(i)),
    decreases i,
{
    if i == 0 {
        assert(table.skip(0) =~= table);
    } else {
        let p = table[0].0;
        assert(p.len() > 0 && forall|k: int| !matches_at(s, k, p));
        assert forall|k: int| !#[trigger] matches_at(s, k, p) by {}
        crate::text::lemma_replace_all_absent(s, p, table[0].1);
        let rest = table.drop_first();
        assert forall|j: int| 0 <= j < i - 1 implies (#[trigger] rest[j].0).len() > 0 && forall|k: int|
            !matches_at(s, k, rest[j].0) by {
            assert(rest[j] == table[j + 1]);
        }
        lemma_replace_each_skip(s, rest, i - 1);
        assert(rest.skip(i - 1) =~= table.skip(i));
    }
}

proof fn lemma_replace_at_front(x: Seq<char>, b: Seq<char>, w: Seq<char>)
    requires
        dot_free(b),
        abbreviation_shaped(x),
    ensures
        replace_all(x + b, x, w) == w + b,
{
    let s = x + b;
    lemma_shaped_nonempty(x);
    assert(s.take(x.len() as int) =~= x);
    assert(s.skip(x.len() as int) =~= b);
    assert forall|k: int| !#[trigger] matches_at(b, k, x) by {
        lemma_dot_free_has_no_match(b, x, k);
    }
    crate::text::lemma_replace_all_absent(b, x, w);
}

/// Replacing `x` in `a + x + b`, with `x` standing alone, replaces just that
/// occurrence.
proof fn lemma_replace_lone(a: Seq<char>, x: Seq<char>, b: Seq<char>, w: Seq<char>)
    requires
        lone_between(a, b),
        abbreviation_shaped(x),
    ensures
        replace_all(a + x + b, x, w) == a + w + b,
    decreases a.len(),
{
    if a.len() == 0 {
        assert(a + x + b =~= x + b);
        assert(a + w + b =~= w + b);
        lemma_replace_at_front(x, b, w);
    } else {
        let s = a + x + b;
        let n = x.len() as int;
        if n <= s.len() && s.take(n) == x {
            assert(s.subrange(0, n) =~= s.take(n));
            lemma_match_fits(a, x, b, x, 0);
        }
        let a2 = a.drop_first();
        assert(lone_between(a2, b)) by {
            reveal(dot_free);
            if a2.len() > 0 {
                assert(a2.last() == a.last());
            }
            assert forall|t: int| 0 <= t < a2.len() implies #[trigger] a2[t] != '.' by {
                assert(a2[t] == a[t + 1]);
            }
        }
        lemma_replace_lone(a2, x, b, w);
        assert(s.drop_first() =~= a2 + x + b);
        assert(seq![s[0]] + (a2 + w + b) =~= a + w + b);
    }
}

/// Expanding a lone abbreviation: when no earlier pattern of `table` fits
/// into `table[i].0` (but one that runs on into a character other than the
/// first of `b`), and every pattern is abbreviation-shaped and every
/// replacement free of `.`, the table turns `a + table[i].0 + b` into
/// `a + table[i].1 + b`.
proof fn lemma_expand_lone(a: Seq<char>, b: Seq<char>, table: Seq<(Seq<char>, Seq<char>)>, i: int)
    requires
        lone_between(a, b),
        0 <= i < table.len(),
        forall|j: int| 0 <= j < table.len() ==> abbreviation_shaped(#[trigger] table[j].0),
        forall|j: int| 0 <= j < table.len() ==> dot_free(#[trigger] table[j].1),
        forall|j: int, o: int|
            0 <= j < i && 0 <= o < table[i].0.len() && #[trigger] fits_at(table[j].0, table[i].0, o)
                ==> o + table[j].0.len() > table[i].0.len() && (b.len() == 0 || table[j].0[table[i].0.len()
                - o] != b[0]),
    ensures
        replace_each(a + table[i].0 + b, table) == a + table[i].1 + b,
{
    let x = table[i].0;
    let w = table[i].1;
    let s = a + x + b;
    assert forall|j: int| 0 <= j < i implies (#[trigger] table[j].0).len() > 0 && forall|k: int|
        !matches_at(s, k, table[j].0) by {
        let p = table[j].0;
        assert(abbreviation_shaped(p));
        lemma_shaped_nonempty(p);
        assert forall|k: int| !matches_at(s, k, p) by {
            if matches_at(s, k, p) {
                lemma_match_fits(a, x, b, p, k);
            }
        }
    }
    lemma_replace_each_skip(s, table, i);
    let rest = table.skip(i);
    assert(rest[0] == table[i]);
    assert(rest.drop_first() =~= table.skip(i + 1));
    lemma_replace_lone(a, x, b, w);
    let after = table.skip(i + 1);
    assert forall|j: int| 0 <= j < after.len() implies abbreviation_shaped(#[trigger] after[j].0) by {
        assert(after[j] == table[j + i + 1]);
    }
    assert(dot_free(w));
    reveal(dot_free);
    assert forall|t: int| 0 <= t < (a + w + b).len() implies #[trigger] (a + w + b)[t] != '.' by {
        if t < a.len() {
        } else if t < a.len() + w.len() {
            assert((a + w + b)[t] == w[t - a.len()]);
        } else {
            assert((a + w + b)[t] == b[t - a.len() - w.len()]);
        }
    }
    lemma_replace_each_dot_free(a + w + b, after);
}

} // verus!

verus! {

proof fn lemma_shaped_short(p: Seq<char>, d: int)
    requires
        p.len() <= 7,
        0 <= d < p.len(),
        p[d] == '.',
        p.len() > 0 ==> abbreviation_char(p[0]),
        p.len() > 1 ==> abbreviation_char(p[1]),
        p.len() > 2 ==> abbreviation_char(p[2]),
        p.len() > 3 ==> abbreviation_char(p[3]),
        p.len() > 4 ==> abbreviation_char(p[4]),
        p.len() > 5 ==> abbreviation_char(p[5]),
        p.len() > 6 ==> abbreviation_char(p[6]),
    ensures
        abbreviation_shaped(p),
{
    reveal(abbreviation_shaped);
    assert forall|t: int| 0 <= t < p.len() implies abbreviation_char(#[trigger] p[t]) by {
        assert(t == 0 || t == 1 || t == 2 || t == 3 || t == 4 || t == 5 || t == 6);
    }
}

proof fn lemma_dot_free_short(w: Seq<char>)
    requires
        w.len() <= 20,
        w.len() > 0 ==> w[0] != '.',
        w.len() > 1 ==> w[1] != '.',
        w.len() > 2 ==> w[2] != '.',
        w.len() > 3 ==> w[3] != '.',
        w.len() > 4 ==> w[4] != '.',
        w.len() > 5 ==> w[5] != '.',
        w.len() > 6 ==> w[6] != '.',
        w.len() > 7 ==> w[7] != '.',
        w.len() > 8 ==> w[8] != '.',
        w.len() > 9 ==> w[9] != '.',
        w.len() > 10 ==> w[10] != '.',
        w.len() > 11 ==> w[11] != '.',
        w.len() > 12 ==> w[12] != '.',
        w.len() > 13 ==> w[13] != '.',
        w.len() > 14 ==> w[14] != '.',
        w.len() > 15 ==> w[15] != '.',
        w.len() > 16 ==> w[16] != '.',
        w.len() > 17 ==> w[17] != '.',
        w.len() > 18 ==> w[18] != '.',
        w.len() > 19 ==> w[19] != '.',
    ensures
        dot_free(w),
{
    reveal(dot_free);
    assert forall|t: int| 0 <= t < w.len() implies #[trigger] w[t] != '.' by {
        assert(t == 0 || t == 1 || t == 2 || t == 3 || t == 4 || t == 5 || t == 6 || t == 7
            || t == 8 || t == 9 || t == 10 || t == 11 || t == 12 || t == 13 || t == 14 || t == 15
            || t == 16 || t == 17 || t == 18 || t == 19);
    }
}

/// The entries of the abbreviation table, one by one.
proof fn lemma_abbreviation_table_entries()
    ensures
        abbreviation_table().len() == 49,
        abbreviation_table()[0] == ("e.g.,"@, "for example,"@),
        abbreviation_table()[1] == ("e.g."@, "for example"@),
        abbreviation_table()[2] == ("i.e.,"@, "that is,"@),
        abbreviation_table()[3] == ("i.e."@, "that is"@),
        abbreviation_table()[4] == ("etc."@, "and so on"@),
        abbreviation_table()[5] == ("vs."@, "versus"@),
        abbreviation_table()[6] == ("approx."@, "approximately"@),
        abbreviation_table()[7] == ("dept."@, "department"@),
        abbreviation_table()[8] == ("est."@, "established"@),
        abbreviation_table()[9] == ("fig."@, "figure"@),
        abbreviation_table()[10] == ("govt."@, "government"@),
        abbreviation_table()[11] == ("incl."@, "including"@),
        abbreviation_table()[12] == ("min."@, "minutes"@),
        abbreviation_table()[13] == ("misc."@, "miscellaneous"@),
        abbreviation_table()[14] == ("no."@, "number"@),
        abbreviation_table()[15] == ("ref."@, "reference"@),
        abbreviation_table()[16] == ("vol."@, "volume"@),
        abbreviation_table()[17] == ("Mr."@, "Mister"@),
        abbreviation_table()[18] == ("Mrs."@, "Missus"@),
        abbreviation_table()[19] == ("Ms."@, "Miss"@),
        abbreviation_table()[20] == ("Dr."@, "Doctor"@),
        abbreviation_table()[21] == ("Prof."@, "Professor"@),
        abbreviation_table()[22] == ("Sr."@, "Senior"@),
        abbreviation_table()[23] == ("Jr."@, "Junior"@),
        abbreviation_table()[24] == ("St."@, "Saint"@),
        abbreviation_table()[25] == ("Sgt."@, "Sergeant"@),
        abbreviation_table()[26] == ("Lt."@, "Lieutenant"@),
        abbreviation_table()[27] == ("Cpl."@, "Corporal"@),
        abbreviation_table()[28] == ("Pvt."@, "Private"@),
        abbreviation_table()[29] == ("Gen."@, "General"@),
        abbreviation_table()[30] == ("Capt."@, "Captain"@),
        abbreviation_table()[31] == ("Cmdr."@, "Commander"@),
        abbreviation_table()[32] == ("Col."@, "Colonel"@),
        abbreviation_table()[33] == ("Maj."@, "Major"@),
        abbreviation_table()[34] == ("Gov."@, "Governor"@),
        abbreviation_table()[35] == ("Sen."@, "Senator"@),
        abbreviation_table()[36] == ("Rep."@, "Representative"@),
        abbreviation_table()[37] == ("Pres."@, "President"@),
        abbreviation_table()[38] == ("Sec."@, "Secretary"@),
        abbreviation_table()[39] == ("Hon."@, "Honorable"@),
        abbreviation_table()[40] == ("Rev."@, "Reverend"@),
        abbreviation_table()[41] == ("B.C."@, "Before Christ"@),
        abbreviation_table()[42] == ("A.D."@, "Anno Domini"@),
        abbreviation_table()[43] == ("a.m."@, "in the morning"@),
        abbreviation_table()[44] == ("p.m."@, "in the afternoon"@),
        abbreviation_table()[45] == ("U.S."@, "United States"@),
        abbreviation_table()[46] == ("U.K."@, "United Kingdom"@),
        abbreviation_table()[47] == ("U.N."@, "United Nations"@),
        abbreviation_table()[48] == ("D.C."@, "District of Columbia"@),
{
}

/// Every pattern of the abbreviation table is written with abbreviation
/// characters and holds a `.`; no expansion holds a `.`.
proof fn lemma_abbreviation_table_shaped()
    ensures
        forall|j: int|
            0 <= j < abbreviation_table().len() ==> abbreviation_shaped(
                #[trigger] abbreviation_table()[j].0,
            ),
        forall|j: int|
            0 <= j < abbreviation_table().len() ==> dot_free(#[trigger] abbreviation_table()[j].1),
{
    lemma_abbreviation_table_entries();
    reveal_strlit("e.g.,");
    reveal_strlit("for example,");
    reveal_strlit("e.g.");
    reveal_strlit("for example");
    reveal_strlit("i.e.,");
    reveal_strlit("that is,");
    reveal_strlit("i.e.");
    reveal_strlit("that is");
    reveal_strlit("etc.");
    reveal_strlit("and so on");
    reveal_strlit("vs.");
    reveal_strlit("versus");
    reveal_strlit("approx.");
    reveal_strlit("approximately");
    reveal_strlit("dept.");
    reveal_strlit("department");
    reveal_strlit("est.");
    reveal_strlit("established");
    reveal_strlit("fig.");
    reveal_strlit("figure");
    reveal_strlit("govt.");
    reveal_strlit("government");
    reveal_strlit("incl.");
    reveal_strlit("including");
    reveal_strlit("min.");
    reveal_strlit("minutes");
    reveal_strlit("misc.");
    reveal_strlit("miscellaneous");
    reveal_strlit("no.");
    reveal_strlit("number");
    reveal_strlit("ref.");
    reveal_strlit("reference");
    reveal_strlit("vol.");
    reveal_strlit("volume");
    reveal_strlit("Mr.");
    reveal_strlit("Mister");
    reveal_strlit("Mrs.");
    reveal_strlit("Missus");
    reveal_strlit("Ms.");
    reveal_strlit("Miss");
    reveal_strlit("Dr.");
    reveal_strlit("Doctor");
    reveal_strlit("Prof.");
    reveal_strlit("Professor");
    reveal_strlit("Sr.");
    reveal_strlit("Senior");
    reveal_strlit("Jr.");
    reveal_strlit("Junior");
    reveal_strlit("St.");
    reveal_strlit("Saint");
    reveal_strlit("Sgt.");
    reveal_strlit("Sergeant");
    reveal_strlit("Lt.");
    reveal_strlit("Lieutenant");
    reveal_strlit("Cpl.");
    reveal_strlit("Corporal");
    reveal_strlit("Pvt.");
    reveal_strlit("Private");
    reveal_strlit("Gen.");
    reveal_strlit("General");
    reveal_strlit("Capt.");
    reveal_strlit("Captain");
    reveal_strlit("Cmdr.");
    reveal_strlit("Commander");
    reveal_strlit("Col.");
    reveal_strlit("Colonel");
    reveal_strlit("Maj.");
    reveal_strlit("Major");
    reveal_strlit("Gov.");
    reveal_strlit("Governor");
    reveal_strlit("Sen.");
    reveal_strlit("Senator");
    reveal_strlit("Rep.");
    reveal_strlit("Representative");
    reveal_strlit("Pres.");
    reveal_strlit("President");
    reveal_strlit("Sec.");
    reveal_strlit("Secretary");
    reveal_strlit("Hon.");
    reveal_strlit("Honorable");
    reveal_strlit("Rev.");
    reveal_strlit("Reverend");
    reveal_strlit("B.C.");
    reveal_strlit("Before Christ");
    reveal_strlit("A.D.");
    reveal_strlit("Anno Domini");
    reveal_strlit("a.m.");
    reveal_strlit("in the morning");
    reveal_strlit("p.m.");
    reveal_strlit("in the afternoon");
    reveal_strlit("U.S.");
    reveal_strlit("United States");
    reveal_strlit("U.K.");
    reveal_strlit("United Kingdom");
    reveal_strlit("U.N.");
    reveal_strlit("United Nations");
    reveal_strlit("D.C.");
    reveal_strlit("District of Columbia");
    lemma_shaped_short("e.g.,"@, 1);
    lemma_dot_free_short("for example,"@);
    lemma_shaped_short("e.g."@, 1);
    lemma_dot_free_short("for example"@);
    lemma_shaped_short("i.e.,"@, 1);
    lemma_dot_free_short("that is,"@);
    lemma_shaped_short("i.e."@, 1);
    lemma_dot_free_short("that is"@);
    lemma_shaped_short("etc."@, 3);
    lemma_dot_free_short("and so on"@);
    lemma_shaped_short("vs."@, 2);
    lemma_dot_free_short("versus"@);
    lemma_shaped_short("approx."@, 6);
    lemma_dot_free_short("approximately"@);
    lemma_shaped_short("dept."@, 4);
    lemma_dot_free_short("department"@);
    lemma_shaped_short("est."@, 3);
    lemma_dot_free_short("established"@);
    lemma_shaped_short("fig."@, 3);
    lemma_dot_free_short("figure"@);
    lemma_shaped_short("govt."@, 4);
    lemma_dot_free_short("government"@);
    lemma_shaped_short("incl."@, 4);
    lemma_dot_free_short("including"@);
    lemma_shaped_short("min."@, 3);
    lemma_dot_free_short("minutes"@);
    lemma_shaped_short("misc."@, 4);
    lemma_dot_free_short("miscellaneous"@);
    lemma_shaped_short("no."@, 2);
    lemma_dot_free_short("number"@);
    lemma_shaped_short("ref."@, 3);
    lemma_dot_free_short("reference"@);
    lemma_shaped_short("vol."@, 3);
    lemma_dot_free_short("volume"@);
    lemma_shaped_short("Mr."@, 2);
    lemma_dot_free_short("Mister"@);
    lemma_shaped_short("Mrs."@, 3);
    lemma_dot_free_short("Missus"@);
    lemma_shaped_short("Ms."@, 2);
    lemma_dot_free_short("Miss"@);
    lemma_shaped_short("Dr."@, 2);
    lemma_dot_free_short("Doctor"@);
    lemma_shaped_short("Prof."@, 4);
    lemma_dot_free_short("Professor"@);
    lemma_shaped_short("Sr."@, 2);
    lemma_dot_free_short("Senior"@);
    lemma_shaped_short("Jr."@, 2);
    lemma_dot_free_short("Junior"@);
    lemma_shaped_short("St."@, 2);
    lemma_dot_free_short("Saint"@);
    lemma_shaped_short("Sgt."@, 3);
    lemma_dot_free_short("Sergeant"@);
    lemma_shaped_short("Lt."@, 2);
    lemma_dot_free_short("Lieutenant"@);
    lemma_shaped_short("Cpl."@, 3);
    lemma_dot_free_short("Corporal"@);
    lemma_shaped_short("Pvt."@, 3);
    lemma_dot_free_short("Private"@);
    lemma_shaped_short("Gen."@, 3);
    lemma_dot_free_short("General"@);
    lemma_shaped_short("Capt."@, 4);
    lemma_dot_free_short("Captain"@);
    lemma_shaped_short("Cmdr."@, 4);
    lemma_dot_free_short("Commander"@);
    lemma_shaped_short("Col."@, 3);
    lemma_dot_free_short("Colonel"@);
    lemma_shaped_short("Maj."@, 3);
    lemma_dot_free_short("Major"@);
    lemma_shaped_short("Gov."@, 3);
    lemma_dot_free_short("Governor"@);
    lemma_shaped_short("Sen."@, 3);
    lemma_dot_free_short("Senator"@);
    lemma_shaped_short("Rep."@, 3);
    lemma_dot_free_short("Representative"@);
    lemma_shaped_short("Pres."@, 4);
    lemma_dot_free_short("President"@);
    lemma_shaped_short("Sec."@, 3);
    lemma_dot_free_short("Secretary"@);
    lemma_shaped_short("Hon."@, 3);
    lemma_dot_free_short("Honorable"@);
    lemma_shaped_short("Rev."@, 3);
    lemma_dot_free_short("Reverend"@);
    lemma_shaped_short("B.C."@, 1);
    lemma_dot_free_short("Before Christ"@);
    lemma_shaped_short("A.D."@, 1);
    lemma_dot_free_short("Anno Domini"@);
    lemma_shaped_short("a.m."@, 1);
    lemma_dot_free_short("in the morning"@);
    lemma_shaped_short("p.m."@, 1);
    lemma_dot_free_short("in the afternoon"@);
    lemma_shaped_short("U.S."@, 1);
    lemma_dot_free_short("United States"@);
    lemma_shaped_short("U.K."@, 1);
    lemma_dot_free_short("United Kingdom"@);
    lemma_shaped_short("U.N."@, 1);
    lemma_dot_free_short("United Nations"@);
    lemma_shaped_short("D.C."@, 1);
    lemma_dot_free_short("District of Columbia"@);
    assert forall|j: int| 0 <= j < abbreviation_table().len() implies abbreviation_shaped(
        #[trigger] abbreviation_table()[j].0,
    ) by {
        assert(j == 0 || j == 1 || j == 2 || j == 3 || j == 4 || j == 5 || j == 6 || j == 7
            || j == 8 || j == 9 || j == 10 || j == 11 || j == 12 || j == 13 || j == 14 || j == 15
            || j == 16 || j == 17 || j == 18 || j == 19 || j == 20 || j == 21 || j == 22 || j == 23
            || j == 24 || j == 25 || j == 26 || j == 27 || j == 28 || j == 29 || j == 30 || j == 31
            || j == 32 || j == 33 || j == 34 || j == 35 || j == 36 || j == 37 || j == 38 || j == 39
            || j == 40 || j == 41 || j == 42 || j == 43 || j == 44 || j == 45 || j == 46 || j == 47
            || j == 48);
    }
    assert forall|j: int| 0 <= j < abbreviation_table().len() implies dot_free(
        #[trigger] abbreviation_table()[j].1,
    ) by {
        assert(j == 0 || j == 1 || j == 2 || j == 3 || j == 4 || j == 5 || j == 6 || j == 7
            || j == 8 || j == 9 || j == 10 || j == 11 || j == 12 || j == 13 || j == 14 || j == 15
            || j == 16 || j == 17 || j == 18 || j == 19 || j == 20 || j == 21 || j == 22 || j == 23
            || j == 24 || j == 25 || j == 26 || j == 27 || j == 28 || j == 29 || j == 30 || j == 31
            || j == 32 || j == 33 || j == 34 || j == 35 || j == 36 || j == 37 || j == 38 || j == 39
            || j == 40 || j == 41 || j == 42 || j == 43 || j == 44 || j == 45 || j == 46 || j == 47
            || j == 48);
    }
}

/// No pattern of the abbreviation table fits into a later one, but
/// "e.g.," into "e.g." and "i.e.," into "i.e." (running on into a comma).
proof fn lemma_earlier_patterns_do_not_fit(i: int)
    requires
        0 <= i < abbreviation_table().len(),
    ensures
        forall|j: int, o: int|
            0 <= j < i && 0 <= o < abbreviation_table()[i].0.len() && #[trigger] fits_at(
                abbreviation_table()[j].0,
                abbreviation_table()[i].0,
                o,
            ) ==> o == 0 && ((i == 1 && j == 0) || (i == 3 && j == 2)),
{
    lemma_abbreviation_table_entries();
    reveal_strlit("e.g.,");
    reveal_strlit("e.g.");
    reveal_strlit("i.e.,");
    reveal_strlit("i.e.");
    reveal_strlit("etc.");
    reveal_strlit("vs.");
    reveal_strlit("approx.");
    reveal_strlit("dept.");
    reveal_strlit("est.");
    reveal_strlit("fig.");
    reveal_strlit("govt.");
    reveal_strlit("incl.");
    reveal_strlit("min.");
    reveal_strlit("misc.");
    reveal_strlit("no.");
    reveal_strlit("ref.");
    reveal_strlit("vol.");
    reveal_strlit("Mr.");
    reveal_strlit("Mrs.");
    reveal_strlit("Ms.");
    reveal_strlit("Dr.");
    reveal_strlit("Prof.");
    reveal_strlit("Sr.");
    reveal_strlit("Jr.");
    reveal_strlit("St.");
    reveal_strlit("Sgt.");
    reveal_strlit("Lt.");
    reveal_strlit("Cpl.");
    reveal_strlit("Pvt.");
    reveal_strlit("Gen.");
    reveal_strlit("Capt.");
    reveal_strlit("Cmdr.");
    reveal_strlit("Col.");
    reveal_strlit("Maj.");
    reveal_strlit("Gov.");
    reveal_strlit("Sen.");
    reveal_strlit("Rep.");
    reveal_strlit("Pres.");
    reveal_strlit("Sec.");
    reveal_strlit("Hon.");
    reveal_strlit("Rev.");
    reveal_strlit("B.C.");
    reveal_strlit("A.D.");
    reveal_strlit("a.m.");
    reveal_strlit("p.m.");
    reveal_strlit("U.S.");
    reveal_strlit("U.K.");
    reveal_strlit("U.N.");
    reveal_strlit("D.C.");
    reveal_with_fuel(fits_from, 8);
    assert forall|j: int, o: int|
        0 <= j < i && 0 <= o < abbreviation_table()[i].0.len() && #[trigger] fits_at(
            abbreviation_table()[j].0,
            abbreviation_table()[i].0,
            o,
        ) implies o == 0 && ((i == 1 && j == 0) || (i == 3 && j == 2)) by {
        assert(i == 0 || i == 1 || i == 2 || i == 3 || i == 4 || i == 5 || i == 6 || i == 7
            || i == 8 || i == 9 || i == 10 || i == 11 || i == 12 || i == 13 || i == 14 || i == 15
            || i == 16 || i == 17 || i == 18 || i == 19 || i == 20 || i == 21 || i == 22 || i == 23
            || i == 24 || i == 25 || i == 26 || i == 27 || i == 28 || i == 29 || i == 30 || i == 31
            || i == 32 || i == 33 || i == 34 || i == 35 || i == 36 || i == 37 || i == 38 || i == 39
            || i == 40 || i == 41 || i == 42 || i == 43 || i == 44 || i == 45 || i == 46 || i == 47
            || i == 48);
        assert(j == 0 || j == 1 || j == 2 || j == 3 || j == 4 || j == 5 || j == 6 || j == 7
            || j == 8 || j == 9 || j == 10 || j == 11 || j == 12 || j == 13 || j == 14 || j == 15
            || j == 16 || j == 17 || j == 18 || j == 19 || j == 20 || j == 21 || j == 22 || j == 23
            || j == 24 || j == 25 || j == 26 || j == 27 || j == 28 || j == 29 || j == 30 || j == 31
            || j == 32 || j == 33 || j == 34 || j == 35 || j == 36 || j == 37 || j == 38 || j == 39
            || j == 40 || j == 41 || j == 42 || j == 43 || j == 44 || j == 45 || j == 46 || j == 47
            || j == 48);
        assert(o == 0 || o == 1 || o == 2 || o == 3 || o == 4 || o == 5 || o == 6);
        lemma_fits_from(abbreviation_table()[j].0, abbreviation_table()[i].0, o, 0);
    }
}

/// The abbreviation at index `i` of the table, standing alone, is replaced
/// by its expansion.
proof fn lemma_expands_entry(a: Seq<char>, b: Seq<char>, i: int)
    requires
        lone_between(a, b),
        0 <= i < abbreviation_table().len(),
    ensures
        abbreviations_expanded(a + abbreviation_table()[i].0 + b) == a + abbreviation_table()[i].1
            + b,
{
    let table = abbreviation_table();
    lemma_abbreviation_table_entries();
    lemma_abbreviation_table_shaped();
    lemma_earlier_patterns_do_not_fit(i);
    reveal_strlit("e.g.,");
    reveal_strlit("e.g.");
    reveal_strlit("i.e.,");
    reveal_strlit("i.e.");
    reveal_strlit("for example,");
    reveal_strlit("for example");
    reveal_strlit("that is,");
    reveal_strlit("that is");
    if (i == 1 || i == 3) && b.len() > 0 && b[0] == ',' {
        let b2 = b.drop_first();
        assert(lone_between(a, b2)) by {
            reveal(dot_free);
            assert forall|t: int| 0 <= t < b2.len() implies #[trigger] b2[t] != '.' by {
                assert(b2[t] == b[t + 1]);
            }
        }
        assert(forall|j: int, o: int|
            0 <= j < i - 1 && 0 <= o < table[i - 1].0.len() && #[trigger] fits_at(
                table[j].0,
                table[i - 1].0,
                o,
            ) ==> false) by {
            lemma_earlier_patterns_do_not_fit(i - 1);
        }
        lemma_expand_lone(a, b2, table, i - 1);
        assert(table[i - 1].0 =~= table[i].0 + seq![',']);
        assert(table[i - 1].1 =~= table[i].1 + seq![',']);
        assert(a + table[i].0 + b =~= a + table[i - 1].0 + b2);
        assert(a + table[i - 1].1 + b2 =~= a + table[i].1 + b);
    } else {
        lemma_expand_lone(a, b, table, i);
    }
}

/// An abbreviation that stands alone (with no `.` before or after it in the
/// text, and nothing before it that an abbreviation is written with) is
/// replaced by its spoken form: "etc." by "and so on", "Prof." by
/// "Professor", "a.m." by "in the morning", and so for every abbreviation
/// that narration knows.
pub proof fn law_lone_abbreviation_is_spoken(a: Seq<char>, b: Seq<char>)
    requires
        lone_between(a, b),
    ensures
        abbreviations_expanded(a + "e.g.,"@ + b) == a + "for example,"@ + b,
        abbreviations_expanded(a + "e.g."@ + b) == a + "for example"@ + b,
        abbreviations_expanded(a + "i.e.,"@ + b) == a + "that is,"@ + b,
        abbreviations_expanded(a + "i.e."@ + b) == a + "that is"@ + b,
        abbreviations_expanded(a + "etc."@ + b) == a + "and so on"@ + b,
        abbreviations_expanded(a + "vs."@ + b) == a + "versus"@ + b,
        abbreviations_expanded(a + "approx."@ + b) == a + "approximately"@ + b,
        abbreviations_expanded(a + "dept."@ + b) == a + "department"@ + b,
        abbreviations_expanded(a + "est."@ + b) == a + "established"@ + b,
        abbreviations_expanded(a + "fig."@ + b) == a + "figure"@ + b,
        abbreviations_expanded(a + "govt."@ + b) == a + "government"@ + b,
        abbreviations_expanded(a + "incl."@ + b) == a + "including"@ + b,
        abbreviations_expanded(a + "min."@ + b) == a + "minutes"@ + b,
        abbreviations_expanded(a + "misc."@ + b) == a + "miscellaneous"@ + b,
        abbreviations_expanded(a + "no."@ + b) == a + "number"@ + b,
        abbreviations_expanded(a + "ref."@ + b) == a + "reference"@ + b,
        abbreviations_expanded(a + "vol."@ + b) == a + "volume"@ + b,
        abbreviations_expanded(a + "Mr."@ + b) == a + "Mister"@ + b,
        abbreviations_expanded(a + "Mrs."@ + b) == a + "Missus"@ + b,
        abbreviations_expanded(a + "Ms."@ + b) == a + "Miss"@ + b,
        abbreviations_expanded(a + "Dr."@ + b) == a + "Doctor"@ + b,
        abbreviations_expanded(a + "Prof."@ + b) == a + "Professor"@ + b,
        abbreviations_expanded(a + "Sr."@ + b) == a + "Senior"@ + b,
        abbreviations_expanded(a + "Jr."@ + b) == a + "Junior"@ + b,
        abbreviations_expanded(a + "St."@ + b) == a + "Saint"@ + b,
        abbreviations_expanded(a + "Sgt."@ + b) == a + "Sergeant"@ + b,
        abbreviations_expanded(a + "Lt."@ + b) == a + "Lieutenant"@ + b,
        abbreviations_expanded(a + "Cpl."@ + b) == a + "Corporal"@ + b,
        abbreviations_expanded(a + "Pvt."@ + b) == a + "Private"@ + b,
        abbreviations_expanded(a + "Gen."@ + b) == a + "General"@ + b,
        abbreviations_expanded(a + "Capt."@ + b) == a + "Captain"@ + b,
        abbreviations_expanded(a + "Cmdr."@ + b) == a + "Commander"@ + b,
        abbreviations_expanded(a + "Col."@ + b) == a + "Colonel"@ + b,
        abbreviations_expanded(a + "Maj."@ + b) == a + "Major"@ + b,
        abbreviations_expanded(a + "Gov."@ + b) == a + "Governor"@ + b,
        abbreviations_expanded(a + "Sen."@ + b) == a + "Senator"@ + b,
        abbreviations_expanded(a + "Rep."@ + b) == a + "Representative"@ + b,
        abbreviations_expanded(a + "Pres."@ + b) == a + "President"@ + b,
        abbreviations_expanded(a + "Sec."@ + b) == a + "Secretary"@ + b,
        abbreviations_expanded(a + "Hon."@ + b) == a + "Honorable"@ + b,
        abbreviations_expanded(a + "Rev."@ + b) == a + "Reverend"@ + b,
        abbreviations_expanded(a + "B.C."@ + b) == a + "Before Christ"@ + b,
        abbreviations_expanded(a + "A.D."@ + b) == a + "Anno Domini"@ + b,
        abbreviations_expanded(a + "a.m."@ + b) == a + "in the morning"@ + b,
        abbreviations_expanded(a + "p.m."@ + b) == a + "in the afternoon"@ + b,
        abbreviations_expanded(a + "U.S."@ + b) == a + "United States"@ + b,
        abbreviations_expanded(a + "U.K."@ + b) == a + "United Kingdom"@ + b,
        abbreviations_expanded(a + "U.N."@ + b) == a + "United Nations"@ + b,
        abbreviations_expanded(a + "D.C."@ + b) == a + "District of Columbia"@ + b,
{
    lemma_abbreviation_table_entries();
    lemma_expands_entry(a, b, 0);
    lemma_expands_entry(a, b, 1);
    lemma_expands_entry(a, b, 2);
    lemma_expands_entry(a, b, 3);
    lemma_expands_entry(a, b, 4);
    lemma_expands_entry(a, b, 5);
    lemma_expands_entry(a, b, 6);
    lemma_expands_entry(a, b, 7);
    lemma_expands_entry(a, b, 8);
    lemma_expands_entry(a, b, 9);
    lemma_expands_entry(a, b, 10);
    lemma_expands_entry(a, b, 11);
    lemma_expands_entry(a, b, 12);
    lemma_expands_entry(a, b, 13);
    lemma_expands_entry(a, b, 14);
    lemma_expands_entry(a, b, 15);
    lemma_expands_entry(a, b, 16);
    lemma_expands_entry(a, b, 17);
    lemma_expands_entry(a, b, 18);
    lemma_expands_entry(a, b, 19);
    lemma_expands_entry(a, b, 20);
    lemma_expands_entry(a, b, 21);
    lemma_expands_entry(a, b, 22);
    lemma_expands_entry(a, b, 23);
    lemma_expands_entry(a, b, 24);
    lemma_expands_entry(a, b, 25);
    lemma_expands_entry(a, b, 26);
    lemma_expands_entry(a, b, 27);
    lemma_expands_entry(a, b, 28);
    lemma_expands_entry(a, b, 29);
    lemma_expands_entry(a, b, 30);
    lemma_expands_entry(a, b, 31);
    lemma_expands_entry(a, b, 32);
    lemma_expands_entry(a, b, 33);
    lemma_expands_entry(a, b, 34);
    lemma_expands_entry(a, b, 35);
    lemma_expands_entry(a, b, 36);
    lemma_expands_entry(a, b, 37);
    lemma_expands_entry(a, b, 38);
    lemma_expands_entry(a, b, 39);
    lemma_expands_entry(a, b, 40);
    lemma_expands_entry(a, b, 41);
    lemma_expands_entry(a, b, 42);
    lemma_expands_entry(a, b, 43);
    lemma_expands_entry(a, b, 44);
    lemma_expands_entry(a, b, 45);
    lemma_expands_entry(a, b, 46);
    lemma_expands_entry(a, b, 47);
    lemma_expands_entry(a, b, 48);
}


/// A typographic symbol that narration replaces.
pub open spec fn is_typographic_symbol(c: char) -> bool {
    c == '\u{2014}' || c == '\u{2013}' || c == '\u{2026}' || c == '\u{201C}' || c == '\u{201D}'
        || c == '\u{2018}' || c == '\u{2019}' || c == '\u{00B7}' || c == '\u{2022}' || c == '\u{00A0}'
}

/// `s` holds no typographic symbol.
pub open spec fn symbol_free(s: Seq<char>) -> bool {
    forall|t: int| 0 <= t < s.len() ==> !is_typographic_symbol(#[trigger] s[t])
}

/// `p` is a single typographic symbol.
pub open spec fn single_symbol(p: Seq<char>) -> bool {
    p.len() == 1 && is_typographic_symbol(p[0])
}

proof fn lemma_symbol_free_has_no_match(s: Seq<char>, p: Seq<char>, k: int)
    requires
        symbol_free(s),
        single_symbol(p),
    ensures
        !matches_at(s, k, p),
{
    if matches_at(s, k, p) {
        assert(s.subrange(k, k + 1)[0] == s[k]);
    }
}

proof fn lemma_replace_each_symbol_free(s: Seq<char>, table: Seq<(Seq<char>, Seq<char>)>)
    requires
        symbol_free(s),
        forall|j: int| 0 <= j < table.len() ==> single_symbol(#[trigger] table[j].0),
    ensures
        replace_each(s, table) == s,
    decreases table.len(),
{
    if table.len() > 0 {
        let p = table[0].0;
        assert(single_symbol(p));
        assert forall|k: int| !#[trigger] matches_at(s, k, p) by {
            lemma_symbol_free_has_no_match(s, p, k);
        }
        crate::text::lemma_replace_all_absent(s, p, table[0].1);
        let rest = table.drop_first();
        assert forall|j: int| 0 <= j < rest.len() implies single_symbol(#[trigger] rest[j].0) by {
            assert(rest[j] == table[j + 1]);
        }
        lemma_replace_each_symbol_free(s, rest);
    }
}

/// Replacing the symbol `p` in `a + p + b`, where `a` and `b` hold no
/// symbol, replaces just that occurrence.
proof fn lemma_replace_lone_symbol(a: Seq<char>, p: Seq<char>, b: Seq<char>, w: Seq<char>)
    requires
        symbol_free(a),
        symbol_free(b),
        single_symbol(p),
    ensures
        replace_all(a + p + b, p, w) == a + w + b,
    decreases a.len(),
{
    let s = a + p + b;
    if a.len() == 0 {
        assert(s =~= p + b);
        assert(s.take(1) =~= p);
        assert(s.skip(1) =~= b);
        assert forall|k: int| !#[trigger] matches_at(b, k, p) by {
            lemma_symbol_free_has_no_match(b, p, k);
        }
        crate::text::lemma_replace_all_absent(b, p, w);
        assert(a + w + b =~= w + b);
    } else {
        if s.take(1) == p {
            assert(s.take(1)[0] == a[0]);
        }
        let a2 = a.drop_first();
        assert(symbol_free(a2)) by {
            assert forall|t: int|
                0 <= t < a2.len() implies !is_typographic_symbol(#[trigger] a2[t]) by {
                assert(a2[t] == a[t + 1]);
            }
        }
        lemma_replace_lone_symbol(a2, p, b, w);
        assert(s.drop_first() =~= a2 + p + b);
        assert(seq![s[0]] + (a2 + w + b) =~= a + w + b);
    }
}

/// The symbol at index `i` of the table, among text without symbols, is
/// replaced by its form from the table.
proof fn lemma_symbol_entry(a: Seq<char>, b: Seq<char>, i: int)
    requires
        symbol_free(a),
        symbol_free(b),
        0 <= i < symbol_table().len(),
    ensures
        symbols_replaced(a + symbol_table()[i].0 + b) == a + symbol_table()[i].1 + b,
{
    let table = symbol_table();

    reveal_strlit("\u{2014}");
    reveal_strlit(", ");
    reveal_strlit("\u{2013}");
    reveal_strlit(" to ");
    reveal_strlit("\u{2026}");
    reveal_strlit(".");
    reveal_strlit("\u{201C}");
    reveal_strlit("\"");
    reveal_strlit("\u{201D}");
    reveal_strlit("\"");
    reveal_strlit("\u{2018}");
    reveal_strlit("'");
    reveal_strlit("\u{2019}");
    reveal_strlit("'");
    reveal_strlit("\u{00B7}");
    reveal_strlit(" ");
    reveal_strlit("\u{2022}");
    reveal_strlit("");
    reveal_strlit("\u{00A0}");
    reveal_strlit(" ");
    assert(table.len() == 10);
    assert(table[0] == ("\u{2014}"@, ", "@));
    assert("\u{2014}"@[0] == '\u{2014}');
    assert(table[1] == ("\u{2013}"@, " to "@));
    assert("\u{2013}"@[0] == '\u{2013}');
    assert(table[2] == ("\u{2026}"@, "."@));
    assert("\u{2026}"@[0] == '\u{2026}');
    assert(table[3] == ("\u{201C}"@, "\""@));
    assert("\u{201C}"@[0] == '\u{201C}');
    assert(table[4] == ("\u{201D}"@, "\""@));
    assert("\u{201D}"@[0] == '\u{201D}');
    assert(table[5] == ("\u{2018}"@, "'"@));
    assert("\u{2018}"@[0] == '\u{2018}');
    assert(table[6] == ("\u{2019}"@, "'"@));
    assert("\u{2019}"@[0] == '\u{2019}');
    assert(table[7] == ("\u{00B7}"@, " "@));
    assert("\u{00B7}"@[0] == '\u{00B7}');
    assert(table[8] == ("\u{2022}"@, ""@));
    assert("\u{2022}"@[0] == '\u{2022}');
    assert(table[9] == ("\u{00A0}"@, " "@));
    assert("\u{00A0}"@[0] == '\u{00A0}');
    assert forall|j: int| 0 <= j < table.len() implies single_symbol(#[trigger] table[j].0) by {
        assert(j == 0 || j == 1 || j == 2 || j == 3 || j == 4 || j == 5 || j == 6 || j == 7
            || j == 8 || j == 9);
    }
    assert forall|j: int| 0 <= j < table.len() implies symbol_free(#[trigger] table[j].1) by {
        assert(j == 0 || j == 1 || j == 2 || j == 3 || j == 4 || j == 5 || j == 6 || j == 7
            || j == 8 || j == 9);
    }
    let x = table[i].0;
    let s = a + x + b;
    assert forall|j: int| 0 <= j < i implies (#[trigger] table[j].0).len() > 0 && forall|k: int|
        !matches_at(s, k, table[j].0) by {
        assert(i == 0 || i == 1 || i == 2 || i == 3 || i == 4 || i == 5 || i == 6 || i == 7
            || i == 8 || i == 9);
        assert(j == 0 || j == 1 || j == 2 || j == 3 || j == 4 || j == 5 || j == 6 || j == 7
            || j == 8 || j == 9);
        let p = table[j].0;
        assert(p[0] != x[0]);
        assert forall|k: int| !matches_at(s, k, p) by {
            if matches_at(s, k, p) {
                assert(s.subrange(k, k + 1)[0] == s[k]);
                if k < a.len() {
                    assert(s[k] == a[k]);
                } else if k == a.len() {
                    assert(s[k] == x[0]);
                } else {
                    assert(s[k] == b[k - a.len() - 1]);
                }
            }
        }
    }
    lemma_replace_each_skip(s, table, i);
    let rest = table.skip(i);
    assert(rest[0] == table[i]);
    assert(rest.drop_first() =~= table.skip(i + 1));
    lemma_replace_lone_symbol(a, x, b, table[i].1);
    let after = table.skip(i + 1);
    assert forall|j: int| 0 <= j < after.len() implies single_symbol(#[trigger] after[j].0) by {
        assert(after[j] == table[j + i + 1]);
    }
    let w = table[i].1;
    assert(symbol_free(w));
    assert forall|t: int| 0 <= t < (a + w + b).len() implies !is_typographic_symbol(
        #[trigger] (a + w + b)[t],
    ) by {
        if t < a.len() {
        } else if t < a.len() + w.len() {
            assert((a + w + b)[t] == w[t - a.len()]);
        } else {
            assert((a + w + b)[t] == b[t - a.len() - w.len()]);
        }
    }
    lemma_replace_each_symbol_free(a + w + b, after);
}

/// A typographic symbol among text that holds none is replaced: an em dash
/// by ", ", an en dash by " to ", an ellipsis by ".", curly quotes by
/// straight ones, a middle dot and a no-break space by a space, and a bullet
/// by nothing.
pub proof fn law_symbol_is_replaced(a: Seq<char>, b: Seq<char>)
    requires
        symbol_free(a),
        symbol_free(b),
    ensures
        symbols_replaced(a + seq!['\u{2014}'] + b) == a + ", "@ + b,
        symbols_replaced(a + seq!['\u{2013}'] + b) == a + " to "@ + b,
        symbols_replaced(a + seq!['\u{2026}'] + b) == a + "."@ + b,
        symbols_replaced(a + seq!['\u{201C}'] + b) == a + "\""@ + b,
        symbols_replaced(a + seq!['\u{201D}'] + b) == a + "\""@ + b,
        symbols_replaced(a + seq!['\u{2018}'] + b) == a + "'"@ + b,
        symbols_replaced(a + seq!['\u{2019}'] + b) == a + "'"@ + b,
        symbols_replaced(a + seq!['\u{00B7}'] + b) == a + " "@ + b,
        symbols_replaced(a + seq!['\u{2022}'] + b) == a + ""@ + b,
        symbols_replaced(a + seq!['\u{00A0}'] + b) == a + " "@ + b,
{
    reveal_strlit("\u{2014}");
    reveal_strlit("\u{2013}");
    reveal_strlit("\u{2026}");
    reveal_strlit("\u{201C}");
    reveal_strlit("\u{201D}");
    reveal_strlit("\u{2018}");
    reveal_strlit("\u{2019}");
    reveal_strlit("\u{00B7}");
    reveal_strlit("\u{2022}");
    reveal_strlit("\u{00A0}");
    assert("\u{2014}"@ =~= seq!['\u{2014}']);
    lemma_symbol_entry(a, b, 0);
    assert("\u{2013}"@ =~= seq!['\u{2013}']);
    lemma_symbol_entry(a, b, 1);
    assert("\u{2026}"@ =~= seq!['\u{2026}']);
    lemma_symbol_entry(a, b, 2);
    assert("\u{201C}"@ =~= seq!['\u{201C}']);
    lemma_symbol_entry(a, b, 3);
    assert("\u{201D}"@ =~= seq!['\u{201D}']);
    lemma_symbol_entry(a, b, 4);
    assert("\u{2018}"@ =~= seq!['\u{2018}']);
    lemma_symbol_entry(a, b, 5);
    assert("\u{2019}"@ =~= seq!['\u{2019}']);
    lemma_symbol_entry(a, b, 6);
    assert("\u{00B7}"@ =~= seq!['\u{00B7}']);
    lemma_symbol_entry(a, b, 7);
    assert("\u{2022}"@ =~= seq!['\u{2022}']);
    lemma_symbol_entry(a, b, 8);
    assert("\u{00A0}"@ =~= seq!['\u{00A0}']);
    lemma_symbol_entry(a, b, 9);
}

} // verus!
