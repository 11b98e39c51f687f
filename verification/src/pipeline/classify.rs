//! Chapter-role classification.
//!
//! Tags each chapter as front matter, body, or back matter so the audio path
//! can skip material that is miserable to listen to (indexes, bibliographies,
//! notes, copyright pages, ...). The EPUB output keeps every chapter.
//! Classification looks at the lowercased chapter title and source filename.

use vstd::prelude::*;

use crate::models::ChapterRole;
use crate::text::{chars_of, contains_chars, contains_seq, lowercased, to_lowercase};

verus! {

/// Strong body signals, checked first so an "Introduction" or "Epilogue" is
/// never filed as front or back matter.
pub open spec fn body_signals() -> Seq<Seq<char>> {
    seq![
        "chapter"@,
        "introduction"@,
        "prologue"@,
        "epilogue"@,
        "conclusion"@,
        "afterword"@,
        "part "@,
    ]
}

/// Back-matter signals: content typically not worth listening to.
pub open spec fn back_signals() -> Seq<Seq<char>> {
    seq![
        "index"@,
        "bibliograph"@,
        "glossary"@,
        "appendix"@,
        "references"@,
        "endnote"@,
        "colophon"@,
        "about the author"@,
        "further reading"@,
        "permissions"@,
        "credits"@,
        "notes"@,
        "_bm"@,
        "backmatter"@,
    ]
}

/// Front-matter signals: everything before the real content begins.
pub open spec fn front_signals() -> Seq<Seq<char>> {
    seq![
        "cover"@,
        "half title"@,
        "halftitle"@,
        "half-title"@,
        "title page"@,
        "titlepage"@,
        "frontispiece"@,
        "copyright"@,
        "dedication"@,
        "contents"@,
        "table of contents"@,
        "toc"@,
        "acknowledg"@,
        "foreword"@,
        "preface"@,
        "epigraph"@,
        "also by"@,
        "praise for"@,
        "imprint"@,
        "list of illustrations"@,
        "list of figures"@,
        "list of tables"@,
        "_fm"@,
        "frontmatter"@,
    ]
}

/// `hay` contains at least one of `signals`.
pub open spec fn mentions_any(hay: Seq<char>, signals: Seq<Seq<char>>) -> bool {
    exists|i: int| 0 <= i < signals.len() && contains_seq(hay, #[trigger] signals[i])
}

/// The role a lowercased "title filename" text indicates: body signals win,
/// then back matter, then front matter; anything else is body.
pub open spec fn role_of(hay: Seq<char>) -> ChapterRole {
    if mentions_any(hay, body_signals()) {
        ChapterRole::Body
    } else if mentions_any(hay, back_signals()) {
        ChapterRole::BackMatter
    } else if mentions_any(hay, front_signals()) {
        ChapterRole::FrontMatter
    } else {
        ChapterRole::Body
    }
}

/// The text that classification searches: lowercased title, a space,
/// lowercased filename.
pub open spec fn classification_text(title: Seq<char>, filename: Seq<char>) -> Seq<char> {
    lowercased(title) + seq![' '] + lowercased(filename)
}

pub open spec fn str_views(v: Seq<&str>) -> Seq<Seq<char>> {
    v.map_values(|s: &str| s@)
}

fn body_signal_list() -> (v: Vec<&'static str>)
    ensures
        str_views(v@) == body_signals(),
{
    let v = vec!["chapter", "introduction", "prologue", "epilogue", "conclusion", "afterword", "part "];
    assert(str_views(v@) =~= body_signals());
    v
}

fn back_signal_list() -> (v: Vec<&'static str>)
    ensures
        str_views(v@) == back_signals(),
{
    let v = vec![
        "index",
        "bibliograph",
        "glossary",
        "appendix",
        "references",
        "endnote",
        "colophon",
        "about the author",
        "further reading",
        "permissions",
        "credits",
        "notes",
        "_bm",
        "backmatter",
    ];
    assert(str_views(v@) =~= back_signals());
    v
}

fn front_signal_list() -> (v: Vec<&'static str>)
    ensures
        str_views(v@) == front_signals(),
{
    let v = vec![
        "cover",
        "half title",
        "halftitle",
        "half-title",
        "title page",
        "titlepage",
        "frontispiece",
        "copyright",
        "dedication",
        "contents",
        "table of contents",
        "toc",
        "acknowledg",
        "foreword",
        "preface",
        "epigraph",
        "also by",
        "praise for",
        "imprint",
        "list of illustrations",
        "list of figures",
        "list of tables",
        "_fm",
        "frontmatter",
    ];
    assert(str_views(v@) =~= front_signals());
    v
}

fn mentions_any_exec(hay: &[char], signals: &Vec<&'static str>) -> (b: bool)
    ensures
        b == mentions_any(hay@, str_views(signals@)),
{
    let mut i: usize = 0;
    while i < signals.len()
        invariant
            i <= signals.len(),
            forall|j: int| 0 <= j < i ==> !contains_seq(hay@, #[trigger] str_views(signals@)[j]),
        decreases signals.len() - i,
    {
        let pat = chars_of(signals[i]);
        if contains_chars(hay, pat.as_slice()) {
            assert(contains_seq(hay@, str_views(signals@)[i as int]));
            return true;
        }
        i = i + 1;
    }
    false
}

/// Classifies an already lowercased "title filename" text.
pub fn classify_text(hay: &str) -> (r: ChapterRole)
    ensures
        r == role_of(hay@),
{
    let v = chars_of(hay);
    if mentions_any_exec(v.as_slice(), &body_signal_list()) {
        ChapterRole::Body
    } else if mentions_any_exec(v.as_slice(), &back_signal_list()) {
        ChapterRole::BackMatter
    } else if mentions_any_exec(v.as_slice(), &front_signal_list()) {
        ChapterRole::FrontMatter
    } else {
        ChapterRole::Body
    }
}

/// Classifies a chapter from its title and source filename.
///
/// Precedence: body signals win first (so "Introduction" stays body), then
/// back matter, then front matter. Anything unrecognized is body, so genuine
/// content with a descriptive title is never dropped from the audio.
pub fn classify_role(title: &str, filename: &str) -> (r: ChapterRole)
    ensures
        r == role_of(classification_text(title@, filename@)),
{
    let mut hay = to_lowercase(title);
    hay.append(" ");
    let lower_file = to_lowercase(filename);
    hay.append(lower_file.as_str());
    proof {
        reveal_strlit(" ");
    }
    assert(hay@ =~= classification_text(title@, filename@));
    classify_text(hay.as_str())
}

/// Body signals take precedence, back matter comes before front matter, and
/// text with no signal at all is body.
pub proof fn law_role_precedence(hay: Seq<char>)
    ensures
        mentions_any(hay, body_signals()) ==> role_of(hay) == ChapterRole::Body,
        !mentions_any(hay, body_signals()) && mentions_any(hay, back_signals()) ==> role_of(hay)
            == ChapterRole::BackMatter,
        !mentions_any(hay, body_signals()) && !mentions_any(hay, back_signals()) && mentions_any(
            hay,
            front_signals(),
        ) ==> role_of(hay) == ChapterRole::FrontMatter,
        !mentions_any(hay, body_signals()) && !mentions_any(hay, back_signals())
            && !mentions_any(hay, front_signals()) ==> role_of(hay) == ChapterRole::Body,
{
}

} // verus!

verus! {

/// The words that mark a chapter as body: any of them makes it body.
pub open spec fn is_body_word(k: Seq<char>) -> bool {
    k == "chapter"@
        || k == "introduction"@
        || k == "prologue"@
        || k == "epilogue"@
        || k == "conclusion"@
        || k == "afterword"@
        || k == "part "@
}

/// The words that mark back matter.
pub open spec fn is_back_word(k: Seq<char>) -> bool {
    k == "index"@
        || k == "bibliograph"@
        || k == "glossary"@
        || k == "appendix"@
        || k == "references"@
        || k == "endnote"@
        || k == "colophon"@
        || k == "about the author"@
        || k == "further reading"@
        || k == "permissions"@
        || k == "credits"@
        || k == "notes"@
        || k == "_bm"@
        || k == "backmatter"@
}

/// The words that mark front matter.
pub open spec fn is_front_word(k: Seq<char>) -> bool {
    k == "cover"@
        || k == "half title"@
        || k == "halftitle"@
        || k == "half-title"@
        || k == "title page"@
        || k == "titlepage"@
        || k == "frontispiece"@
        || k == "copyright"@
        || k == "dedication"@
        || k == "contents"@
        || k == "table of contents"@
        || k == "toc"@
        || k == "acknowledg"@
        || k == "foreword"@
        || k == "preface"@
        || k == "epigraph"@
        || k == "also by"@
        || k == "praise for"@
        || k == "imprint"@
        || k == "list of illustrations"@
        || k == "list of figures"@
        || k == "list of tables"@
        || k == "_fm"@
        || k == "frontmatter"@
}

proof fn lemma_body_word_signals(hay: Seq<char>, k: Seq<char>)
    requires
        is_body_word(k),
        contains_seq(hay, k),
    ensures
        mentions_any(hay, body_signals()),
{
    if k == "chapter"@ {
        assert(body_signals()[0] == k);
    } else if k == "introduction"@ {
        assert(body_signals()[1] == k);
    } else if k == "prologue"@ {
        assert(body_signals()[2] == k);
    } else if k == "epilogue"@ {
        assert(body_signals()[3] == k);
    } else if k == "conclusion"@ {
        assert(body_signals()[4] == k);
    } else if k == "afterword"@ {
        assert(body_signals()[5] == k);
    } else if k == "part "@ {
        assert(body_signals()[6] == k);
    }
}

proof fn lemma_back_word_signals(hay: Seq<char>, k: Seq<char>)
    requires
        is_back_word(k),
        contains_seq(hay, k),
    ensures
        mentions_any(hay, back_signals()),
{
    if k == "index"@ {
        assert(back_signals()[0] == k);
    } else if k == "bibliograph"@ {
        assert(back_signals()[1] == k);
    } else if k == "glossary"@ {
        assert(back_signals()[2] == k);
    } else if k == "appendix"@ {
        assert(back_signals()[3] == k);
    } else if k == "references"@ {
        assert(back_signals()[4] == k);
    } else if k == "endnote"@ {
        assert(back_signals()[5] == k);
    } else if k == "colophon"@ {
        assert(back_signals()[6] == k);
    } else if k == "about the author"@ {
        assert(back_signals()[7] == k);
    } else if k == "further reading"@ {
        assert(back_signals()[8] == k);
    } else if k == "permissions"@ {
        assert(back_signals()[9] == k);
    } else if k == "credits"@ {
        assert(back_signals()[10] == k);
    } else if k == "notes"@ {
        assert(back_signals()[11] == k);
    } else if k == "_bm"@ {
        assert(back_signals()[12] == k);
    } else if k == "backmatter"@ {
        assert(back_signals()[13] == k);
    }
}

proof fn lemma_front_word_signals(hay: Seq<char>, k: Seq<char>)
    requires
        is_front_word(k),
        contains_seq(hay, k),
    ensures
        mentions_any(hay, front_signals()),
{
    if k == "cover"@ {
        assert(front_signals()[0] == k);
    } else if k == "half title"@ {
        assert(front_signals()[1] == k);
    } else if k == "halftitle"@ {
        assert(front_signals()[2] == k);
    } else if k == "half-title"@ {
        assert(front_signals()[3] == k);
    } else if k == "title page"@ {
        assert(front_signals()[4] == k);
    } else if k == "titlepage"@ {
        assert(front_signals()[5] == k);
    } else if k == "frontispiece"@ {
        assert(front_signals()[6] == k);
    } else if k == "copyright"@ {
        assert(front_signals()[7] == k);
    } else if k == "dedication"@ {
        assert(front_signals()[8] == k);
    } else if k == "contents"@ {
        assert(front_signals()[9] == k);
    } else if k == "table of contents"@ {
        assert(front_signals()[10] == k);
    } else if k == "toc"@ {
        assert(front_signals()[11] == k);
    } else if k == "acknowledg"@ {
        assert(front_signals()[12] == k);
    } else if k == "foreword"@ {
        assert(front_signals()[13] == k);
    } else if k == "preface"@ {
        assert(front_signals()[14] == k);
    } else if k == "epigraph"@ {
        assert(front_signals()[15] == k);
    } else if k == "also by"@ {
        assert(front_signals()[16] == k);
    } else if k == "praise for"@ {
        assert(front_signals()[17] == k);
    } else if k == "imprint"@ {
        assert(front_signals()[18] == k);
    } else if k == "list of illustrations"@ {
        assert(front_signals()[19] == k);
    } else if k == "list of figures"@ {
        assert(front_signals()[20] == k);
    } else if k == "list of tables"@ {
        assert(front_signals()[21] == k);
    } else if k == "_fm"@ {
        assert(front_signals()[22] == k);
    } else if k == "frontmatter"@ {
        assert(front_signals()[23] == k);
    }
}

proof fn lemma_no_body_signal(hay: Seq<char>)
    requires
        forall|k: Seq<char>| is_body_word(k) ==> !contains_seq(hay, k),
    ensures
        !mentions_any(hay, body_signals()),
{
    assert forall|i: int| 0 <= i < body_signals().len() implies !contains_seq(hay, #[trigger] body_signals()[i]) by {
        if i == 0 {
            assert(body_signals()[i] == "chapter"@);
        } else if i == 1 {
            assert(body_signals()[i] == "introduction"@);
        } else if i == 2 {
            assert(body_signals()[i] == "prologue"@);
        } else if i == 3 {
            assert(body_signals()[i] == "epilogue"@);
        } else if i == 4 {
            assert(body_signals()[i] == "conclusion"@);
        } else if i == 5 {
            assert(body_signals()[i] == "afterword"@);
        } else if i == 6 {
            assert(body_signals()[i] == "part "@);
        }
        assert(is_body_word(body_signals()[i]));
    }
}

proof fn lemma_no_back_signal(hay: Seq<char>)
    requires
        forall|k: Seq<char>| is_back_word(k) ==> !contains_seq(hay, k),
    ensures
        !mentions_any(hay, back_signals()),
{
    assert forall|i: int| 0 <= i < back_signals().len() implies !contains_seq(hay, #[trigger] back_signals()[i]) by {
        if i == 0 {
            assert(back_signals()[i] == "index"@);
        } else if i == 1 {
            assert(back_signals()[i] == "bibliograph"@);
        } else if i == 2 {
            assert(back_signals()[i] == "glossary"@);
        } else if i == 3 {
            assert(back_signals()[i] == "appendix"@);
        } else if i == 4 {
            assert(back_signals()[i] == "references"@);
        } else if i == 5 {
            assert(back_signals()[i] == "endnote"@);
        } else if i == 6 {
            assert(back_signals()[i] == "colophon"@);
        } else if i == 7 {
            assert(back_signals()[i] == "about the author"@);
        } else if i == 8 {
            assert(back_signals()[i] == "further reading"@);
        } else if i == 9 {
            assert(back_signals()[i] == "permissions"@);
        } else if i == 10 {
            assert(back_signals()[i] == "credits"@);
        } else if i == 11 {
            assert(back_signals()[i] == "notes"@);
        } else if i == 12 {
            assert(back_signals()[i] == "_bm"@);
        } else if i == 13 {
            assert(back_signals()[i] == "backmatter"@);
        }
        assert(is_back_word(back_signals()[i]));
    }
}

proof fn lemma_no_front_signal(hay: Seq<char>)
    requires
        forall|k: Seq<char>| is_front_word(k) ==> !contains_seq(hay, k),
    ensures
        !mentions_any(hay, front_signals()),
{
    assert forall|i: int| 0 <= i < front_signals().len() implies !contains_seq(hay, #[trigger] front_signals()[i]) by {
        if i == 0 {
            assert(front_signals()[i] == "cover"@);
        } else if i == 1 {
            assert(front_signals()[i] == "half title"@);
        } else if i == 2 {
            assert(front_signals()[i] == "halftitle"@);
        } else if i == 3 {
            assert(front_signals()[i] == "half-title"@);
        } else if i == 4 {
            assert(front_signals()[i] == "title page"@);
        } else if i == 5 {
            assert(front_signals()[i] == "titlepage"@);
        } else if i == 6 {
            assert(front_signals()[i] == "frontispiece"@);
        } else if i == 7 {
            assert(front_signals()[i] == "copyright"@);
        } else if i == 8 {
            assert(front_signals()[i] == "dedication"@);
        } else if i == 9 {
            assert(front_signals()[i] == "contents"@);
        } else if i == 10 {
            assert(front_signals()[i] == "table of contents"@);
        } else if i == 11 {
            assert(front_signals()[i] == "toc"@);
        } else if i == 12 {
            assert(front_signals()[i] == "acknowledg"@);
        } else if i == 13 {
            assert(front_signals()[i] == "foreword"@);
        } else if i == 14 {
            assert(front_signals()[i] == "preface"@);
        } else if i == 15 {
            assert(front_signals()[i] == "epigraph"@);
        } else if i == 16 {
            assert(front_signals()[i] == "also by"@);
        } else if i == 17 {
            assert(front_signals()[i] == "praise for"@);
        } else if i == 18 {
            assert(front_signals()[i] == "imprint"@);
        } else if i == 19 {
            assert(front_signals()[i] == "list of illustrations"@);
        } else if i == 20 {
            assert(front_signals()[i] == "list of figures"@);
        } else if i == 21 {
            assert(front_signals()[i] == "list of tables"@);
        } else if i == 22 {
            assert(front_signals()[i] == "_fm"@);
        } else if i == 23 {
            assert(front_signals()[i] == "frontmatter"@);
        }
        assert(is_front_word(front_signals()[i]));
    }
}

/// Text that mentions any body word ("chapter", "introduction",
/// "prologue", "epilogue", "conclusion", "afterword", "part ") is body.
pub proof fn law_body_word_makes_body(hay: Seq<char>, k: Seq<char>)
    requires
        is_body_word(k),
        contains_seq(hay, k),
    ensures
        role_of(hay) == ChapterRole::Body,
{
    lemma_body_word_signals(hay, k);
}

/// Text without a body word that mentions any back-matter word ("index",
/// "bibliograph", "glossary", "appendix", "references", "endnote",
/// "colophon", "about the author", "further reading", "permissions",
/// "credits", "notes", "_bm", "backmatter") is back matter.
pub proof fn law_back_word_makes_back_matter(hay: Seq<char>, k: Seq<char>)
    requires
        is_back_word(k),
        contains_seq(hay, k),
        forall|b: Seq<char>| is_body_word(b) ==> !contains_seq(hay, b),
    ensures
        role_of(hay) == ChapterRole::BackMatter,
{
    lemma_no_body_signal(hay);
    lemma_back_word_signals(hay, k);
}

/// Text without a body or back-matter word that mentions any front-matter
/// word ("cover", "title page", "copyright", "dedication", "contents",
/// "toc", "acknowledg", "foreword", "preface", ...) is front matter.
pub proof fn law_front_word_makes_front_matter(hay: Seq<char>, k: Seq<char>)
    requires
        is_front_word(k),
        contains_seq(hay, k),
        forall|b: Seq<char>| is_body_word(b) ==> !contains_seq(hay, b),
        forall|b: Seq<char>| is_back_word(b) ==> !contains_seq(hay, b),
    ensures
        role_of(hay) == ChapterRole::FrontMatter,
{
    lemma_no_body_signal(hay);
    lemma_no_back_signal(hay);
    lemma_front_word_signals(hay, k);
}

/// Text with none of the words is body, so no real content is dropped.
pub proof fn law_unmarked_text_is_body(hay: Seq<char>)
    requires
        forall|b: Seq<char>| is_body_word(b) ==> !contains_seq(hay, b),
        forall|b: Seq<char>| is_back_word(b) ==> !contains_seq(hay, b),
        forall|b: Seq<char>| is_front_word(b) ==> !contains_seq(hay, b),
    ensures
        role_of(hay) == ChapterRole::Body,
{
    lemma_no_body_signal(hay);
    lemma_no_back_signal(hay);
    lemma_no_front_signal(hay);
}

} // verus!
