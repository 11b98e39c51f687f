//! Building the book model from what an ebook format reader extracts:
//! format dispatch, metadata, and chapters from the table of contents.

use vstd::prelude::*;

use crate::pipeline::classify::{classification_text, classify_role, role_of};
use crate::models::{BookMetadata, Chapter, ChapterRole};
use crate::paths::{ends_with, ends_with_exec, lemma_rewritten_extension_is_xhtml};
use crate::text::{
    before_first, before_first_exec, chars_of, decimal, decimal_string, replace_all, replace_str,
    str_eq, string_of,
};
use crate::xml::opt_view;

verus! {

/// The ebook formats the reader understands.
#[derive(Debug, Clone, Copy, PartialEq, Eq, Structural)]
pub enum EbookFormat {
    Epub,
    Mobi,
    Fb2,
    Cbz,
    Txt,
    Pdf,
    Azw,
}

/// Why an ebook could not be read.
#[derive(Debug, Clone)]
pub enum ReadError {
    /// The detected format is not one the reader understands.
    UnsupportedFormat(String),
}

/// The format a detected format name stands for.
pub open spec fn format_named(name: Seq<char>) -> Option<EbookFormat> {
    if name == "epub"@ {
        Some(EbookFormat::Epub)
    } else if name == "mobi"@ {
        Some(EbookFormat::Mobi)
    } else if name == "fb2"@ {
        Some(EbookFormat::Fb2)
    } else if name == "cbz"@ {
        Some(EbookFormat::Cbz)
    } else if name == "txt"@ {
        Some(EbookFormat::Txt)
    } else if name == "pdf"@ {
        Some(EbookFormat::Pdf)
    } else if name == "azw"@ {
        Some(EbookFormat::Azw)
    } else {
        None
    }
}

/// Chooses the reader for a detected format name.
pub fn ebook_format(name: &str) -> (r: Result<EbookFormat, ReadError>)
    ensures
        format_named(name@) matches Some(f) ==> r matches Ok(g) && g == f,
        format_named(name@) is None ==> (r matches Err(ReadError::UnsupportedFormat(n)) && n@ == name@),
{
    if str_eq(name, "epub") {
        Ok(EbookFormat::Epub)
    } else if str_eq(name, "mobi") {
        Ok(EbookFormat::Mobi)
    } else if str_eq(name, "fb2") {
        Ok(EbookFormat::Fb2)
    } else if str_eq(name, "cbz") {
        Ok(EbookFormat::Cbz)
    } else if str_eq(name, "txt") {
        Ok(EbookFormat::Txt)
    } else if str_eq(name, "pdf") {
        Ok(EbookFormat::Pdf)
    } else if str_eq(name, "azw") {
        Ok(EbookFormat::Azw)
    } else {
        Err(ReadError::UnsupportedFormat(string_of(chars_of(name).as_slice())))
    }
}

/// The last component that `std::path::Path::file_name` finds in `s`.
pub uninterp spec fn path_file_name(s: Seq<char>) -> Option<Seq<char>>;

/// Calls `std::path::Path::file_name` on `s` (then `OsStr::to_str`, which
/// cannot fail on a path made from a `&str`). The final component is named,
/// not stated.
#[verifier::external_body]
fn file_name_of(s: &str) -> (r: Option<String>)
    ensures
        opt_view(r) == path_file_name(s@),
{
    std::path::Path::new(s).file_name().and_then(|n| n.to_str()).map(|n| n.to_string())
}

/// An href turned into a chapter file name: fragment dropped, final path
/// component kept, then `.html`/`.htm` rewritten to `.xhtml` when it ends in
/// an HTML extension, or `.xhtml` appended otherwise.
pub open spec fn sanitized_href(href: Seq<char>) -> Seq<char> {
    let base = before_first(href, '#');
    let stem = match path_file_name(base) {
        Some(n) => n,
        None => base,
    };
    if ends_with(stem, ".xhtml"@) || ends_with(stem, ".html"@) || ends_with(stem, ".htm"@) {
        replace_all(replace_all(stem, ".html"@, ".xhtml"@), ".htm"@, ".xhtml"@)
    } else {
        stem + ".xhtml"@
    }
}

/// Turns a TOC href into a chapter file name.
/// Every file name `sanitized_href` gives is an `.xhtml` name.
pub proof fn lemma_sanitized_href_is_xhtml(href: Seq<char>)
    ensures
        ends_with(sanitized_href(href), ".xhtml"@),
{
    let base = before_first(href, '#');
    let stem = match path_file_name(base) {
        Some(n) => n,
        None => base,
    };
    if ends_with(stem, ".xhtml"@) || ends_with(stem, ".html"@) || ends_with(stem, ".htm"@) {
        lemma_rewritten_extension_is_xhtml(stem);
    } else {
        assert((stem + ".xhtml"@).skip((stem + ".xhtml"@).len() - ".xhtml"@.len()) =~= ".xhtml"@);
    }
}

pub fn sanitize_href(href: &str) -> (r: String)
    ensures
        r@ == sanitized_href(href@),
        ends_with(r@, ".xhtml"@),
{
    proof {
        lemma_sanitized_href_is_xhtml(href@);
    }
    let base = before_first_exec(href, '#');
    let stem = match file_name_of(base.as_str()) {
        Some(n) => n,
        None => base,
    };
    if ends_with_exec(stem.as_str(), ".xhtml") || ends_with_exec(stem.as_str(), ".html")
        || ends_with_exec(stem.as_str(), ".htm") {
        let a = replace_str(stem.as_str(), ".html", ".xhtml");
        replace_str(a.as_str(), ".htm", ".xhtml")
    } else {
        let mut r = string_of(chars_of(stem.as_str()).as_slice());
        r.append(".xhtml");
        r
    }
}

/// `n` in decimal, padded with zeros to at least three digits.
pub open spec fn padded3(n: nat) -> Seq<char> {
    let d = decimal(n);
    if d.len() >= 3 {
        d
    } else if d.len() == 2 {
        seq!['0'] + d
    } else {
        seq!['0', '0'] + d
    }
}

/// The file name of the `n`-th chapter (counting from 1): `chapter_NNN.xhtml`.
pub open spec fn numbered_chapter_file(n: nat) -> Seq<char> {
    "chapter_"@ + padded3(n) + ".xhtml"@
}

/// `chapter_NNN.xhtml` for `n`.
pub fn numbered_chapter_filename(n: usize) -> (r: String)
    ensures
        r@ == numbered_chapter_file(n as nat),
{
    let d = decimal_string(n as u64);
    let dv = chars_of(d.as_str());
    let mut r = String::from_str("chapter_");
    if dv.len() == 2 {
        r.append("0");
    } else if dv.len() < 2 {
        r.append("00");
    }
    r.append(d.as_str());
    r.append(".xhtml");
    proof {
        reveal_strlit("0");
        reveal_strlit("00");
        assert(decimal(n as nat).len() >= 1) by {
            crate::pipeline::reader::lemma_decimal_nonempty(n as nat);
        }
    }
    r
}

pub proof fn lemma_decimal_nonempty(n: nat)
    ensures
        decimal(n).len() >= 1,
    decreases n,
{
    if n >= 10 {
        lemma_decimal_nonempty(n / 10);
    }
}

} // verus!

verus! {

/// One table-of-contents entry a format reader reports.
#[derive(Debug, Clone)]
pub struct TocEntry {
    pub title: String,
    pub href: Option<String>,
}

/// An image a format reader extracts.
#[derive(Debug, Clone)]
pub struct ImageData {
    pub name: String,
    pub data: Vec<u8>,
    pub mime_type: String,
}

/// The metadata a format reader extracts.
#[derive(Debug, Clone)]
pub struct SourceMetadata {
    pub title: Option<String>,
    pub author: Option<String>,
    pub publisher: Option<String>,
    pub description: Option<String>,
    pub language: Option<String>,
    pub isbn: Option<String>,
    pub publication_date: Option<String>,
    pub cover_image: Option<Vec<u8>>,
    pub tags: Option<Vec<String>>,
}

/// A book as read: metadata, chapters and images.
pub struct ReadResult {
    pub metadata: BookMetadata,
    pub chapters: Vec<Chapter>,
    pub images: Vec<ImageData>,
}

/// The book metadata taken over from the source metadata: every field as it
/// is, no cover media type, and no tags when the source has none.
pub open spec fn metadata_taken_over(m: BookMetadata, src: SourceMetadata) -> bool {
    &&& m.title == src.title
    &&& m.author == src.author
    &&& m.publisher == src.publisher
    &&& m.description == src.description
    &&& m.language == src.language
    &&& m.isbn == src.isbn
    &&& m.publication_date == src.publication_date
    &&& m.cover_image == src.cover_image
    &&& m.cover_mime is None
    &&& match src.tags {
        Some(t) => m.tags == t,
        None => m.tags@.len() == 0,
    }
}

/// Takes over the metadata a format reader extracted.
pub fn metadata_from_source(src: SourceMetadata) -> (m: BookMetadata)
    ensures
        metadata_taken_over(m, src),
{
    let tags = match src.tags {
        Some(t) => t,
        None => Vec::new(),
    };
    BookMetadata {
        title: src.title,
        author: src.author,
        publisher: src.publisher,
        description: src.description,
        language: src.language,
        isbn: src.isbn,
        publication_date: src.publication_date,
        cover_image: src.cover_image,
        cover_mime: None,
        tags,
    }
}

/// The single chapter of a book without a TOC: the whole content, titled by
/// the book title (or "Content"), in `chapter_001.xhtml`.
pub open spec fn whole_book_chapter(book_title: Option<Seq<char>>, content: Seq<char>) -> (Seq<char>, Seq<char>, Seq<char>, ChapterRole) {
    let t = match book_title {
        Some(t) => t,
        None => "Content"@,
    };
    (t, content, "chapter_001.xhtml"@, role_of(classification_text(t, "chapter_001.xhtml"@)))
}

/// The chapter of TOC entry `i` (counting from 0): its title, the whole
/// book content, its sanitized href or `chapter_NNN.xhtml` as file name,
/// and the role its title and file name give.
pub open spec fn toc_chapter(i: int, title: Seq<char>, href: Option<Seq<char>>, content: Seq<char>) -> (Seq<char>, Seq<char>, Seq<char>, ChapterRole) {
    let filename = match href {
        Some(h) => sanitized_href(h),
        None => numbered_chapter_file((i + 1) as nat),
    };
    (title, content, filename, role_of(classification_text(title, filename)))
}

/// One chapter per TOC entry, each holding the whole book content.
pub fn build_chapters_from_toc(toc: Vec<TocEntry>, full_content: &str) -> (r: Vec<Chapter>)
    ensures
        r.len() == toc.len(),
        forall|i: int|
            0 <= i < r.len() ==> crate::pipeline::epub_reader::chapter_view(#[trigger] r@[i]) == toc_chapter(
                i,
                toc@[i].title@,
                opt_view(toc@[i].href),
                full_content@,
            ),
{
    let mut out: Vec<Chapter> = Vec::new();
    let mut i: usize = 0;
    while i < toc.len()
        invariant
            i <= toc.len(),
            out.len() == i,
            forall|j: int|
                0 <= j < i ==> crate::pipeline::epub_reader::chapter_view(#[trigger] out@[j]) == toc_chapter(
                    j,
                    toc@[j].title@,
                    opt_view(toc@[j].href),
                    full_content@,
                ),
        decreases toc.len() - i,
    {
        let entry = &toc[i];
        let filename = match &entry.href {
            Some(h) => sanitize_href(h.as_str()),
            None => numbered_chapter_filename(i + 1),
        };
        let title = entry.title.clone();
        let role = classify_role(title.as_str(), filename.as_str());
        let content = string_of(chars_of(full_content).as_slice());
        out.push(Chapter { title, content, filename, role });
        i = i + 1;
    }
    out
}

/// The chapters of a book: one per TOC entry, or, with no TOC, the whole
/// content as one chapter titled by the book title (or "Content") in
/// `chapter_001.xhtml`.
pub fn chapters_for(book_title: &Option<String>, toc: Vec<TocEntry>, raw_content: String) -> (r: Vec<Chapter>)
    ensures
        toc.len() == 0 ==> r.len() == 1 && crate::pipeline::epub_reader::chapter_view(r@[0])
            == whole_book_chapter(opt_view(*book_title), raw_content@),
        toc.len() > 0 ==> r.len() == toc.len() && forall|i: int|
            0 <= i < r.len() ==> crate::pipeline::epub_reader::chapter_view(#[trigger] r@[i]) == toc_chapter(
                i,
                toc@[i].title@,
                opt_view(toc@[i].href),
                raw_content@,
            ),
{
    if toc.len() == 0 {
        let title = match book_title {
            Some(t) => t.clone(),
            None => String::from_str("Content"),
        };
        let filename = String::from_str("chapter_001.xhtml");
        let role = classify_role(title.as_str(), filename.as_str());
        let mut v: Vec<Chapter> = Vec::new();
        v.push(Chapter { title, content: raw_content, filename, role });
        v
    } else {
        build_chapters_from_toc(toc, raw_content.as_str())
    }
}

/// Assembles what a format reader extracted into the book model.
pub fn assemble_read_result(
    meta: SourceMetadata,
    toc: Vec<TocEntry>,
    raw_content: String,
    images: Vec<ImageData>,
) -> (r: ReadResult)
    ensures
        metadata_taken_over(r.metadata, meta),
        r.images@ == images@,
        toc.len() == 0 ==> r.chapters.len() == 1 && crate::pipeline::epub_reader::chapter_view(r.chapters@[0])
            == whole_book_chapter(opt_view(meta.title), raw_content@),
        toc.len() > 0 ==> r.chapters.len() == toc.len() && forall|i: int|
            0 <= i < r.chapters.len() ==> crate::pipeline::epub_reader::chapter_view(#[trigger] r.chapters@[i])
                == toc_chapter(i, toc@[i].title@, opt_view(toc@[i].href), raw_content@),
        forall|i: int| 0 <= i < r.chapters.len() ==> ends_with((#[trigger] r.chapters@[i]).filename@, ".xhtml"@),
{
    let metadata = metadata_from_source(meta);
    let chapters = chapters_for(&metadata.title, toc, raw_content);
    proof {
        assert forall|i: int| 0 <= i < chapters.len() implies ends_with((#[trigger] chapters@[i]).filename@, ".xhtml"@) by {
            reveal_strlit("chapter_001.xhtml");
            reveal_strlit(".xhtml");
            if toc.len() == 0 {
                assert("chapter_001.xhtml"@.skip(11) =~= ".xhtml"@);
            } else {
                match toc@[i].href {
                    Some(h) => lemma_sanitized_href_is_xhtml(h@),
                    None => {
                        let f = numbered_chapter_file((i + 1) as nat);
                        assert(f.skip(f.len() - 6) =~= ".xhtml"@);
                    },
                }
            }
        }
    }
    ReadResult { metadata, chapters, images }
}

} // verus!
