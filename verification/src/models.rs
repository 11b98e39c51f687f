//! The book model shared by the pipeline: metadata, chapters, options and the
//! HTTP response bodies.

use vstd::prelude::*;

use crate::text::{chars_of, trim, trimmed};

verus! {

/// Where a chapter sits in the book, which decides whether it is narrated.
#[derive(Debug, Clone, Copy, PartialEq, Eq, Structural)]
pub enum ChapterRole {
    FrontMatter,
    Body,
    BackMatter,
}

/// The EPUB version to produce.
#[derive(Debug, Clone, Copy, PartialEq, Eq, Structural)]
pub enum EpubVersion {
    V2,
    V3,
}

impl Default for EpubVersion {
    fn default() -> (v: Self)
        ensures
            v == EpubVersion::V3,
    {
        EpubVersion::V3
    }
}

/// A version string that names no EPUB version this tool produces.
#[derive(Debug, Clone)]
pub struct UnknownEpubVersion {
    pub input: String,
}

impl UnknownEpubVersion {
    /// The message shown to the user.
    pub fn message(&self) -> (m: String)
        ensures
            m@ == "unknown epub version: "@ + self.input@ + "; use 2 or 3"@,
    {
        let mut m = String::from_str("unknown epub version: ");
        m.append(self.input.as_str());
        m.append("; use 2 or 3");
        m
    }
}

/// The version a trimmed version string names, if any.
pub open spec fn version_named(t: Seq<char>) -> Option<EpubVersion> {
    if t == "2"@ || t == "v2"@ || t == "V2"@ {
        Some(EpubVersion::V2)
    } else if t == "3"@ || t == "v3"@ || t == "V3"@ {
        Some(EpubVersion::V3)
    } else {
        None
    }
}

fn seq_eq_str(v: &Vec<char>, lit: &str) -> (b: bool)
    ensures
        b == (v@ == lit@),
{
    let w = chars_of(lit);
    if v.len() != w.len() {
        return false;
    }
    let mut i: usize = 0;
    while i < v.len()
        invariant
            i <= v.len() == w.len(),
            w@ == lit@,
            forall|j: int| 0 <= j < i ==> v@[j] == w@[j],
        decreases v.len() - i,
    {
        if v[i] != w[i] {
            return false;
        }
        i = i + 1;
    }
    assert(v@ =~= w@);
    true
}

impl EpubVersion {
    /// Parses "2", "v2", "V2", "3", "v3" or "V3", ignoring surrounding white space.
    pub fn parse(s: &str) -> (r: Result<EpubVersion, UnknownEpubVersion>)
        ensures
            version_named(trimmed(s@)) matches Some(v) ==> r == Ok::<
                EpubVersion,
                UnknownEpubVersion,
            >(v),
            version_named(trimmed(s@)) is None ==> (r matches Err(e) && e.input@ == trimmed(s@)),
    {
        let t = trim(s);
        let v = chars_of(t.as_str());
        if seq_eq_str(&v, "2") || seq_eq_str(&v, "v2") || seq_eq_str(&v, "V2") {
            Ok(EpubVersion::V2)
        } else if seq_eq_str(&v, "3") || seq_eq_str(&v, "v3") || seq_eq_str(&v, "V3") {
            Ok(EpubVersion::V3)
        } else {
            Err(UnknownEpubVersion { input: t })
        }
    }
}

impl std::str::FromStr for EpubVersion {
    type Err = UnknownEpubVersion;

    fn from_str(s: &str) -> (r: Result<Self, Self::Err>)
        ensures
            version_named(trimmed(s@)) matches Some(v) ==> r == Ok::<EpubVersion, UnknownEpubVersion>(v),
            version_named(trimmed(s@)) is None ==> (r matches Err(e) && e.input@ == trimmed(s@)),
    {
        EpubVersion::parse(s)
    }
}

/// Book-level metadata.
#[derive(Debug, Clone)]
pub struct BookMetadata {
    pub title: Option<String>,
    pub author: Option<String>,
    pub publisher: Option<String>,
    pub description: Option<String>,
    pub language: Option<String>,
    pub isbn: Option<String>,
    pub publication_date: Option<String>,
    pub cover_image: Option<Vec<u8>>,
    pub cover_mime: Option<String>,
    pub tags: Vec<String>,
}

impl Default for BookMetadata {
    fn default() -> (m: Self)
        ensures
            m.title is None,
            m.author is None,
            m.publisher is None,
            m.description is None,
            m.language is None,
            m.isbn is None,
            m.publication_date is None,
            m.cover_image is None,
            m.cover_mime is None,
            m.tags@.len() == 0,
    {
        BookMetadata {
            title: None,
            author: None,
            publisher: None,
            description: None,
            language: None,
            isbn: None,
            publication_date: None,
            cover_image: None,
            cover_mime: None,
            tags: Vec::new(),
        }
    }
}

/// One chapter of a book: its title, its markup, the file it came from and
/// its role.
#[derive(Debug, Clone)]
pub struct Chapter {
    pub title: String,
    pub content: String,
    pub filename: String,
    pub role: ChapterRole,
}

/// A single chapter reduced to plain text (no markup) plus the book-level
/// metadata needed to tag downstream artifacts such as audio files.
#[derive(Debug, Clone)]
pub struct ChapterText {
    pub chapter_number: usize,
    pub title: String,
    pub filename: String,
    pub page_range: Option<String>,
    pub role: ChapterRole,
    /// The readable text of the chapter, with all markup stripped.
    pub text: String,
    pub book_title: Option<String>,
    pub author: Option<String>,
    pub language: Option<String>,
    pub isbn: Option<String>,
    pub publisher: Option<String>,
    pub publication_date: Option<String>,
}

/// Options of one conversion.
#[derive(Debug, Clone)]
pub struct ConvertOptions {
    pub epub_version: EpubVersion,
    pub enrich: bool,
    pub tts_optimize: bool,
    pub isbn_override: Option<String>,
}

impl Default for ConvertOptions {
    fn default() -> (o: Self)
        ensures
            o.epub_version == EpubVersion::V3,
            o.enrich,
            o.tts_optimize,
            o.isbn_override is None,
    {
        ConvertOptions {
            epub_version: EpubVersion::V3,
            enrich: true,
            tts_optimize: true,
            isbn_override: None,
        }
    }
}

/// Body of the health endpoint.
#[derive(Debug, Clone)]
pub struct HealthResponse {
    pub status: String,
}

/// Body of an error response.
#[derive(Debug, Clone)]
pub struct ErrorResponse {
    pub error: String,
}

} // verus!
