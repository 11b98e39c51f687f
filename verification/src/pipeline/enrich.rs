//! Metadata enrichment from Open Library: which lookups to make, in which
//! order, and how their answers fill the book's missing metadata. The
//! lookups themselves are network calls made by the caller; this module
//! decides, step by step, from their results.

use vstd::prelude::*;

use crate::models::BookMetadata;
use crate::package::string_views;
use crate::text::{chars_of, decimal, decimal_string, matches_at_exec, string_of};
use crate::xml::opt_view;

verus! {

/// What an Open Library edition record offers, as plain values.
#[derive(Debug, Clone)]
pub struct EditionInfo {
    pub title: Option<String>,
    pub full_title: Option<String>,
    pub publishers: Option<Vec<String>>,
    pub publish_date: Option<String>,
    /// Language keys, such as `/languages/eng`.
    pub languages: Option<Vec<String>>,
    pub description: Option<String>,
    pub isbn_13: Option<Vec<String>>,
    pub isbn_10: Option<Vec<String>>,
    pub subjects: Option<Vec<String>>,
    pub covers: Option<Vec<i64>>,
}

/// What an Open Library search result offers, as plain values.
#[derive(Debug, Clone)]
pub struct SearchDoc {
    pub cover_edition_key: Option<String>,
    pub isbn: Option<Vec<String>>,
    pub publisher: Option<Vec<String>>,
    pub language: Option<Vec<String>>,
    pub first_publish_year: Option<i32>,
    pub subject: Option<Vec<String>>,
    pub cover_i: Option<i64>,
}

/// The first element of an optional list.
pub open spec fn first_of(v: Option<Vec<String>>) -> Option<Seq<char>> {
    match v {
        Some(l) => if l@.len() > 0 {
            Some(l@[0]@)
        } else {
            None
        },
        None => None,
    }
}

fn first_exec(v: &Option<Vec<String>>) -> (r: Option<String>)
    ensures
        opt_view(r) == first_of(*v),
{
    match v {
        Some(l) => if l.len() > 0 {
            Some(l[0].clone())
        } else {
            None
        },
        None => None,
    }
}

/// At most the first ten subjects.
pub open spec fn first_ten(v: Seq<Seq<char>>) -> Seq<Seq<char>> {
    if v.len() <= 10 {
        v
    } else {
        v.take(10)
    }
}

fn first_ten_exec(v: &Vec<String>) -> (r: Vec<String>)
    ensures
        string_views(r@) == first_ten(string_views(v@)),
{
    let n = if v.len() <= 10 {
        v.len()
    } else {
        10
    };
    let mut out: Vec<String> = Vec::new();
    let mut i: usize = 0;
    while i < n
        invariant
            i <= n <= v.len(),
            n == (if v.len() <= 10 { v.len() as int } else { 10 }),
            string_views(out@) == string_views(v@).take(i as int),
        decreases n - i,
    {
        let ghost before = string_views(out@);
        out.push(v[i].clone());
        assert(string_views(out@) =~= before.push(v@[i as int]@));
        assert(string_views(v@).take(i + 1) =~= string_views(v@).take(i as int).push(v@[i as int]@));
        i = i + 1;
    }
    assert(string_views(v@).take(n as int) =~= first_ten(string_views(v@)));
    out
}

/// `s` with every leading repetition of `p` removed, as
/// `str::trim_start_matches` gives it.
pub open spec fn without_leading(s: Seq<char>, p: Seq<char>) -> Seq<char>
    decreases s.len(),
{
    if p.len() > 0 && p.len() <= s.len() && s.take(p.len() as int) == p {
        without_leading(s.skip(p.len() as int), p)
    } else {
        s
    }
}

fn without_leading_exec(s: &str, p: &str) -> (r: String)
    ensures
        r@ == without_leading(s@, p@),
{
    let v = chars_of(s);
    let w = chars_of(p);
    let mut pos: usize = 0;
    assert(v@.skip(0) =~= v@);
    while w.len() > 0 && matches_at_exec(v.as_slice(), pos, w.as_slice())
        invariant
            pos <= v.len(),
            without_leading(v@.skip(pos as int), w@) == without_leading(v@, w@),
        decreases v.len() - pos,
    {
        proof {
            crate::text::lemma_matches_at_skip(v@, pos as int, w@);
        }
        assert(v@.skip(pos as int).skip(w.len() as int) =~= v@.skip(pos + w.len()));
        pos = pos + w.len();
    }
    proof {
        crate::text::lemma_matches_at_skip(v@, pos as int, w@);
    }
    let mut out: Vec<char> = Vec::new();
    crate::text::push_range(&mut out, v.as_slice(), pos, v.len());
    assert(v@.subrange(pos as int, v.len() as int) =~= v@.skip(pos as int));
    string_of(out.as_slice())
}

/// `n` as `to_string` writes a signed integer.
pub open spec fn signed_decimal(n: int) -> Seq<char> {
    if n < 0 {
        "-"@ + decimal((-n) as nat)
    } else {
        decimal(n as nat)
    }
}

fn signed_decimal_string(n: i64) -> (r: String)
    ensures
        r@ == signed_decimal(n as int),
{
    if n < 0 {
        let m: i128 = -(n as i128);
        let mut r = String::from_str("-");
        r.append(decimal_string(m as u64).as_str());
        r
    } else {
        decimal_string(n as u64)
    }
}

} // verus!

verus! {

/// The value a field ends with: the one it has, else the offered one.
pub open spec fn kept_or(old: Option<String>, offered: Option<Seq<char>>) -> Option<Seq<char>> {
    if old is Some {
        opt_view(old)
    } else {
        offered
    }
}

pub open spec fn opt_bytes(o: Option<Vec<u8>>) -> Option<Seq<u8>> {
    match o {
        Some(b) => Some(b@),
        None => None,
    }
}

/// The language an edition offers: its first language key without the
/// `/languages/` prefix.
pub open spec fn edition_language(ed: EditionInfo) -> Option<Seq<char>> {
    match first_of(ed.languages) {
        Some(k) => Some(without_leading(k, "/languages/"@)),
        None => None,
    }
}

/// The ISBN an edition offers: its first ISBN-13, else its first ISBN-10.
pub open spec fn edition_isbn(ed: EditionInfo) -> Option<Seq<char>> {
    if first_of(ed.isbn_13) is Some {
        first_of(ed.isbn_13)
    } else {
        first_of(ed.isbn_10)
    }
}

/// The title an edition offers: its full title, else its title.
pub open spec fn edition_title(ed: EditionInfo) -> Option<Seq<char>> {
    if ed.full_title is Some {
        opt_view(ed.full_title)
    } else {
        opt_view(ed.title)
    }
}

/// The tags after an offer of subjects: kept when there are any, else the
/// first ten offered subjects (when a list is offered).
pub open spec fn tags_after(old: Seq<Seq<char>>, offered: Option<Vec<String>>) -> Seq<Seq<char>> {
    if old.len() > 0 {
        old
    } else {
        match offered {
            Some(s) => first_ten(string_views(s@)),
            None => old,
        }
    }
}

/// The cover to fetch: the offered cover id, when the book has no cover.
pub open spec fn cover_request(m: BookMetadata, offered: Option<i64>) -> Option<i64> {
    if m.cover_image is None {
        offered
    } else {
        None
    }
}

pub open spec fn first_cover(v: Option<Vec<i64>>) -> Option<i64> {
    match v {
        Some(l) => if l@.len() > 0 {
            Some(l@[0])
        } else {
            None
        },
        None => None,
    }
}

/// `new` is `old` with the edition's values in the fields `old` lacks.
pub open spec fn edition_applied(old: BookMetadata, ed: EditionInfo, new: BookMetadata) -> bool {
    &&& opt_view(new.title) == kept_or(old.title, edition_title(ed))
    &&& opt_view(new.publisher) == kept_or(old.publisher, first_of(ed.publishers))
    &&& opt_view(new.publication_date) == kept_or(old.publication_date, opt_view(ed.publish_date))
    &&& opt_view(new.language) == kept_or(old.language, edition_language(ed))
    &&& opt_view(new.description) == kept_or(old.description, opt_view(ed.description))
    &&& opt_view(new.isbn) == kept_or(old.isbn, edition_isbn(ed))
    &&& string_views(new.tags@) == tags_after(string_views(old.tags@), ed.subjects)
    &&& new.author == old.author
    &&& new.cover_image == old.cover_image
    &&& new.cover_mime == old.cover_mime
}

/// The year a search result offers as publication date, in decimal.
pub open spec fn doc_year(doc: SearchDoc) -> Option<Seq<char>> {
    match doc.first_publish_year {
        Some(y) => Some(signed_decimal(y as int)),
        None => None,
    }
}

/// `new` is `old` with the search result's publisher, language, year and
/// subjects in the fields `old` lacks.
pub open spec fn doc_applied(old: BookMetadata, doc: SearchDoc, new: BookMetadata) -> bool {
    &&& opt_view(new.publisher) == kept_or(old.publisher, first_of(doc.publisher))
    &&& opt_view(new.language) == kept_or(old.language, first_of(doc.language))
    &&& opt_view(new.publication_date) == kept_or(old.publication_date, doc_year(doc))
    &&& string_views(new.tags@) == tags_after(string_views(old.tags@), doc.subject)
    &&& new.title == old.title
    &&& new.author == old.author
    &&& new.description == old.description
    &&& new.isbn == old.isbn
    &&& new.cover_image == old.cover_image
    &&& new.cover_mime == old.cover_mime
}

/// `new` is `old` with the fetched cover (JPEG when present) in place.
pub open spec fn cover_applied(old: BookMetadata, fetched: Option<Seq<u8>>, new: BookMetadata) -> bool {
    &&& opt_bytes(new.cover_image) == fetched
    &&& opt_view(new.cover_mime) == (if fetched is Some {
        Some("image/jpeg"@)
    } else {
        None
    })
    &&& new.title == old.title
    &&& new.author == old.author
    &&& new.publisher == old.publisher
    &&& new.description == old.description
    &&& new.language == old.language
    &&& new.isbn == old.isbn
    &&& new.publication_date == old.publication_date
    &&& new.tags == old.tags
}

fn fill(field: &mut Option<String>, offered: Option<String>)
    ensures
        opt_view(*final(field)) == kept_or(*old(field), opt_view(offered)),
{
    if field.is_none() {
        *field = offered;
    }
}

fn fill_tags(tags: &mut Vec<String>, offered: &Option<Vec<String>>)
    ensures
        string_views(final(tags)@) == tags_after(string_views(old(tags)@), *offered),
{
    if tags.len() == 0 {
        if let Some(s) = offered {
            *tags = first_ten_exec(s);
        }
    }
}

/// Fills the metadata the book lacks from an edition record; returns the
/// cover id to fetch when the book has no cover and the edition lists one.
pub fn apply_edition(meta: &mut BookMetadata, ed: &EditionInfo) -> (cover: Option<i64>)
    ensures
        edition_applied(*old(meta), *ed, *final(meta)),
        cover == cover_request(*old(meta), first_cover(ed.covers)),
{
    let title = match &ed.full_title {
        Some(t) => Some(t.clone()),
        None => match &ed.title {
            Some(t) => Some(t.clone()),
            None => None,
        },
    };
    fill(&mut meta.title, title);
    fill(&mut meta.publisher, first_exec(&ed.publishers));
    let date = match &ed.publish_date {
        Some(d) => Some(d.clone()),
        None => None,
    };
    fill(&mut meta.publication_date, date);
    let language = match first_exec(&ed.languages) {
        Some(k) => Some(without_leading_exec(k.as_str(), "/languages/")),
        None => None,
    };
    fill(&mut meta.language, language);
    let description = match &ed.description {
        Some(d) => Some(d.clone()),
        None => None,
    };
    fill(&mut meta.description, description);
    let isbn = match first_exec(&ed.isbn_13) {
        Some(i) => Some(i),
        None => first_exec(&ed.isbn_10),
    };
    fill(&mut meta.isbn, isbn);
    fill_tags(&mut meta.tags, &ed.subjects);
    if meta.cover_image.is_none() {
        match &ed.covers {
            Some(c) => if c.len() > 0 {
                Some(c[0])
            } else {
                None
            },
            None => None,
        }
    } else {
        None
    }
}

/// Fills the publisher, language, publication year and subjects the book
/// lacks from a search result; returns the cover id to fetch when the book
/// has no cover and the result has one.
pub fn apply_search_doc(meta: &mut BookMetadata, doc: &SearchDoc) -> (cover: Option<i64>)
    ensures
        doc_applied(*old(meta), *doc, *final(meta)),
        cover == cover_request(*old(meta), doc.cover_i),
{
    fill(&mut meta.publisher, first_exec(&doc.publisher));
    fill(&mut meta.language, first_exec(&doc.language));
    let year = match doc.first_publish_year {
        Some(y) => Some(signed_decimal_string(y as i64)),
        None => None,
    };
    fill(&mut meta.publication_date, year);
    fill_tags(&mut meta.tags, &doc.subject);
    if meta.cover_image.is_none() {
        doc.cover_i
    } else {
        None
    }
}

/// Puts a fetched cover in place, marked as JPEG; a failed fetch leaves no
/// cover.
pub fn apply_cover(meta: &mut BookMetadata, fetched: Option<Vec<u8>>)
    ensures
        cover_applied(*old(meta), opt_bytes(fetched), *final(meta)),
{
    meta.cover_mime = match &fetched {
        Some(_) => Some(String::from_str("image/jpeg")),
        None => None,
    };
    meta.cover_image = fetched;
}

} // verus!

verus! {

/// Where an enrichment stands: which answer it waits for.
#[derive(Debug, Clone)]
pub enum EnrichPhase {
    /// Waiting for the edition of the book's ISBN.
    AwaitIsbnEdition,
    /// Waiting for the first title/author search result.
    AwaitSearch,
    /// Waiting for the edition the search result names as its cover edition.
    AwaitKeyEdition(SearchDoc),
    /// Waiting for the edition of the search result's first ISBN.
    AwaitDocIsbnEdition(SearchDoc),
    /// Waiting for the cover image.
    AwaitCover,
    Finished,
}

/// The next lookup the caller is to make.
#[derive(Debug, Clone)]
pub enum EnrichAction {
    /// Fetch the edition of this ISBN.
    LookupIsbn(String),
    /// Search by title and author, keeping the first result.
    Search { title: Option<String>, author: Option<String> },
    /// Fetch the edition of this edition key.
    LookupEdition(String),
    /// Fetch the large cover image of this cover id.
    FetchCover(i64),
    /// Enrichment is over.
    Done,
}

/// The answer to a lookup: `None` when it failed or found nothing.
#[derive(Debug, Clone)]
pub enum EnrichEvent {
    Edition(Option<EditionInfo>),
    Results(Option<SearchDoc>),
    Cover(Option<Vec<u8>>),
}

/// An enrichment in progress: the metadata so far, and what it waits for.
pub struct Enrichment {
    pub meta: BookMetadata,
    pub phase: EnrichPhase,
}

/// After a lookup that may ask for a cover: fetch it, or finish.
pub open spec fn cover_step(s: Enrichment, a: EnrichAction, req: Option<i64>) -> bool {
    match req {
        Some(id) => s.phase is AwaitCover && a == EnrichAction::FetchCover(id),
        None => s.phase is Finished && a is Done,
    }
}

/// Without an edition: search by title and author when the book has either,
/// else finish; the metadata is unchanged.
pub open spec fn fallback_step(m: BookMetadata, s: Enrichment, a: EnrichAction) -> bool {
    &&& s.meta == m
    &&& if m.title is Some || m.author is Some {
        s.phase is AwaitSearch && (a matches EnrichAction::Search { title, author } && opt_view(
            title,
        ) == opt_view(m.title) && opt_view(author) == opt_view(m.author))
    } else {
        s.phase is Finished && a is Done
    }
}

/// With a search result and no edition from its cover key: look up its first
/// ISBN, else take over what the result offers.
pub open spec fn doc_isbn_step(m: BookMetadata, doc: SearchDoc, s: Enrichment, a: EnrichAction) -> bool {
    match first_of(doc.isbn) {
        Some(i) => s.meta == m && s.phase == EnrichPhase::AwaitDocIsbnEdition(doc)
            && (a matches EnrichAction::LookupIsbn(x) && x@ == i),
        None => doc_applied(m, doc, s.meta) && cover_step(s, a, cover_request(m, doc.cover_i)),
    }
}

/// With a search result: look up its cover edition, else go on by its ISBN.
pub open spec fn doc_step(m: BookMetadata, doc: SearchDoc, s: Enrichment, a: EnrichAction) -> bool {
    match doc.cover_edition_key {
        Some(k) => s.meta == m && s.phase == EnrichPhase::AwaitKeyEdition(doc)
            && (a matches EnrichAction::LookupEdition(x) && x@ == k@),
        None => doc_isbn_step(m, doc, s, a),
    }
}

/// With an edition: take over what it offers, then fetch a cover or finish.
pub open spec fn edition_step(m: BookMetadata, ed: EditionInfo, s: Enrichment, a: EnrichAction) -> bool {
    edition_applied(m, ed, s.meta) && cover_step(s, a, cover_request(m, first_cover(ed.covers)))
}

/// The ISBN looked up first: the override, else the book's own.
pub open spec fn effective_isbn(m: BookMetadata, isbn_override: Option<String>) -> Option<Seq<char>> {
    if isbn_override is Some {
        opt_view(isbn_override)
    } else {
        opt_view(m.isbn)
    }
}

/// The first step of enriching `m`.
pub open spec fn start_step(m: BookMetadata, isbn_override: Option<String>, s: Enrichment, a: EnrichAction) -> bool {
    match effective_isbn(m, isbn_override) {
        Some(i) => s.meta == m && s.phase is AwaitIsbnEdition && (a matches EnrichAction::LookupIsbn(
            x,
        ) && x@ == i),
        None => fallback_step(m, s, a),
    }
}

/// The step an answer leads to.
pub open spec fn advance_step(before: Enrichment, ev: EnrichEvent, s: Enrichment, a: EnrichAction) -> bool {
    let m = before.meta;
    match before.phase {
        EnrichPhase::AwaitIsbnEdition => match ev {
            EnrichEvent::Edition(Some(ed)) => edition_step(m, ed, s, a),
            EnrichEvent::Edition(None) => fallback_step(m, s, a),
            _ => s.meta == m && s.phase is Finished && a is Done,
        },
        EnrichPhase::AwaitSearch => match ev {
            EnrichEvent::Results(Some(doc)) => doc_step(m, doc, s, a),
            _ => s.meta == m && s.phase is Finished && a is Done,
        },
        EnrichPhase::AwaitKeyEdition(doc) => match ev {
            EnrichEvent::Edition(Some(ed)) => edition_step(m, ed, s, a),
            EnrichEvent::Edition(None) => doc_isbn_step(m, doc, s, a),
            _ => s.meta == m && s.phase is Finished && a is Done,
        },
        EnrichPhase::AwaitDocIsbnEdition(doc) => match ev {
            EnrichEvent::Edition(Some(ed)) => edition_step(m, ed, s, a),
            EnrichEvent::Edition(None) => doc_applied(m, doc, s.meta) && cover_step(
                s,
                a,
                cover_request(m, doc.cover_i),
            ),
            _ => s.meta == m && s.phase is Finished && a is Done,
        },
        EnrichPhase::AwaitCover => match ev {
            EnrichEvent::Cover(b) => cover_applied(m, opt_bytes(b), s.meta) && s.phase is Finished
                && a is Done,
            _ => s.meta == m && s.phase is Finished && a is Done,
        },
        EnrichPhase::Finished => s.meta == m && s.phase is Finished && a is Done,
    }
}

fn clone_opt(o: &Option<String>) -> (r: Option<String>)
    ensures
        opt_view(r) == opt_view(*o),
{
    match o {
        Some(s) => Some(s.clone()),
        None => None,
    }
}

fn fallback(meta: BookMetadata) -> (r: (Enrichment, EnrichAction))
    ensures
        fallback_step(meta, r.0, r.1),
{
    if meta.title.is_some() || meta.author.is_some() {
        let title = clone_opt(&meta.title);
        let author = clone_opt(&meta.author);
        (Enrichment { meta, phase: EnrichPhase::AwaitSearch }, EnrichAction::Search { title, author })
    } else {
        (Enrichment { meta, phase: EnrichPhase::Finished }, EnrichAction::Done)
    }
}

fn after_cover_offer(meta: BookMetadata, req: Option<i64>) -> (r: (Enrichment, EnrichAction))
    ensures
        r.0.meta == meta,
        cover_step(r.0, r.1, req),
{
    match req {
        Some(id) => (Enrichment { meta, phase: EnrichPhase::AwaitCover }, EnrichAction::FetchCover(id)),
        None => (Enrichment { meta, phase: EnrichPhase::Finished }, EnrichAction::Done),
    }
}

fn with_edition(meta: BookMetadata, ed: &EditionInfo) -> (r: (Enrichment, EnrichAction))
    ensures
        edition_step(meta, *ed, r.0, r.1),
{
    let mut meta = meta;
    let req = apply_edition(&mut meta, ed);
    after_cover_offer(meta, req)
}

fn with_doc(meta: BookMetadata, doc: &SearchDoc) -> (r: (Enrichment, EnrichAction))
    ensures
        doc_applied(meta, *doc, r.0.meta),
        cover_step(r.0, r.1, cover_request(meta, doc.cover_i)),
{
    let mut meta = meta;
    let req = apply_search_doc(&mut meta, doc);
    after_cover_offer(meta, req)
}

fn by_doc_isbn(meta: BookMetadata, doc: SearchDoc) -> (r: (Enrichment, EnrichAction))
    ensures
        doc_isbn_step(meta, doc, r.0, r.1),
{
    match first_exec(&doc.isbn) {
        Some(i) => (Enrichment { meta, phase: EnrichPhase::AwaitDocIsbnEdition(doc) }, EnrichAction::LookupIsbn(i)),
        None => with_doc(meta, &doc),
    }
}

fn by_doc(meta: BookMetadata, doc: SearchDoc) -> (r: (Enrichment, EnrichAction))
    ensures
        doc_step(meta, doc, r.0, r.1),
{
    match &doc.cover_edition_key {
        Some(k) => {
            let key = k.clone();
            (Enrichment { meta, phase: EnrichPhase::AwaitKeyEdition(doc) }, EnrichAction::LookupEdition(key))
        },
        None => by_doc_isbn(meta, doc),
    }
}

impl Enrichment {
    /// Starts enriching `meta`: look up the override ISBN or the book's own,
    /// else search by title and author, else nothing to do.
    pub fn start(meta: BookMetadata, isbn_override: Option<String>) -> (r: (Enrichment, EnrichAction))
        ensures
            start_step(meta, isbn_override, r.0, r.1),
    {
        let isbn = match isbn_override {
            Some(i) => Some(i),
            None => clone_opt(&meta.isbn),
        };
        match isbn {
            Some(i) => (Enrichment { meta, phase: EnrichPhase::AwaitIsbnEdition }, EnrichAction::LookupIsbn(i)),
            None => fallback(meta),
        }
    }

    /// Takes the answer to the last lookup and returns the next one.
    pub fn advance(self, ev: EnrichEvent) -> (r: (Enrichment, EnrichAction))
        ensures
            advance_step(self, ev, r.0, r.1),
    {
        let meta = self.meta;
        match self.phase {
            EnrichPhase::AwaitIsbnEdition => match ev {
                EnrichEvent::Edition(Some(ed)) => with_edition(meta, &ed),
                EnrichEvent::Edition(None) => fallback(meta),
                _ => (Enrichment { meta, phase: EnrichPhase::Finished }, EnrichAction::Done),
            },
            EnrichPhase::AwaitSearch => match ev {
                EnrichEvent::Results(Some(doc)) => by_doc(meta, doc),
                _ => (Enrichment { meta, phase: EnrichPhase::Finished }, EnrichAction::Done),
            },
            EnrichPhase::AwaitKeyEdition(doc) => match ev {
                EnrichEvent::Edition(Some(ed)) => with_edition(meta, &ed),
                EnrichEvent::Edition(None) => by_doc_isbn(meta, doc),
                _ => (Enrichment { meta, phase: EnrichPhase::Finished }, EnrichAction::Done),
            },
            EnrichPhase::AwaitDocIsbnEdition(doc) => match ev {
                EnrichEvent::Edition(Some(ed)) => with_edition(meta, &ed),
                EnrichEvent::Edition(None) => with_doc(meta, &doc),
                _ => (Enrichment { meta, phase: EnrichPhase::Finished }, EnrichAction::Done),
            },
            EnrichPhase::AwaitCover => match ev {
                EnrichEvent::Cover(b) => {
                    let mut meta = meta;
                    apply_cover(&mut meta, b);
                    (Enrichment { meta, phase: EnrichPhase::Finished }, EnrichAction::Done)
                },
                _ => (Enrichment { meta, phase: EnrichPhase::Finished }, EnrichAction::Done),
            },
            EnrichPhase::Finished => (Enrichment { meta, phase: EnrichPhase::Finished }, EnrichAction::Done),
        }
    }
}

} // verus!

verus! {

/// `b` keeps every field that `a` has: enrichment only fills what is missing.
pub open spec fn only_fills(a: BookMetadata, b: BookMetadata) -> bool {
    &&& a.title is Some ==> opt_view(b.title) == opt_view(a.title)
    &&& a.author is Some ==> opt_view(b.author) == opt_view(a.author)
    &&& a.publisher is Some ==> opt_view(b.publisher) == opt_view(a.publisher)
    &&& a.description is Some ==> opt_view(b.description) == opt_view(a.description)
    &&& a.language is Some ==> opt_view(b.language) == opt_view(a.language)
    &&& a.isbn is Some ==> opt_view(b.isbn) == opt_view(a.isbn)
    &&& a.publication_date is Some ==> opt_view(b.publication_date) == opt_view(a.publication_date)
    &&& a.cover_image is Some ==> opt_bytes(b.cover_image) == opt_bytes(a.cover_image) && opt_view(
        b.cover_mime,
    ) == opt_view(a.cover_mime)
    &&& a.tags@.len() > 0 ==> string_views(b.tags@) == string_views(a.tags@)
}

/// Starting an enrichment changes no metadata.
pub proof fn law_start_keeps_metadata(
    m: BookMetadata,
    isbn_override: Option<String>,
    s: Enrichment,
    a: EnrichAction,
)
    requires
        start_step(m, isbn_override, s, a),
    ensures
        s.meta == m,
{
}

/// An enrichment waits for a cover only when the book has none.
pub open spec fn waits_sensibly(e: Enrichment) -> bool {
    e.phase is AwaitCover ==> e.meta.cover_image is None
}

/// Starting and advancing an enrichment keep it waiting sensibly.
pub proof fn law_steps_wait_sensibly(before: Enrichment, ev: EnrichEvent, s: Enrichment, a: EnrichAction)
    requires
        waits_sensibly(before),
        advance_step(before, ev, s, a),
    ensures
        waits_sensibly(s),
{
}

/// A started enrichment waits sensibly.
pub proof fn law_start_waits_sensibly(
    m: BookMetadata,
    isbn_override: Option<String>,
    s: Enrichment,
    a: EnrichAction,
)
    requires
        start_step(m, isbn_override, s, a),
    ensures
        waits_sensibly(s),
{
}

/// Every step of an enrichment only fills metadata the book lacks: a field
/// that has a value keeps it.
pub proof fn law_advance_only_fills(before: Enrichment, ev: EnrichEvent, s: Enrichment, a: EnrichAction)
    requires
        waits_sensibly(before),
        advance_step(before, ev, s, a),
    ensures
        only_fills(before.meta, s.meta),
{
    let m = before.meta;
    assert(string_views(m.tags@).len() == m.tags@.len());
    assert(string_views(s.meta.tags@).len() == s.meta.tags@.len());
}

/// Filling only missing fields, done twice, still only fills missing fields;
/// so a whole enrichment, step after step, keeps every field that had a value.
pub proof fn law_only_fills_transitive(a: BookMetadata, b: BookMetadata, c: BookMetadata)
    requires
        only_fills(a, b),
        only_fills(b, c),
    ensures
        only_fills(a, c),
{
    assert(string_views(a.tags@).len() == a.tags@.len());
    assert(string_views(b.tags@).len() == b.tags@.len());
}

/// Taking over a search result fills each field the book lacks with what the
/// result offers: its first publisher, its first language, its first publish
/// year in decimal, and, when the book has no tags, its first ten subjects
/// (all of them when it offers ten or fewer). Tags the book has are kept.
pub proof fn law_search_result_fills_missing(old: BookMetadata, doc: SearchDoc, new: BookMetadata)
    requires
        doc_applied(old, doc, new),
    ensures
        old.publisher is None && doc.publisher is Some && doc.publisher->0@.len() > 0 ==> (
        new.publisher is Some && new.publisher->0@ == doc.publisher->0@[0]@),
        old.language is None && doc.language is Some && doc.language->0@.len() > 0 ==> (
        new.language is Some && new.language->0@ == doc.language->0@[0]@),
        old.publication_date is None && doc.first_publish_year is Some ==> (new.publication_date is Some
            && new.publication_date->0@ == signed_decimal(doc.first_publish_year->0 as int)),
        old.tags@.len() == 0 && doc.subject is Some ==> (new.tags@.len() == (if doc.subject->0@.len()
            <= 10 {
            doc.subject->0@.len()
        } else {
            10
        }) && forall|i: int| 0 <= i < new.tags@.len() ==> #[trigger] new.tags@[i]@ == doc.subject->0@[i]@),
        old.tags@.len() > 0 ==> (new.tags@.len() == old.tags@.len() && forall|i: int|
            0 <= i < new.tags@.len() ==> #[trigger] new.tags@[i]@ == old.tags@[i]@),
{
    lemma_tags_after_elements(old, new, doc.subject);
}

/// Taking over an edition record fills each field the book lacks with what
/// the record offers: its full title (else its title), its first publisher,
/// its publish date, its description, its first ISBN-13 (else its first
/// ISBN-10), and, when the book has no tags, its first ten subjects. Tags the
/// book has are kept.
pub proof fn law_edition_fills_missing(old: BookMetadata, ed: EditionInfo, new: BookMetadata)
    requires
        edition_applied(old, ed, new),
    ensures
        old.title is None && ed.full_title is Some ==> (new.title is Some && new.title->0@
            == ed.full_title->0@),
        old.title is None && ed.full_title is None && ed.title is Some ==> (new.title is Some
            && new.title->0@ == ed.title->0@),
        old.publisher is None && ed.publishers is Some && ed.publishers->0@.len() > 0 ==> (
        new.publisher is Some && new.publisher->0@ == ed.publishers->0@[0]@),
        old.publication_date is None && ed.publish_date is Some ==> (new.publication_date is Some
            && new.publication_date->0@ == ed.publish_date->0@),
        old.description is None && ed.description is Some ==> (new.description is Some
            && new.description->0@ == ed.description->0@),
        old.isbn is None && ed.isbn_13 is Some && ed.isbn_13->0@.len() > 0 ==> (new.isbn is Some
            && new.isbn->0@ == ed.isbn_13->0@[0]@),
        old.isbn is None && (ed.isbn_13 is None || ed.isbn_13->0@.len() == 0) && ed.isbn_10 is Some
            && ed.isbn_10->0@.len() > 0 ==> (new.isbn is Some && new.isbn->0@ == ed.isbn_10->0@[0]@),
        old.tags@.len() == 0 && ed.subjects is Some ==> (new.tags@.len() == (if ed.subjects->0@.len()
            <= 10 {
            ed.subjects->0@.len()
        } else {
            10
        }) && forall|i: int| 0 <= i < new.tags@.len() ==> #[trigger] new.tags@[i]@ == ed.subjects->0@[i]@),
        old.tags@.len() > 0 ==> (new.tags@.len() == old.tags@.len() && forall|i: int|
            0 <= i < new.tags@.len() ==> #[trigger] new.tags@[i]@ == old.tags@[i]@),
{
    lemma_tags_after_elements(old, new, ed.subjects);
}

proof fn lemma_tags_after_elements(old: BookMetadata, new: BookMetadata, offered: Option<Vec<String>>)
    requires
        string_views(new.tags@) == tags_after(string_views(old.tags@), offered),
    ensures
        old.tags@.len() == 0 && offered is Some ==> (new.tags@.len() == (if offered->0@.len()
            <= 10 {
            offered->0@.len()
        } else {
            10
        }) && forall|i: int| 0 <= i < new.tags@.len() ==> #[trigger] new.tags@[i]@ == offered->0@[i]@),
        old.tags@.len() > 0 ==> (new.tags@.len() == old.tags@.len() && forall|i: int|
            0 <= i < new.tags@.len() ==> #[trigger] new.tags@[i]@ == old.tags@[i]@),
{
    let nv = string_views(new.tags@);
    assert(nv.len() == new.tags@.len());
    assert(string_views(old.tags@).len() == old.tags@.len());
    assert forall|i: int| 0 <= i < new.tags@.len() implies #[trigger] new.tags@[i]@ == nv[i] by {}
    if old.tags@.len() > 0 {
        assert forall|i: int| 0 <= i < new.tags@.len() implies #[trigger] new.tags@[i]@ == old.tags@[i]@ by {
            assert(nv[i] == string_views(old.tags@)[i]);
        }
    } else if offered is Some {
        let v = offered->0;
        assert(string_views(v@).len() == v@.len());
        assert forall|i: int| 0 <= i < new.tags@.len() implies #[trigger] new.tags@[i]@ == v@[i]@ by {
            assert(nv[i] == string_views(v@)[i]);
        }
    }
}

/// A search answered with a result that names no cover edition and no ISBN
/// takes the result's values over at once: a book without tags gets the
/// result's first ten subjects as its tags.
pub proof fn law_search_answer_fills_empty_tags(
    before: Enrichment,
    doc: SearchDoc,
    s: Enrichment,
    a: EnrichAction,
)
    requires
        before.phase is AwaitSearch,
        advance_step(before, EnrichEvent::Results(Some(doc)), s, a),
        doc.cover_edition_key is None,
        doc.isbn is None,
        before.meta.tags@.len() == 0,
        doc.subject is Some,
    ensures
        s.meta.tags@.len() == (if doc.subject->0@.len() <= 10 {
            doc.subject->0@.len()
        } else {
            10
        }),
        forall|i: int| 0 <= i < s.meta.tags@.len() ==> #[trigger] s.meta.tags@[i]@ == doc.subject->0@[i]@,
{
    law_search_result_fills_missing(before.meta, doc, s.meta);
}

/// Enrichment starts with the ISBN given to it, else the book's own ISBN;
/// without either it searches by the book's title and author when it has
/// one of them, and otherwise has nothing to do.
pub proof fn law_start_lookup_order(
    m: BookMetadata,
    isbn_override: Option<String>,
    s: Enrichment,
    a: EnrichAction,
)
    requires
        start_step(m, isbn_override, s, a),
    ensures
        isbn_override is Some ==> (s.phase is AwaitIsbnEdition && a is LookupIsbn && a->LookupIsbn_0@
            == isbn_override->0@),
        isbn_override is None && m.isbn is Some ==> (s.phase is AwaitIsbnEdition && a is LookupIsbn
            && a->LookupIsbn_0@ == m.isbn->0@),
        isbn_override is None && m.isbn is None && (m.title is Some || m.author is Some) ==> (
        s.phase is AwaitSearch && a is Search && opt_view(a->title) == opt_view(m.title) && opt_view(
            a->author,
        ) == opt_view(m.author)),
        isbn_override is None && m.isbn is None && m.title is None && m.author is None ==> (
        s.phase is Finished && a is Done),
{
}

/// How each answer leads on: an edition is taken over (and its cover
/// fetched when the book has none); a failed ISBN lookup falls back to a
/// search by title and author; a search result leads to its cover edition,
/// else to the edition of its first ISBN, else its own values are taken
/// over; a fetched cover is stored as a JPEG.
pub proof fn law_answer_lookup_order(before: Enrichment, ev: EnrichEvent, s: Enrichment, a: EnrichAction)
    requires
        advance_step(before, ev, s, a),
    ensures
        (before.phase is AwaitIsbnEdition || before.phase is AwaitKeyEdition
            || before.phase is AwaitDocIsbnEdition) && ev is Edition && ev->Edition_0 is Some ==> ({
            let ed = ev->Edition_0->0;
            &&& edition_applied(before.meta, ed, s.meta)
            &&& (before.meta.cover_image is None && ed.covers is Some && ed.covers->0@.len() > 0
                ==> s.phase is AwaitCover && a == EnrichAction::FetchCover(ed.covers->0@[0]))
            &&& (before.meta.cover_image is Some || ed.covers is None || ed.covers->0@.len() == 0
                ==> s.phase is Finished && a is Done)
        }),
        before.phase is AwaitIsbnEdition && ev == EnrichEvent::Edition(None) && (before.meta.title is Some
            || before.meta.author is Some) ==> (s.meta == before.meta && s.phase is AwaitSearch
            && a is Search),
        before.phase is AwaitSearch && ev is Results && ev->Results_0 is Some ==> ({
            let doc = ev->Results_0->0;
            &&& (doc.cover_edition_key is Some ==> s.meta == before.meta && a is LookupEdition
                && a->LookupEdition_0@ == doc.cover_edition_key->0@)
            &&& (doc.cover_edition_key is None && doc.isbn is Some && doc.isbn->0@.len() > 0
                ==> s.meta == before.meta && a is LookupIsbn && a->LookupIsbn_0@ == doc.isbn->0@[0]@)
            &&& (doc.cover_edition_key is None && (doc.isbn is None || doc.isbn->0@.len() == 0)
                ==> doc_applied(before.meta, doc, s.meta))
        }),
        before.phase is AwaitSearch && ev == EnrichEvent::Results(None) ==> (s.meta == before.meta
            && a is Done),
        before.phase is AwaitCover && ev is Cover && ev->Cover_0 is Some ==> (s.meta.cover_image is Some
            && s.meta.cover_image->0@ == ev->Cover_0->0@ && s.meta.cover_mime is Some
            && s.meta.cover_mime->0@ == "image/jpeg"@ && a is Done),
{
}

/// An edition's language is taken over by its key with the `/languages/`
/// prefix removed: the first key `/languages/eng` gives `eng`, and a key
/// without the prefix is taken as it is.
pub proof fn law_edition_language_drops_key_prefix(
    old: BookMetadata,
    ed: EditionInfo,
    new: BookMetadata,
    code: Seq<char>,
)
    requires
        edition_applied(old, ed, new),
        old.language is None,
        ed.languages is Some,
        ed.languages->0@.len() > 0,
        !(code.len() >= "/languages/"@.len() && code.take("/languages/"@.len() as int) == "/languages/"@),
    ensures
        ed.languages->0@[0]@ == "/languages/"@ + code ==> (new.language is Some && new.language->0@
            == code),
        ed.languages->0@[0]@ == code ==> (new.language is Some && new.language->0@ == code),
{
    let p = "/languages/"@;
    reveal_strlit("/languages/");
    if ed.languages->0@[0]@ == p + code {
        let k = p + code;
        assert(k.take(p.len() as int) =~= p);
        assert(k.skip(p.len() as int) =~= code);
        assert(without_leading(k, p) == without_leading(code, p));
    }
}

} // verus!
