//! EPUB assembly: what goes into the book, and the calls into epub-builder
//! that write it.

use vstd::prelude::*;

use crate::models::{BookMetadata, Chapter, EpubVersion};
use epub_builder::EpubVersion as BuilderVersion;
use crate::package::string_views;
use crate::pipeline::reader::ImageData;
use crate::text::{chars_of, contains_chars, contains_seq, string_of};
use crate::pipeline::tts::{clean_for_tts, cleaned_for_tts, wrap_xhtml, xhtml_document};

verus! {

/// The stylesheet every produced book carries.
pub open spec fn default_css() -> Seq<char> {
    "\nbody {\n  font-family: serif;\n  line-height: 1.6;\n  margin: 1em 2em;\n}\nh1, h2, h3, h4, h5, h6 {\n  font-family: sans-serif;\n  line-height: 1.2;\n  margin: 1em 0 0.5em;\n}\np {\n  margin: 0 0 0.8em;\n  text-align: left;\n}\n"@
}

fn default_css_text() -> (s: &'static str)
    ensures
        s@ == default_css(),
{
    "\nbody {\n  font-family: serif;\n  line-height: 1.6;\n  margin: 1em 2em;\n}\nh1, h2, h3, h4, h5, h6 {\n  font-family: sans-serif;\n  line-height: 1.2;\n  margin: 1em 0 0.5em;\n}\np {\n  margin: 0 0 0.8em;\n  text-align: left;\n}\n"
}

/// The cover image to embed: file name, bytes, media type.
#[derive(Debug, Clone)]
pub struct CoverImage {
    pub name: String,
    pub data: Vec<u8>,
    pub mime: String,
}

/// One chapter document: file name, XHTML text, table-of-contents title.
#[derive(Debug, Clone)]
pub struct ChapterDocument {
    pub filename: String,
    pub xhtml: String,
    pub title: String,
}

/// Everything an EPUB is built from, in the order it is handed to the
/// builder: version, metadata entries, cover, source images (by index into
/// the images), chapter documents.
pub struct EpubPlan {
    pub version: EpubVersion,
    pub metadata: Vec<(String, String)>,
    pub cover: Option<CoverImage>,
    pub kept_images: Vec<usize>,
    pub chapters: Vec<ChapterDocument>,
}

/// `parts` joined with ", ".
pub open spec fn comma_joined(parts: Seq<Seq<char>>) -> Seq<char>
    decreases parts.len(),
{
    if parts.len() == 0 {
        seq![]
    } else if parts.len() == 1 {
        parts[0]
    } else {
        comma_joined(parts.drop_last()) + ", "@ + parts.last()
    }
}

pub open spec fn entry_if(key: Seq<char>, v: Option<String>) -> Seq<(Seq<char>, Seq<char>)> {
    match v {
        Some(s) => seq![(key, s@)],
        None => seq![],
    }
}

/// The metadata entries set on the book, in order: title, author, language,
/// description, subjects (the tags joined with ", "), and the publisher as
/// generator; each only when present.
pub open spec fn planned_metadata(m: BookMetadata) -> Seq<(Seq<char>, Seq<char>)> {
    entry_if("title"@, m.title) + entry_if("author"@, m.author) + entry_if("lang"@, m.language)
        + entry_if("description"@, m.description) + (if m.tags@.len() > 0 {
        seq![("subject"@, comma_joined(string_views(m.tags@)))]
    } else {
        seq![]
    }) + entry_if("generator"@, m.publisher)
}

/// The cover media type: the recorded one, else `image/jpeg`.
pub open spec fn cover_mime_of(m: BookMetadata) -> Seq<char> {
    match m.cover_mime {
        Some(s) => s@,
        None => "image/jpeg"@,
    }
}

/// The cover file name: `cover.png` for a PNG media type, else `cover.jpg`.
pub open spec fn cover_file_for(mime: Seq<char>) -> Seq<char> {
    if contains_seq(mime, "png"@) {
        "cover.png"@
    } else {
        "cover.jpg"@
    }
}

/// A source image is left out when it is a cover and the book already has one.
pub open spec fn image_kept(img: ImageData, has_cover: bool) -> bool {
    !(contains_seq(img.name@, "cover"@) && has_cover)
}

/// The language written into each chapter: the book's, else `en`.
pub open spec fn chapter_lang(m: BookMetadata) -> Seq<char> {
    match m.language {
        Some(l) => l@,
        None => "en"@,
    }
}

/// The XHTML body of a chapter: cleaned for narration when asked, else as is.
pub open spec fn chapter_body(content: Seq<char>, tts_optimize: bool) -> Seq<char> {
    if tts_optimize {
        cleaned_for_tts(content)
    } else {
        content
    }
}

/// `plan` is the plan for these inputs.
pub open spec fn is_plan_for(
    plan: EpubPlan,
    meta: BookMetadata,
    chapters: Seq<Chapter>,
    images: Seq<ImageData>,
    version: EpubVersion,
    tts_optimize: bool,
) -> bool {
    &&& plan.version == version
    &&& crate::package::pair_views(plan.metadata@) == planned_metadata(meta)
    &&& match meta.cover_image {
        Some(bytes) => plan.cover matches Some(c) && c.data@ == bytes@ && c.mime@ == cover_mime_of(
            meta,
        ) && c.name@ == cover_file_for(cover_mime_of(meta)),
        None => plan.cover is None,
    }
    &&& forall|k: int| 0 <= k < plan.kept_images.len() ==> #[trigger] plan.kept_images@[k] < images.len()
    &&& forall|k: int, l: int| 0 <= k < l < plan.kept_images.len() ==> plan.kept_images@[k] < plan.kept_images@[l]
    &&& forall|j: int| 0 <= j < images.len() ==> (image_kept(images[j], meta.cover_image is Some) <==> exists|k: int| 0 <= k < plan.kept_images.len() && #[trigger] plan.kept_images@[k] == j)
    &&& plan.chapters.len() == chapters.len()
    &&& forall|i: int|
        0 <= i < chapters.len() ==> {
            &&& (#[trigger] plan.chapters@[i]).filename@ == chapters[i].filename@
            &&& plan.chapters@[i].title@ == chapters[i].title@
            &&& plan.chapters@[i].xhtml@ == xhtml_document(
                chapters[i].title@,
                chapter_lang(meta),
                chapter_body(chapters[i].content@, tts_optimize),
            )
        }
}

} // verus!

verus! {

fn copy_string(s: &String) -> (r: String)
    ensures
        r@ == s@,
{
    string_of(chars_of(s.as_str()).as_slice())
}

/// The tags joined with ", ".
pub fn join_tags(tags: &Vec<String>) -> (r: String)
    ensures
        r@ == comma_joined(string_views(tags@)),
{
    let mut out = String::new();
    let mut i: usize = 0;
    while i < tags.len()
        invariant
            i <= tags.len(),
            out@ == comma_joined(string_views(tags@).take(i as int)),
        decreases tags.len() - i,
    {
        let ghost prev = string_views(tags@).take(i as int);
        if i > 0 {
            out.append(", ");
        }
        out.append(tags[i].as_str());
        let ghost next = string_views(tags@).take(i + 1);
        assert(next.drop_last() =~= prev);
        assert(next.last() == tags@[i as int]@);
        if i == 0 {
            assert(prev =~= Seq::<Seq<char>>::empty());
        }
        i = i + 1;
    }
    assert(string_views(tags@).take(tags.len() as int) =~= string_views(tags@));
    out
}

fn push_entry(entries: &mut Vec<(String, String)>, key: &str, value: &Option<String>)
    ensures
        crate::package::pair_views(final(entries)@) == crate::package::pair_views(old(entries)@)
            + entry_if(key@, *value),
{
    let ghost before = crate::package::pair_views(entries@);
    match value {
        Some(v) => {
            entries.push((string_of(chars_of(key).as_slice()), copy_string(v)));
            assert(crate::package::pair_views(entries@) =~= before + entry_if(key@, *value));
        },
        None => {
            assert(crate::package::pair_views(entries@) =~= before + entry_if(key@, *value));
        },
    }
}

/// The metadata entries set on the book.
pub fn metadata_entries(meta: &BookMetadata) -> (r: Vec<(String, String)>)
    ensures
        crate::package::pair_views(r@) == planned_metadata(*meta),
{
    let mut entries: Vec<(String, String)> = Vec::new();
    assert(crate::package::pair_views(entries@) =~= Seq::<(Seq<char>, Seq<char>)>::empty());
    push_entry(&mut entries, "title", &meta.title);
    push_entry(&mut entries, "author", &meta.author);
    push_entry(&mut entries, "lang", &meta.language);
    push_entry(&mut entries, "description", &meta.description);
    let ghost before = crate::package::pair_views(entries@);
    if meta.tags.len() > 0 {
        entries.push((String::from_str("subject"), join_tags(&meta.tags)));
    }
    assert(crate::package::pair_views(entries@) =~= before + (if meta.tags@.len() > 0 {
        seq![("subject"@, comma_joined(string_views(meta.tags@)))]
    } else {
        seq![]
    }));
    push_entry(&mut entries, "generator", &meta.publisher);
    assert(crate::package::pair_views(entries@) =~= planned_metadata(*meta));
    entries
}

/// The cover image to embed, when the book has one.
pub fn plan_cover(meta: &BookMetadata) -> (r: Option<CoverImage>)
    ensures
        match meta.cover_image {
            Some(bytes) => r matches Some(c) && c.data@ == bytes@ && c.mime@ == cover_mime_of(*meta)
                && c.name@ == cover_file_for(cover_mime_of(*meta)),
            None => r is None,
        },
{
    match &meta.cover_image {
        Some(bytes) => {
            let mime = match &meta.cover_mime {
                Some(m) => copy_string(m),
                None => String::from_str("image/jpeg"),
            };
            let png = chars_of("png");
            let name = if contains_chars(chars_of(mime.as_str()).as_slice(), png.as_slice()) {
                String::from_str("cover.png")
            } else {
                String::from_str("cover.jpg")
            };
            let data = bytes.clone();
            assert(data@ =~= bytes@);
            Some(CoverImage { name, data, mime })
        },
        None => None,
    }
}

/// The indices of the source images to embed, in order.
pub fn kept_image_indices(images: &Vec<ImageData>, has_cover: bool) -> (r: Vec<usize>)
    ensures
        forall|k: int| 0 <= k < r.len() ==> #[trigger] r@[k] < images.len(),
        forall|k: int, l: int| 0 <= k < l < r.len() ==> r@[k] < r@[l],
        forall|j: int|
            0 <= j < images.len() ==> (image_kept(images@[j], has_cover) <==> exists|k: int|
                0 <= k < r.len() && #[trigger] r@[k] == j),
{
    let mut out: Vec<usize> = Vec::new();
    let cover_word = chars_of("cover");
    let mut j: usize = 0;
    while j < images.len()
        invariant
            j <= images.len(),
            cover_word@ == "cover"@,
            forall|k: int| 0 <= k < out.len() ==> #[trigger] out@[k] < j,
            forall|k: int, l: int| 0 <= k < l < out.len() ==> out@[k] < out@[l],
            forall|i: int|
                0 <= i < j ==> (image_kept(images@[i], has_cover) <==> exists|k: int|
                    0 <= k < out.len() && #[trigger] out@[k] == i),
        decreases images.len() - j,
    {
        let is_cover = contains_chars(chars_of(images[j].name.as_str()).as_slice(), cover_word.as_slice());
        let ghost before = out@;
        if !(is_cover && has_cover) {
            out.push(j);
            assert(out@[before.len() as int] == j);
        }
        assert forall|i: int|
            0 <= i < j + 1 implies (image_kept(images@[i], has_cover) <==> exists|k: int|
                0 <= k < out.len() && #[trigger] out@[k] == i) by {
            if i < j {
                if image_kept(images@[i], has_cover) {
                    let k = choose|k: int| 0 <= k < before.len() && before[k] == i;
                    assert(out@[k] == i);
                } else {
                    if exists|k: int| 0 <= k < out.len() && #[trigger] out@[k] == i {
                        let k = choose|k: int| 0 <= k < out.len() && out@[k] == i;
                        if k < before.len() {
                            assert(before[k] == i);
                        }
                    }
                }
            } else {
                if image_kept(images@[i], has_cover) {
                    assert(out@[before.len() as int] == i);
                } else {
                    assert(out@ == before);
                }
            }
        }
        j = j + 1;
    }
    out
}

/// The chapter documents: each chapter's content (cleaned for narration
/// when asked) wrapped in the XHTML shell with the book's language.
pub fn chapter_documents(meta: &BookMetadata, chapters: &Vec<Chapter>, tts_optimize: bool) -> (r: Vec<ChapterDocument>)
    ensures
        r.len() == chapters.len(),
        forall|i: int|
            0 <= i < chapters.len() ==> {
                &&& (#[trigger] r@[i]).filename@ == chapters@[i].filename@
                &&& r@[i].title@ == chapters@[i].title@
                &&& r@[i].xhtml@ == xhtml_document(
                    chapters@[i].title@,
                    chapter_lang(*meta),
                    chapter_body(chapters@[i].content@, tts_optimize),
                )
            },
{
    let lang = match &meta.language {
        Some(l) => copy_string(l),
        None => String::from_str("en"),
    };
    let mut out: Vec<ChapterDocument> = Vec::new();
    let mut i: usize = 0;
    while i < chapters.len()
        invariant
            i <= chapters.len(),
            lang@ == chapter_lang(*meta),
            out.len() == i,
            forall|k: int|
                0 <= k < i ==> {
                    &&& (#[trigger] out@[k]).filename@ == chapters@[k].filename@
                    &&& out@[k].title@ == chapters@[k].title@
                    &&& out@[k].xhtml@ == xhtml_document(
                        chapters@[k].title@,
                        chapter_lang(*meta),
                        chapter_body(chapters@[k].content@, tts_optimize),
                    )
                },
        decreases chapters.len() - i,
    {
        let ch = &chapters[i];
        let body = if tts_optimize {
            clean_for_tts(ch.content.as_str())
        } else {
            copy_string(&ch.content)
        };
        let xhtml = wrap_xhtml(ch.title.as_str(), lang.as_str(), body.as_str());
        out.push(ChapterDocument { filename: copy_string(&ch.filename), xhtml, title: copy_string(&ch.title) });
        i = i + 1;
    }
    out
}

/// Plans the EPUB for a book.
pub fn plan_epub(
    meta: &BookMetadata,
    chapters: &Vec<Chapter>,
    images: &Vec<ImageData>,
    epub_version: EpubVersion,
    tts_optimize: bool,
) -> (plan: EpubPlan)
    ensures
        is_plan_for(plan, *meta, chapters@, images@, epub_version, tts_optimize),
{
    let metadata = metadata_entries(meta);
    let cover = plan_cover(meta);
    let has_cover = match &meta.cover_image {
        Some(_) => true,
        None => false,
    };
    let kept_images = kept_image_indices(images, has_cover);
    let docs = chapter_documents(meta, chapters, tts_optimize);
    let plan = EpubPlan { version: epub_version, metadata, cover, kept_images, chapters: docs };
    assert(has_cover == (meta.cover_image is Some));
    assert forall|j: int| 0 <= j < images@.len() implies (image_kept(
        images@[j],
        meta.cover_image is Some,
    ) <==> exists|k: int| 0 <= k < plan.kept_images.len() && #[trigger] plan.kept_images@[k] == j) by {
        assert(plan.kept_images@ == kept_images@);
        assert(image_kept(images@[j], has_cover) <==> exists|k: int|
            0 <= k < kept_images.len() && #[trigger] kept_images@[k] == j);
    }
    assert(forall|i: int|
        0 <= i < chapters@.len() ==> {
            &&& (#[trigger] plan.chapters@[i]).filename@ == chapters@[i].filename@
            &&& plan.chapters@[i].title@ == chapters@[i].title@
        });
    plan
}

} // verus!

verus! {

/// One call handed to epub-builder, as plain values.
pub enum BuilderCall {
    /// `epub_version`.
    Version(EpubVersion),
    /// `metadata(key, value)`.
    Metadata(Seq<char>, Seq<char>),
    /// `stylesheet` with this text.
    Stylesheet(Seq<char>),
    /// `add_cover_image(name, data, media type)`.
    Cover(Seq<char>, Seq<u8>, Seq<char>),
    /// `add_resource(name, data, media type)`.
    Resource(Seq<char>, Seq<u8>, Seq<char>),
    /// `add_content` of a text chapter: file name, XHTML, title.
    Chapter(Seq<char>, Seq<char>, Seq<char>),
    /// `inline_toc`.
    InlineToc,
}

/// An epub-builder `EpubBuilder` over its in-memory ZIP library, held
/// opaquely: its generic parameter is bounded by a trait epub-builder does
/// not export, so the type cannot be declared by itself.
#[verifier::external_body]
pub struct BuilderHandle {
    builder: epub_builder::EpubBuilder<epub_builder::ZipLibrary>,
}

/// An EPUB being built, with the calls handed to it so far, in order (a
/// call that failed counts as handed all the same).
pub struct EpubWriter {
    handle: BuilderHandle,
    calls: Ghost<Seq<BuilderCall>>,
}

impl EpubWriter {
    pub closed spec fn calls(&self) -> Seq<BuilderCall> {
        self.calls@
    }
}

/// `bytes` is an EPUB archive that `EpubBuilder::generate` can write after
/// being handed `calls` (the archive records the time and a random
/// identifier, so it is a relation, not a function).
pub uninterp spec fn epub_generated_from(bytes: Seq<u8>, calls: Seq<BuilderCall>) -> bool;

#[verifier::external_type_specification]
#[verifier::external_body]
pub struct ExZipLibrary(epub_builder::ZipLibrary);

#[verifier::external_type_specification]
#[verifier::external_body]
pub struct ExEpubBuilderError(epub_builder::Error);

#[verifier::external_type_specification]
#[verifier::external_body]
pub struct ExBuilderVersion(BuilderVersion);

/// Why building an EPUB failed: the step, and epub-builder's message.
#[derive(Debug, Clone)]
pub struct BuildError {
    pub context: String,
    pub message: String,
}

/// The message of an epub-builder error, through its `Display` impl.
#[verifier::external_body]
fn builder_error_message(e: &epub_builder::Error) -> String {
    e.to_string()
}

fn build_error(context: &str, e: epub_builder::Error) -> (r: BuildError)
    ensures
        r.context@ == context@,
{
    BuildError { context: string_of(chars_of(context).as_slice()), message: builder_error_message(&e) }
}

/// The metadata keys `EpubBuilder::metadata` takes whatever the value.
pub open spec fn metadata_key_known(key: Seq<char>) -> bool {
    key == "author"@ || key == "title"@ || key == "lang"@ || key == "generator"@ || key == "description"@
        || key == "subject"@ || key == "license"@ || key == "toc_name"@
}

/// Whether `EpubBuilder::metadata` accepts this key and value.
pub uninterp spec fn metadata_accepted(key: Seq<char>, value: Seq<char>) -> bool;

/// Whether `EpubBuilder::stylesheet` accepts this stylesheet after the
/// builder was handed `done`.
pub uninterp spec fn stylesheet_accepted(done: Seq<BuilderCall>, css: Seq<char>) -> bool;

/// Whether `EpubBuilder::add_cover_image` accepts this image after the
/// builder was handed `done`.
pub uninterp spec fn cover_accepted(done: Seq<BuilderCall>, name: Seq<char>, data: Seq<u8>, mime: Seq<char>) -> bool;

/// Whether `EpubBuilder::add_resource` accepts this resource after the
/// builder was handed `done`.
pub uninterp spec fn resource_accepted(done: Seq<BuilderCall>, name: Seq<char>, data: Seq<u8>, mime: Seq<char>) -> bool;

/// Whether `EpubBuilder::add_content` accepts this chapter after the builder
/// was handed `done`.
pub uninterp spec fn chapter_accepted(done: Seq<BuilderCall>, filename: Seq<char>, xhtml: Seq<char>, title: Seq<char>) -> bool;

/// Whether `EpubBuilder::generate` succeeds after the builder was handed
/// `calls`.
pub uninterp spec fn epub_generates(calls: Seq<BuilderCall>) -> bool;

/// Calls `epub_builder::ZipLibrary::new`, which writes the `mimetype` entry
/// into a fresh in-memory archive; writing into memory cannot fail, so the
/// library is always made.
#[verifier::external_body]
fn new_zip_library() -> (r: Result<epub_builder::ZipLibrary, epub_builder::Error>)
    ensures
        r is Ok,
{
    epub_builder::ZipLibrary::new()
}

/// Calls `epub_builder::EpubBuilder::new`, which writes two fixed entries
/// into the library's in-memory archive. A `ZipLibrary` holds only its
/// `mimetype` entry until a builder writes to it, so the names cannot clash
/// and the builder is always made; nothing is handed to it yet.
#[verifier::external_body]
fn new_builder(zip: epub_builder::ZipLibrary) -> (r: Result<EpubWriter, epub_builder::Error>)
    ensures
        r is Ok,
        r matches Ok(w) ==> w.calls() == Seq::<BuilderCall>::empty(),
{
    epub_builder::EpubBuilder::new(zip).map(|builder| EpubWriter { handle: BuilderHandle { builder }, calls: Ghost(Seq::empty()) })
}

/// Calls `EpubBuilder::epub_version` with EPUB 2.0.1 (`V20`) for `V2` and
/// EPUB 3.0.1 (`V30`) for `V3`.
#[verifier::external_body]
fn set_builder_version(w: &mut EpubWriter, v: EpubVersion)
    ensures
        final(w).calls() == old(w).calls().push(BuilderCall::Version(v)),
{
    w.handle.builder.epub_version(match v {
        EpubVersion::V2 => BuilderVersion::V20,
        EpubVersion::V3 => BuilderVersion::V30,
    });
}

/// Calls `EpubBuilder::metadata` with one key and value: it succeeds for
/// the keys it knows whatever the value, and fails for a key other than
/// those and `direction`.
#[verifier::external_body]
fn set_builder_metadata(w: &mut EpubWriter, key: &str, value: &str) -> (r: Result<(), epub_builder::Error>)
    ensures
        final(w).calls() == old(w).calls().push(BuilderCall::Metadata(key@, value@)),
        r is Ok <==> metadata_accepted(key@, value@),
        metadata_key_known(key@) ==> r is Ok,
        !metadata_key_known(key@) && key@ != "direction"@ ==> r is Err,
{
    w.handle.builder.metadata(key, value).map(|_| ())
}

/// Calls `EpubBuilder::stylesheet` with the stylesheet's bytes.
#[verifier::external_body]
fn set_builder_stylesheet(w: &mut EpubWriter, css: &str) -> (r: Result<(), epub_builder::Error>)
    ensures
        final(w).calls() == old(w).calls().push(BuilderCall::Stylesheet(css@)),
        r is Ok <==> stylesheet_accepted(old(w).calls(), css@),
{
    w.handle.builder.stylesheet(css.as_bytes()).map(|_| ())
}

/// Calls `EpubBuilder::add_cover_image`.
#[verifier::external_body]
fn add_builder_cover(w: &mut EpubWriter, name: &str, data: &[u8], mime: &str) -> (r: Result<(), epub_builder::Error>)
    ensures
        final(w).calls() == old(w).calls().push(BuilderCall::Cover(name@, data@, mime@)),
        r is Ok <==> cover_accepted(old(w).calls(), name@, data@, mime@),
{
    w.handle.builder.add_cover_image(name, data, mime).map(|_| ())
}

/// Calls `EpubBuilder::add_resource`.
#[verifier::external_body]
fn add_builder_resource(w: &mut EpubWriter, name: &str, data: &[u8], mime: &str) -> (r: Result<(), epub_builder::Error>)
    ensures
        final(w).calls() == old(w).calls().push(BuilderCall::Resource(name@, data@, mime@)),
        r is Ok <==> resource_accepted(old(w).calls(), name@, data@, mime@),
{
    w.handle.builder.add_resource(name, data, mime).map(|_| ())
}

/// Calls `EpubBuilder::add_content` with an `EpubContent` made from the
/// file name and XHTML bytes, titled, with reference type `Text`.
#[verifier::external_body]
fn add_builder_chapter(w: &mut EpubWriter, filename: &str, xhtml: &str, title: &str) -> (r: Result<(), epub_builder::Error>)
    ensures
        final(w).calls() == old(w).calls().push(BuilderCall::Chapter(filename@, xhtml@, title@)),
        r is Ok <==> chapter_accepted(old(w).calls(), filename@, xhtml@, title@),
{
    let content = epub_builder::EpubContent::new(filename, xhtml.as_bytes())
        .title(title)
        .reftype(epub_builder::ReferenceType::Text);
    w.handle.builder.add_content(content).map(|_| ())
}

/// Calls `EpubBuilder::inline_toc`.
#[verifier::external_body]
fn add_builder_inline_toc(w: &mut EpubWriter)
    ensures
        final(w).calls() == old(w).calls().push(BuilderCall::InlineToc),
{
    w.handle.builder.inline_toc();
}

/// Calls `EpubBuilder::generate` into a byte vector: it succeeds as the
/// calls the builder was handed decide, and then gives an archive generated
/// from them.
#[verifier::external_body]
fn generate_epub(w: EpubWriter) -> (r: Result<Vec<u8>, epub_builder::Error>)
    ensures
        r is Ok <==> epub_generates(w.calls()),
        r matches Ok(b) ==> epub_generated_from(b@, w.calls()),
{
    let mut out = Vec::new();
    w.handle.builder.generate(&mut out).map(|_| out)
}

/// The metadata calls of a plan's entries.
pub open spec fn metadata_calls(entries: Seq<(Seq<char>, Seq<char>)>) -> Seq<BuilderCall> {
    entries.map_values(|p: (Seq<char>, Seq<char>)| BuilderCall::Metadata(p.0, p.1))
}

/// The resource calls of the kept source images, in order.
pub open spec fn resource_calls(kept: Seq<usize>, images: Seq<ImageData>) -> Seq<BuilderCall> {
    kept.map_values(|k: usize| BuilderCall::Resource(images[k as int].name@, images[k as int].data@, images[k as int].mime_type@))
}

/// The chapter calls of the planned documents, in order.
pub open spec fn chapter_calls(docs: Seq<ChapterDocument>) -> Seq<BuilderCall> {
    docs.map_values(|d: ChapterDocument| BuilderCall::Chapter(d.filename@, d.xhtml@, d.title@))
}

/// Whether epub-builder accepts call `c` after being handed `done`.
pub open spec fn call_accepted(done: Seq<BuilderCall>, c: BuilderCall) -> bool {
    match c {
        BuilderCall::Version(_) => true,
        BuilderCall::Metadata(k, v) => metadata_accepted(k, v),
        BuilderCall::Stylesheet(css) => stylesheet_accepted(done, css),
        BuilderCall::Cover(n, d, m) => cover_accepted(done, n, d, m),
        BuilderCall::Resource(n, d, m) => resource_accepted(done, n, d, m),
        BuilderCall::Chapter(f, x, t) => chapter_accepted(done, f, x, t),
        BuilderCall::InlineToc => true,
    }
}

/// Where writing stands: failed at the step named, or the calls handed so
/// far.
pub enum WriteStep {
    Failed(Seq<char>),
    Handed(Seq<BuilderCall>),
}

/// One call that must succeed: handed, and on failure writing stops with
/// `ctx`.
pub open spec fn step_required(st: WriteStep, c: BuilderCall, ctx: Seq<char>) -> WriteStep {
    match st {
        WriteStep::Failed(x) => WriteStep::Failed(x),
        WriteStep::Handed(d) => if call_accepted(d, c) {
            WriteStep::Handed(d.push(c))
        } else {
            WriteStep::Failed(ctx)
        },
    }
}

/// How a failed call is named: `set ` and the key for metadata, `add
/// chapter` for a chapter.
pub open spec fn call_context(c: BuilderCall) -> Seq<char> {
    match c {
        BuilderCall::Metadata(k, _) => "set "@ + k,
        _ => "add chapter"@,
    }
}

/// The calls `calls`, each of which must succeed, in order.
pub open spec fn run_required(st: WriteStep, calls: Seq<BuilderCall>) -> WriteStep
    decreases calls.len(),
{
    if calls.len() == 0 {
        st
    } else {
        step_required(run_required(st, calls.drop_last()), calls.last(), call_context(calls.last()))
    }
}

/// Calls handed whatever their outcome.
pub open spec fn run_ignoring_failures(st: WriteStep, calls: Seq<BuilderCall>) -> WriteStep {
    match st {
        WriteStep::Failed(x) => WriteStep::Failed(x),
        WriteStep::Handed(d) => WriteStep::Handed(d + calls),
    }
}

/// Writing `plan` up to its chapters: the version; each metadata entry,
/// which must be accepted; the stylesheet and the cover, which must be
/// accepted; the kept source images, whose failures are ignored.
pub open spec fn write_before_chapters(plan: EpubPlan, images: Seq<ImageData>) -> WriteStep {
    let s1 = run_required(
        WriteStep::Handed(seq![BuilderCall::Version(plan.version)]),
        metadata_calls(crate::package::pair_views(plan.metadata@)),
    );
    let s2 = step_required(s1, BuilderCall::Stylesheet(default_css()), "set stylesheet"@);
    let s3 = match plan.cover {
        Some(c) => step_required(s2, BuilderCall::Cover(c.name@, c.data@, c.mime@), "add cover image"@),
        None => s2,
    };
    run_ignoring_failures(s3, resource_calls(plan.kept_images@, images))
}

/// Writing `plan` up to generating the archive: the steps before the
/// chapters, then each chapter document, which must be accepted, then the
/// inline table of contents.
pub open spec fn write_run(plan: EpubPlan, images: Seq<ImageData>) -> WriteStep {
    match run_required(write_before_chapters(plan, images), chapter_calls(plan.chapters@)) {
        WriteStep::Handed(d) => WriteStep::Handed(d.push(BuilderCall::InlineToc)),
        WriteStep::Failed(x) => WriteStep::Failed(x),
    }
}

/// `r` is what writing `plan` gives: the error of the step that failed, or,
/// when every step was accepted, the archive generated from the calls
/// handed, or the generating error.
pub open spec fn is_write_result(plan: EpubPlan, images: Seq<ImageData>, r: Result<Vec<u8>, BuildError>) -> bool {
    match write_run(plan, images) {
        WriteStep::Failed(ctx) => r matches Err(e) && e.context@ == ctx,
        WriteStep::Handed(calls) => {
            &&& r is Ok <==> epub_generates(calls)
            &&& r matches Ok(b) ==> epub_generated_from(b@, calls)
            &&& r matches Err(e) ==> e.context@ == "generate epub"@
        },
    }
}

proof fn lemma_run_from_failed(x: Seq<char>, calls: Seq<BuilderCall>)
    ensures
        run_required(WriteStep::Failed(x), calls) == WriteStep::Failed(x),
    decreases calls.len(),
{
    if calls.len() > 0 {
        lemma_run_from_failed(x, calls.drop_last());
    }
}

proof fn lemma_run_stays_failed(st: WriteStep, calls: Seq<BuilderCall>, j: int)
    requires
        0 <= j <= calls.len(),
        run_required(st, calls.take(j)) is Failed,
    ensures
        run_required(st, calls) == run_required(st, calls.take(j)),
    decreases calls.len() - j,
{
    if j < calls.len() {
        assert(calls.drop_last().take(j) =~= calls.take(j));
        lemma_run_stays_failed(st, calls.drop_last(), j);
    } else {
        assert(calls.take(j) =~= calls);
    }
}

/// Writes a planned EPUB with epub-builder: version, metadata entries,
/// stylesheet, cover, kept source images (failures to add one are ignored),
/// chapters, inline table of contents, then the archive. A failed step is
/// reported with its context.
pub fn write_epub(plan: &EpubPlan, images: &Vec<ImageData>) -> (r: Result<Vec<u8>, BuildError>)
    requires
        forall|k: int| 0 <= k < plan.kept_images.len() ==> #[trigger] plan.kept_images@[k] < images.len(),
    ensures
        is_write_result(*plan, images@, r),
{
    let ghost entries = crate::package::pair_views(plan.metadata@);
    let ghost mcalls = metadata_calls(entries);
    let ghost ccalls = chapter_calls(plan.chapters@);
    let zip = match new_zip_library() {
        Ok(z) => z,
        Err(e) => {
            return Err(build_error("zip library init failed", e));
        },
    };
    let mut builder = match new_builder(zip) {
        Ok(b) => b,
        Err(e) => {
            return Err(build_error("epub builder init failed", e));
        },
    };
    set_builder_version(&mut builder, plan.version);
    let ghost head = WriteStep::Handed(seq![BuilderCall::Version(plan.version)]);
    assert(builder.calls() =~= seq![BuilderCall::Version(plan.version)]);
    assert(mcalls.take(0) =~= Seq::<BuilderCall>::empty());
    let mut i: usize = 0;
    while i < plan.metadata.len()
        invariant
            i <= plan.metadata.len(),
            entries == crate::package::pair_views(plan.metadata@),
            mcalls == metadata_calls(entries),
            mcalls.len() == plan.metadata.len(),
            ccalls == chapter_calls(plan.chapters@),
            head == WriteStep::Handed(seq![BuilderCall::Version(plan.version)]),
            run_required(head, mcalls.take(i as int)) == WriteStep::Handed(builder.calls()),
        decreases plan.metadata.len() - i,
    {
        let (key, value) = &plan.metadata[i];
        let ghost before = builder.calls();
        assert(entries[i as int] == (key@, value@));
        assert(mcalls[i as int] == BuilderCall::Metadata(key@, value@));
        assert(mcalls.take(i + 1).drop_last() =~= mcalls.take(i as int));
        assert(mcalls.take(i + 1).last() == mcalls[i as int]);
        match set_builder_metadata(&mut builder, key.as_str(), value.as_str()) {
            Ok(()) => {},
            Err(e) => {
                let mut context = String::from_str("set ");
                context.append(key.as_str());
                proof {
                    assert(call_context(BuilderCall::Metadata(key@, value@)) == context@);
                    assert(run_required(head, mcalls.take(i + 1)) == WriteStep::Failed(context@));
                    lemma_run_stays_failed(head, mcalls, i + 1);
                    lemma_run_from_failed(context@, ccalls);
                    assert(run_required(head, mcalls) == WriteStep::Failed(context@));
                    assert(write_run(*plan, images@) == WriteStep::Failed(context@));
                }
                return Err(build_error(context.as_str(), e));
            },
        }
        i = i + 1;
    }
    assert(mcalls.take(plan.metadata.len() as int) =~= mcalls);
    let ghost s1 = run_required(head, mcalls);
    match set_builder_stylesheet(&mut builder, default_css_text()) {
        Ok(()) => {},
        Err(e) => {
            proof {
                lemma_run_from_failed("set stylesheet"@, ccalls);
            }
            return Err(build_error("set stylesheet", e));
        },
    }
    match &plan.cover {
        Some(c) => match add_builder_cover(&mut builder, c.name.as_str(), c.data.as_slice(), c.mime.as_str()) {
            Ok(()) => {},
            Err(e) => {
                proof {
                    lemma_run_from_failed("add cover image"@, ccalls);
                }
                return Err(build_error("add cover image", e));
            },
        },
        None => {},
    }
    let ghost mid = builder.calls();
    let mut k: usize = 0;
    while k < plan.kept_images.len()
        invariant
            k <= plan.kept_images.len(),
            forall|j: int| 0 <= j < plan.kept_images.len() ==> #[trigger] plan.kept_images@[j] < images.len(),
            builder.calls() == mid + resource_calls(plan.kept_images@.take(k as int), images@),
        decreases plan.kept_images.len() - k,
    {
        let img = &images[plan.kept_images[k]];
        assert(resource_calls(plan.kept_images@.take(k + 1), images@) =~= resource_calls(
            plan.kept_images@.take(k as int),
            images@,
        ).push(BuilderCall::Resource(img.name@, img.data@, img.mime_type@)));
        let _ = add_builder_resource(&mut builder, img.name.as_str(), img.data.as_slice(), img.mime_type.as_str());
        k = k + 1;
    }
    assert(plan.kept_images@.take(plan.kept_images.len() as int) =~= plan.kept_images@);
    let ghost s4 = WriteStep::Handed(builder.calls());
    assert(s4 == write_before_chapters(*plan, images@));
    assert(ccalls.take(0) =~= Seq::<BuilderCall>::empty());
    let mut c: usize = 0;
    while c < plan.chapters.len()
        invariant
            c <= plan.chapters.len(),
            ccalls == chapter_calls(plan.chapters@),
            ccalls.len() == plan.chapters.len(),
            s4 == write_before_chapters(*plan, images@),
            run_required(s4, ccalls.take(c as int)) == WriteStep::Handed(builder.calls()),
        decreases plan.chapters.len() - c,
    {
        let doc = &plan.chapters[c];
        assert(ccalls[c as int] == BuilderCall::Chapter(doc.filename@, doc.xhtml@, doc.title@));
        assert(ccalls.take(c + 1).drop_last() =~= ccalls.take(c as int));
        assert(ccalls.take(c + 1).last() == ccalls[c as int]);
        match add_builder_chapter(&mut builder, doc.filename.as_str(), doc.xhtml.as_str(), doc.title.as_str()) {
            Ok(()) => {},
            Err(e) => {
                proof {
                    assert(call_context(BuilderCall::Chapter(doc.filename@, doc.xhtml@, doc.title@)) == "add chapter"@);
                    assert(run_required(s4, ccalls.take(c + 1)) == WriteStep::Failed("add chapter"@));
                    lemma_run_stays_failed(s4, ccalls, c + 1);
                    assert(run_required(s4, ccalls) == WriteStep::Failed("add chapter"@));
                    assert(write_run(*plan, images@) == WriteStep::Failed("add chapter"@));
                }
                return Err(build_error("add chapter", e));
            },
        }
        c = c + 1;
    }
    assert(ccalls.take(plan.chapters.len() as int) =~= ccalls);
    add_builder_inline_toc(&mut builder);
    match generate_epub(builder) {
        Ok(bytes) => Ok(bytes),
        Err(e) => Err(build_error("generate epub", e)),
    }
}

/// Builds the EPUB for a book: plans it (metadata, cover, images, chapter
/// documents cleaned for narration when `tts_optimize` holds) and writes the
/// plan with epub-builder. Its outcome is that of writing the plan: the
/// first step epub-builder refuses, or the archive generated from every
/// planned call.
pub fn build_epub(
    meta: &BookMetadata,
    chapters: &Vec<Chapter>,
    images: &Vec<ImageData>,
    epub_version: EpubVersion,
    tts_optimize: bool,
) -> (r: Result<Vec<u8>, BuildError>)
    ensures
        exists|plan: EpubPlan|
            is_plan_for(plan, *meta, chapters@, images@, epub_version, tts_optimize) && #[trigger] is_write_result(
                plan,
                images@,
                r,
            ),
{
    let plan = plan_epub(meta, chapters, images, epub_version, tts_optimize);
    write_epub(&plan, images)
}

} // verus!

verus! {

proof fn lemma_contains_in_sum(
    x: Seq<(Seq<char>, Seq<char>)>,
    y: Seq<(Seq<char>, Seq<char>)>,
    e: (Seq<char>, Seq<char>),
)
    requires
        x.contains(e) || y.contains(e),
    ensures
        (x + y).contains(e),
{
    if x.contains(e) {
        let i = choose|i: int| 0 <= i < x.len() && x[i] == e;
        assert((x + y)[i] == e);
    } else {
        let i = choose|i: int| 0 <= i < y.len() && y[i] == e;
        assert((x + y)[x.len() + i] == e);
    }
}

/// The metadata entries, in order.
spec fn metadata_parts(m: BookMetadata) -> Seq<Seq<(Seq<char>, Seq<char>)>> {
    seq![
        entry_if("title"@, m.title),
        entry_if("author"@, m.author),
        entry_if("lang"@, m.language),
        entry_if("description"@, m.description),
        if m.tags@.len() > 0 {
            seq![("subject"@, comma_joined(string_views(m.tags@)))]
        } else {
            seq![]
        },
        entry_if("generator"@, m.publisher),
    ]
}

proof fn lemma_part_present(m: BookMetadata, k: int)
    requires
        0 <= k < 6,
        metadata_parts(m)[k].len() == 1,
    ensures
        planned_metadata(m).contains(metadata_parts(m)[k][0]),
{
    let p = metadata_parts(m);
    let e = p[k][0];
    assert(p[k].contains(e)) by {
        assert(p[k][0] == e);
    }
    assert(planned_metadata(m) == p[0] + p[1] + p[2] + p[3] + p[4] + p[5]);
    if k <= 1 {
        lemma_contains_in_sum(p[0], p[1], e);
    }
    if k <= 2 {
        lemma_contains_in_sum(p[0] + p[1], p[2], e);
    }
    if k <= 3 {
        lemma_contains_in_sum(p[0] + p[1] + p[2], p[3], e);
    }
    if k <= 4 {
        lemma_contains_in_sum(p[0] + p[1] + p[2] + p[3], p[4], e);
    }
    lemma_contains_in_sum(p[0] + p[1] + p[2] + p[3] + p[4], p[5], e);
}

/// Every metadata field the book has is set on the EPUB under its key:
/// the title as `title`, the author as `author`, the language as `lang`,
/// the description as `description`, the publisher as `generator`, and the
/// tags, when there are any, as one `subject`.
pub proof fn law_present_metadata_is_written(m: BookMetadata)
    ensures
        m.title matches Some(t) ==> planned_metadata(m).contains(("title"@, t@)),
        m.author matches Some(a) ==> planned_metadata(m).contains(("author"@, a@)),
        m.language matches Some(l) ==> planned_metadata(m).contains(("lang"@, l@)),
        m.description matches Some(d) ==> planned_metadata(m).contains(("description"@, d@)),
        m.publisher matches Some(p) ==> planned_metadata(m).contains(("generator"@, p@)),
        m.tags@.len() > 0 ==> planned_metadata(m).contains(("subject"@, comma_joined(string_views(m.tags@)))),
{
    let p = metadata_parts(m);
    if m.title is Some {
        lemma_part_present(m, 0);
    }
    if m.author is Some {
        lemma_part_present(m, 1);
    }
    if m.language is Some {
        lemma_part_present(m, 2);
    }
    if m.description is Some {
        lemma_part_present(m, 3);
    }
    if m.tags@.len() > 0 {
        lemma_part_present(m, 4);
    }
    if m.publisher is Some {
        lemma_part_present(m, 5);
    }
}

/// The tags are written as one subject, joined with ", " in order: one tag
/// as itself, and each further tag after a ", ".
pub proof fn law_subject_joins_tags(parts: Seq<Seq<char>>, x: Seq<char>)
    ensures
        comma_joined(seq![x]) == x,
        parts.len() > 0 ==> comma_joined(parts.push(x)) == comma_joined(parts) + ", "@ + x,
{
    assert(parts.push(x).drop_last() =~= parts);
}

} // verus!
