//! The decisions of the HTTP API: gathering a conversion request from its
//! form fields, and the statuses, bodies and headers of its responses.

use vstd::prelude::*;

use crate::models::{ConvertOptions, EpubVersion, ErrorResponse, HealthResponse, version_named};
use crate::pipeline::writer::BuildError;
use crate::text::{chars_of, lowercased, str_eq, string_of, to_lowercase, trim, trimmed};
use crate::xml::opt_view;

verus! {

/// The body of the health endpoint.
pub fn health_response() -> (r: HealthResponse)
    ensures
        r.status@ == "ok"@,
{
    HealthResponse { status: String::from_str("ok") }
}

/// The body of an error response.
pub fn error_response(msg: &str) -> (r: ErrorResponse)
    ensures
        r.error@ == msg@,
{
    ErrorResponse { error: string_of(chars_of(msg).as_slice()) }
}

/// A boolean form value: false exactly for "false", "0" or "no" (after
/// trimming, in any case).
pub open spec fn form_flag(text: Seq<char>) -> bool {
    let t = lowercased(trimmed(text));
    !(t == "false"@ || t == "0"@ || t == "no"@)
}

/// Reads a boolean form value.
pub fn parse_form_flag(text: &str) -> (b: bool)
    ensures
        b == form_flag(text@),
{
    let t = trim(text);
    let l = to_lowercase(t.as_str());
    !(str_eq(l.as_str(), "false") || str_eq(l.as_str(), "0") || str_eq(l.as_str(), "no"))
}

/// `after` is `before` with the form field `name` (whose text is `text`)
/// taken into account.
pub open spec fn form_field_applied(before: ConvertOptions, name: Seq<char>, text: Seq<char>, after: ConvertOptions) -> bool {
    if name == "epub_version"@ {
        after.epub_version == (match version_named(trimmed(text)) {
            Some(v) => v,
            None => EpubVersion::V3,
        }) && after.enrich == before.enrich && after.tts_optimize == before.tts_optimize
            && after.isbn_override == before.isbn_override
    } else if name == "enrich"@ {
        after.enrich == form_flag(text) && after.epub_version == before.epub_version
            && after.tts_optimize == before.tts_optimize && after.isbn_override == before.isbn_override
    } else if name == "tts_optimize"@ {
        after.tts_optimize == form_flag(text) && after.epub_version == before.epub_version
            && after.enrich == before.enrich && after.isbn_override == before.isbn_override
    } else if name == "isbn"@ {
        (if trimmed(text).len() > 0 {
            opt_view(after.isbn_override) == Some(trimmed(text))
        } else {
            after.isbn_override == before.isbn_override
        }) && after.epub_version == before.epub_version && after.enrich == before.enrich
            && after.tts_optimize == before.tts_optimize
    } else {
        after == before
    }
}

/// Takes a text form field of a conversion request into the options:
/// `epub_version` (2 or 3, anything else meaning 3), `enrich` and
/// `tts_optimize` (false only for "false", "0" or "no"), and `isbn` (ignored
/// when blank). Other fields change nothing.
pub fn apply_form_field(opts: &mut ConvertOptions, name: &str, text: &str)
    ensures
        form_field_applied(*old(opts), name@, text@, *final(opts)),
{
    if str_eq(name, "epub_version") {
        opts.epub_version = match EpubVersion::parse(text) {
            Ok(v) => v,
            Err(_) => EpubVersion::V3,
        };
    } else if str_eq(name, "enrich") {
        opts.enrich = parse_form_flag(text);
    } else if str_eq(name, "tts_optimize") {
        opts.tts_optimize = parse_form_flag(text);
    } else if str_eq(name, "isbn") {
        let t = trim(text);
        if chars_of(t.as_str()).len() > 0 {
            opts.isbn_override = Some(t);
        }
    }
}

/// What the form of a conversion request has given so far: the uploaded
/// file's bytes, its name (`upload` until a file field names one), and the
/// conversion options.
pub struct ConvertForm {
    pub file: Option<Vec<u8>>,
    pub filename: String,
    pub opts: ConvertOptions,
}

impl ConvertForm {
    /// A form with nothing taken yet: no file, the name `upload`, the
    /// default options.
    pub fn new() -> (f: ConvertForm)
        ensures
            f.file is None,
            f.filename@ == "upload"@,
            f.opts.epub_version == EpubVersion::V3,
            f.opts.enrich,
            f.opts.tts_optimize,
            f.opts.isbn_override is None,
    {
        ConvertForm { file: None, filename: String::from_str("upload"), opts: ConvertOptions::default() }
    }

    /// Takes a file field: the name it carries, if any, becomes the file
    /// name, and its bytes become the file (a later file field wins).
    pub fn take_file(&mut self, file_name: Option<String>, bytes: Vec<u8>)
        ensures
            final(self).file matches Some(b) && b@ == bytes@,
            final(self).filename@ == (match file_name {
                Some(n) => n@,
                None => old(self).filename@,
            }),
            final(self).opts == old(self).opts,
    {
        match file_name {
            Some(n) => {
                self.filename = n;
            },
            None => {},
        }
        self.file = Some(bytes);
    }

    /// Takes a text field into the options (see `apply_form_field`).
    pub fn take_text(&mut self, name: &str, text: &str)
        ensures
            form_field_applied(old(self).opts, name@, text@, final(self).opts),
            final(self).file == old(self).file,
            final(self).filename == old(self).filename,
    {
        apply_form_field(&mut self.opts, name, text);
    }

    /// The upload the form describes, once all fields are taken: its bytes,
    /// name and options; a form without a file field is refused.
    pub fn into_upload(self) -> (r: Result<(Vec<u8>, String, ConvertOptions), ConvertFailure>)
        ensures
            match self.file {
                Some(b) => r matches Ok(u) && u.0@ == b@ && u.1 == self.filename && u.2 == self.opts,
                None => r matches Err(ConvertFailure::NoFile),
            },
    {
        match self.file {
            Some(b) => Ok((b, self.filename, self.opts)),
            None => Err(ConvertFailure::NoFile),
        }
    }
}

/// Why a conversion request failed, with the message of the failure
/// beneath it where there is one.
pub enum ConvertFailure {
    /// The file field could not be read.
    FileFieldUnreadable(String),
    /// The form had no file field.
    NoFile,
    /// The uploaded book could not be read.
    ReadFailed(String),
    /// A worker task panicked.
    TaskPanicked(String),
    /// The EPUB could not be built.
    BuildFailed(BuildError),
}

/// The HTTP status a failure is answered with: 400 for a bad form, 422 for a
/// book that cannot be read or built, 500 for a panicked task.
pub open spec fn failure_status(f: ConvertFailure) -> u16 {
    match f {
        ConvertFailure::FileFieldUnreadable(_) => 400,
        ConvertFailure::NoFile => 400,
        ConvertFailure::ReadFailed(_) => 422,
        ConvertFailure::TaskPanicked(_) => 500,
        ConvertFailure::BuildFailed(_) => 422,
    }
}

/// The error message a failure is answered with; a build failure is named by
/// the step that failed.
pub open spec fn failure_message(f: ConvertFailure) -> Seq<char> {
    match f {
        ConvertFailure::FileFieldUnreadable(e) => "failed to read file field: "@ + e@,
        ConvertFailure::NoFile => "no file field in multipart body"@,
        ConvertFailure::ReadFailed(e) => "read error: "@ + e@,
        ConvertFailure::TaskPanicked(e) => "task panic: "@ + e@,
        ConvertFailure::BuildFailed(e) => "build error: "@ + e.context@,
    }
}

fn prefixed(prefix: &str, rest: &str) -> (r: String)
    ensures
        r@ == prefix@ + rest@,
{
    let mut r = String::from_str(prefix);
    r.append(rest);
    r
}

/// The status and body a failed conversion request is answered with.
pub fn failure_reply(f: &ConvertFailure) -> (r: (u16, ErrorResponse))
    ensures
        r.0 == failure_status(*f),
        r.1.error@ == failure_message(*f),
{
    match f {
        ConvertFailure::FileFieldUnreadable(e) => (400, ErrorResponse { error: prefixed("failed to read file field: ", e.as_str()) }),
        ConvertFailure::NoFile => (400, ErrorResponse { error: String::from_str("no file field in multipart body") }),
        ConvertFailure::ReadFailed(e) => (422, ErrorResponse { error: prefixed("read error: ", e.as_str()) }),
        ConvertFailure::TaskPanicked(e) => (500, ErrorResponse { error: prefixed("task panic: ", e.as_str()) }),
        ConvertFailure::BuildFailed(e) => (422, ErrorResponse { error: prefixed("build error: ", e.context.as_str()) }),
    }
}

/// The `Content-Disposition` value that offers the converted book as
/// `<stem>.epub`.
pub fn content_disposition(stem: &str) -> (r: String)
    ensures
        r@ == "attachment; filename=\""@ + stem@ + ".epub\""@,
{
    let mut r = String::from_str("attachment; filename=\"");
    r.append(stem);
    r.append(".epub\"");
    r
}

/// The stem that `std::path::Path::file_stem` finds in `s`.
pub uninterp spec fn path_file_stem(s: Seq<char>) -> Option<Seq<char>>;

/// The extension that `std::path::Path::extension` finds in `s`.
pub uninterp spec fn path_extension(s: Seq<char>) -> Option<Seq<char>>;

/// Calls `std::path::Path::file_stem` (and `OsStr::to_str`, which cannot
/// fail on a path made from a `&str`). The stem is named, not stated.
#[verifier::external_body]
pub(crate) fn file_stem_of(s: &str) -> (r: Option<String>)
    ensures
        opt_view(r) == path_file_stem(s@),
{
    std::path::Path::new(s).file_stem().and_then(|n| n.to_str()).map(|n| n.to_string())
}

/// Calls `std::path::Path::extension` (and `OsStr::to_str`). The extension
/// is named, not stated.
#[verifier::external_body]
fn extension_of(s: &str) -> (r: Option<String>)
    ensures
        opt_view(r) == path_extension(s@),
{
    std::path::Path::new(s).extension().and_then(|n| n.to_str()).map(|n| n.to_string())
}

/// The name the converted book is offered under: the upload's file stem, or
/// `output`.
pub fn download_stem(upload_name: &str) -> (r: String)
    ensures
        r@ == (match path_file_stem(upload_name@) {
            Some(s) => s,
            None => "output"@,
        }),
{
    match file_stem_of(upload_name) {
        Some(s) => s,
        None => String::from_str("output"),
    }
}

/// The suffix of the temporary file an upload is written to, so that the
/// format can be told from it: `.` and the upload's extension, or nothing.
pub fn upload_suffix(upload_name: &str) -> (r: String)
    ensures
        r@ == (match path_extension(upload_name@) {
            Some(e) => "."@ + e,
            None => Seq::<char>::empty(),
        }),
{
    match extension_of(upload_name) {
        Some(e) => {
            let mut r = String::from_str(".");
            r.append(e.as_str());
            r
        },
        None => String::new(),
    }
}

} // verus!
