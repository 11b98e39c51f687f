//! The command line: its commands, and the choices made from their
//! arguments before any file is touched.

use vstd::prelude::*;

use crate::models::{ConvertOptions, EpubVersion, UnknownEpubVersion, version_named};
use crate::server::{file_stem_of, path_file_stem};
use crate::text::{lowercased, str_eq, to_lowercase, trim, trimmed};

verus! {

/// The command line of the tool.
pub struct Cli {
    pub command: Command,
}

/// The tool's commands.
pub enum Command {
    /// Convert an ebook file to a clean, narration-ready EPUB.
    Convert {
        input: String,
        output: Option<String>,
        epub_version: String,
        no_enrich: bool,
        no_tts: bool,
        isbn: Option<String>,
    },
    /// Synthesize per-chapter audio through the local TTV service.
    Audio {
        input: String,
        out_dir: Option<String>,
        format: String,
        voice: Option<String>,
        include_all: bool,
        no_enrich: bool,
        isbn: Option<String>,
    },
    /// Start the HTTP server.
    Serve { host: String, port: u16 },
}

/// The options of a `convert` run: the EPUB version the argument names,
/// enrichment and narration cleanup unless switched off, and the ISBN
/// override.
pub fn convert_options(epub_version: &str, no_enrich: bool, no_tts: bool, isbn: Option<String>) -> (r: Result<ConvertOptions, UnknownEpubVersion>)
    ensures
        version_named(trimmed(epub_version@)) matches Some(v) ==> (r matches Ok(o) && o.epub_version == v
            && o.enrich == !no_enrich && o.tts_optimize == !no_tts && o.isbn_override == isbn),
        version_named(trimmed(epub_version@)) is None ==> (r matches Err(e) && e.input@ == trimmed(
            epub_version@,
        )),
{
    match EpubVersion::parse(epub_version) {
        Ok(v) => Ok(ConvertOptions { epub_version: v, enrich: !no_enrich, tts_optimize: !no_tts, isbn_override: isbn }),
        Err(e) => Err(e),
    }
}

/// The path that `std::path::Path::with_file_name` makes of `s` with the
/// file name `name`.
pub uninterp spec fn path_with_file_name(s: Seq<char>, name: Seq<char>) -> Seq<char>;

/// Calls `std::path::Path::with_file_name` (the path is made of two `&str`,
/// so its lossy text form is exact). The path is named, not stated.
#[verifier::external_body]
fn with_file_name(s: &str, name: &str) -> (r: String)
    ensures
        r@ == path_with_file_name(s@, name@),
{
    std::path::Path::new(s).with_file_name(name).to_string_lossy().into_owned()
}

/// Where `convert` writes when no output is given: beside the input, named
/// after the input's file stem (empty when it has none) with `.epub`.
pub fn default_output_path(input: &str) -> (r: String)
    ensures
        r@ == path_with_file_name(
            input@,
            (match path_file_stem(input@) {
                Some(s) => s,
                None => Seq::<char>::empty(),
            }) + ".epub"@,
        ),
{
    let mut name = match file_stem_of(input) {
        Some(s) => s,
        None => String::new(),
    };
    name.append(".epub");
    with_file_name(input, name.as_str())
}

/// The audio formats the `audio` command writes.
#[derive(Debug, Clone, Copy, PartialEq, Eq, Structural)]
pub enum AudioFormat {
    Wav,
    Mp3,
    M4b,
}

/// An audio format name the `audio` command does not know; the name as
/// trimmed and lowercased.
#[derive(Debug, Clone)]
pub struct UnknownAudioFormat {
    pub input: String,
}

impl UnknownAudioFormat {
    /// The message shown to the user.
    pub fn message(&self) -> (m: String)
        ensures
            m@ == "unknown audio format: "@ + self.input@ + "; use wav, mp3, or m4b"@,
    {
        let mut m = String::from_str("unknown audio format: ");
        m.append(self.input.as_str());
        m.append("; use wav, mp3, or m4b");
        m
    }
}

/// The format a trimmed, lowercased format name stands for.
pub open spec fn audio_format_named(t: Seq<char>) -> Option<AudioFormat> {
    if t == "wav"@ {
        Some(AudioFormat::Wav)
    } else if t == "mp3"@ {
        Some(AudioFormat::Mp3)
    } else if t == "m4b"@ {
        Some(AudioFormat::M4b)
    } else {
        None
    }
}

/// Reads an audio format name, ignoring surrounding white space and case.
pub fn parse_audio_format(s: &str) -> (r: Result<AudioFormat, UnknownAudioFormat>)
    ensures
        audio_format_named(lowercased(trimmed(s@))) matches Some(f) ==> (r matches Ok(g) && g == f),
        audio_format_named(lowercased(trimmed(s@))) is None ==> (r matches Err(e) && e.input@
            == lowercased(trimmed(s@))),
{
    let t = trim(s);
    let l = to_lowercase(t.as_str());
    if str_eq(l.as_str(), "wav") {
        Ok(AudioFormat::Wav)
    } else if str_eq(l.as_str(), "mp3") {
        Ok(AudioFormat::Mp3)
    } else if str_eq(l.as_str(), "m4b") {
        Ok(AudioFormat::M4b)
    } else {
        Err(UnknownAudioFormat { input: l })
    }
}

} // verus!
