use epub_io::cli::{convert_options, default_output_path, parse_audio_format, AudioFormat};
use epub_io::models::{ConvertOptions, EpubVersion};
use epub_io::pipeline::reader::{assemble_read_result, ebook_format, EbookFormat, ReadError, SourceMetadata, TocEntry};
use epub_io::models::ChapterRole;
use epub_io::server::{
    apply_form_field, content_disposition, download_stem, error_response, health_response,
    parse_form_flag, upload_suffix,
};

#[test]
fn epub_versions_parse() {
    assert_eq!(EpubVersion::parse(" 2 ").unwrap(), EpubVersion::V2);
    assert_eq!("v3".parse::<EpubVersion>().unwrap(), EpubVersion::V3);
    assert_eq!(EpubVersion::parse("V2").unwrap(), EpubVersion::V2);
    let err = EpubVersion::parse(" 4 ").unwrap_err();
    assert_eq!(err.message(), "unknown epub version: 4; use 2 or 3");
    assert_eq!(EpubVersion::default(), EpubVersion::V3);
}

#[test]
fn convert_options_defaults() {
    let o = ConvertOptions::default();
    assert_eq!(o.epub_version, EpubVersion::V3);
    assert!(o.enrich && o.tts_optimize && o.isbn_override.is_none());
    let c = convert_options("2", true, false, Some("9".to_string())).unwrap();
    assert_eq!(c.epub_version, EpubVersion::V2);
    assert!(!c.enrich && c.tts_optimize);
    assert!(convert_options("x", false, false, None).is_err());
}

#[test]
fn form_fields_set_options() {
    let mut o = ConvertOptions::default();
    apply_form_field(&mut o, "epub_version", "2");
    assert_eq!(o.epub_version, EpubVersion::V2);
    apply_form_field(&mut o, "epub_version", "seven");
    assert_eq!(o.epub_version, EpubVersion::V3);
    apply_form_field(&mut o, "enrich", " NO ");
    assert!(!o.enrich);
    apply_form_field(&mut o, "tts_optimize", "0");
    assert!(!o.tts_optimize);
    apply_form_field(&mut o, "tts_optimize", "yes");
    assert!(o.tts_optimize);
    apply_form_field(&mut o, "isbn", "   ");
    assert_eq!(o.isbn_override, None);
    apply_form_field(&mut o, "isbn", " 978 ");
    assert_eq!(o.isbn_override, Some("978".to_string()));
    apply_form_field(&mut o, "other", "false");
    assert!(o.tts_optimize);
    assert!(!parse_form_flag("False"));
    assert!(parse_form_flag("maybe"));
}

#[test]
fn responses_and_headers() {
    assert_eq!(health_response().status, "ok");
    assert_eq!(error_response("bad").error, "bad");
    assert_eq!(content_disposition("book"), "attachment; filename=\"book.epub\"");
    assert_eq!(download_stem("my.book.mobi"), "my.book");
    assert_eq!(download_stem(""), "output");
    assert_eq!(upload_suffix("a.epub"), ".epub");
    assert_eq!(upload_suffix("upload"), "");
}

#[test]
fn audio_formats() {
    assert_eq!(parse_audio_format(" M4B ").unwrap(), AudioFormat::M4b);
    assert_eq!(parse_audio_format("wav").unwrap(), AudioFormat::Wav);
    let e = parse_audio_format(" OGG ").unwrap_err();
    assert_eq!(e.message(), "unknown audio format: ogg; use wav, mp3, or m4b");
}

#[test]
fn formats_dispatch() {
    assert_eq!(ebook_format("epub").unwrap(), EbookFormat::Epub);
    assert_eq!(ebook_format("azw").unwrap(), EbookFormat::Azw);
    match ebook_format("docx") {
        Err(ReadError::UnsupportedFormat(f)) => assert_eq!(f, "docx"),
        _ => panic!("expected unsupported"),
    }
}

fn source() -> SourceMetadata {
    SourceMetadata {
        title: Some("Book".to_string()),
        author: None,
        publisher: None,
        description: None,
        language: None,
        isbn: None,
        publication_date: None,
        cover_image: None,
        tags: None,
    }
}

#[test]
fn read_result_without_toc_is_one_chapter() {
    let r = assemble_read_result(source(), vec![], "<p>all</p>".to_string(), vec![]);
    assert_eq!(r.chapters.len(), 1);
    assert_eq!(r.chapters[0].title, "Book");
    assert_eq!(r.chapters[0].filename, "chapter_001.xhtml");
    assert_eq!(r.chapters[0].role, ChapterRole::Body);
    assert!(r.metadata.tags.is_empty());
    assert!(r.metadata.cover_mime.is_none());
}

#[test]
fn read_result_from_toc() {
    let toc = vec![
        TocEntry { title: "Index".to_string(), href: Some("Text/idx.html#a".to_string()) },
        TocEntry { title: "One".to_string(), href: None },
    ];
    let r = assemble_read_result(source(), toc, "<p>all</p>".to_string(), vec![]);
    assert_eq!(r.chapters.len(), 2);
    assert_eq!(r.chapters[0].filename, "idx.xhtml");
    assert_eq!(r.chapters[0].role, ChapterRole::BackMatter);
    assert_eq!(r.chapters[1].filename, "chapter_002.xhtml");
    assert_eq!(r.chapters[1].content, "<p>all</p>");
}

#[test]
fn default_output_sits_beside_the_input() {
    assert_eq!(default_output_path("books/novel.mobi"), "books/novel.epub");
    assert_eq!(default_output_path("novel"), "novel.epub");
}
