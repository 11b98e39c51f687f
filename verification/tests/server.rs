use epub_io::models::EpubVersion;
use epub_io::pipeline::writer::BuildError;
use epub_io::server::{failure_reply, ConvertFailure, ConvertForm};

#[test]
fn convert_form_gathers_fields() {
    let mut form = ConvertForm::new();
    assert_eq!(form.filename, "upload");
    form.take_text("epub_version", "2");
    form.take_text("enrich", "no");
    form.take_text("isbn", " 123 ");
    form.take_file(None, vec![1, 2]);
    assert_eq!(form.filename, "upload");
    form.take_file(Some("book.mobi".to_string()), vec![3]);
    let (bytes, name, opts) = match form.into_upload() {
        Ok(u) => u,
        Err(_) => panic!("a form with a file is accepted"),
    };
    assert_eq!(bytes, vec![3]);
    assert_eq!(name, "book.mobi");
    assert_eq!(opts.epub_version, EpubVersion::V2);
    assert!(!opts.enrich);
    assert!(opts.tts_optimize);
    assert_eq!(opts.isbn_override, Some("123".to_string()));
}

#[test]
fn form_without_file_is_refused() {
    let mut form = ConvertForm::new();
    form.take_text("tts_optimize", "false");
    match form.into_upload() {
        Err(f) => {
            let (status, body) = failure_reply(&f);
            assert_eq!(status, 400);
            assert_eq!(body.error, "no file field in multipart body");
        }
        Ok(_) => panic!("a form without a file is refused"),
    }
}

#[test]
fn failures_get_their_statuses() {
    let (s, b) = failure_reply(&ConvertFailure::FileFieldUnreadable("eof".to_string()));
    assert_eq!((s, b.error.as_str()), (400, "failed to read file field: eof"));
    let (s, b) = failure_reply(&ConvertFailure::ReadFailed("bad zip".to_string()));
    assert_eq!((s, b.error.as_str()), (422, "read error: bad zip"));
    let (s, b) = failure_reply(&ConvertFailure::TaskPanicked("boom".to_string()));
    assert_eq!((s, b.error.as_str()), (500, "task panic: boom"));
    let e = BuildError { context: "set title".to_string(), message: "x".to_string() };
    let (s, b) = failure_reply(&ConvertFailure::BuildFailed(e));
    assert_eq!((s, b.error.as_str()), (422, "build error: set title"));
}
