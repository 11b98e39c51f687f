use epub_io::pipeline::enrich::{
    apply_cover, apply_edition, apply_search_doc, EditionInfo, EnrichAction, EnrichEvent,
    EnrichPhase, Enrichment, SearchDoc,
};
use epub_io::models::BookMetadata;

fn edition() -> EditionInfo {
    EditionInfo {
        title: Some("Short".to_string()),
        full_title: Some("Full Title".to_string()),
        publishers: Some(vec!["Pub A".to_string(), "Pub B".to_string()]),
        publish_date: Some("2018".to_string()),
        languages: Some(vec!["/languages//languages/eng".to_string()]),
        description: Some("About".to_string()),
        isbn_13: Some(vec![]),
        isbn_10: Some(vec!["0123456789".to_string()]),
        subjects: Some((0..12).map(|i| format!("s{i}")).collect()),
        covers: Some(vec![77, 78]),
    }
}

fn doc() -> SearchDoc {
    SearchDoc {
        cover_edition_key: None,
        isbn: None,
        publisher: Some(vec!["Doc Pub".to_string()]),
        language: Some(vec!["fre".to_string()]),
        first_publish_year: Some(-44),
        subject: None,
        cover_i: Some(5),
    }
}

#[test]
fn edition_fills_missing_fields_only() {
    let mut meta = BookMetadata { title: Some("Mine".to_string()), ..Default::default() };
    let cover = apply_edition(&mut meta, &edition());
    assert_eq!(cover, Some(77));
    assert_eq!(meta.title, Some("Mine".to_string()));
    assert_eq!(meta.publisher, Some("Pub A".to_string()));
    assert_eq!(meta.publication_date, Some("2018".to_string()));
    assert_eq!(meta.language, Some("eng".to_string()));
    assert_eq!(meta.description, Some("About".to_string()));
    assert_eq!(meta.isbn, Some("0123456789".to_string()));
    assert_eq!(meta.tags.len(), 10);
    assert_eq!(meta.tags[9], "s9");
}

#[test]
fn edition_title_prefers_full_title() {
    let mut meta = BookMetadata::default();
    apply_edition(&mut meta, &edition());
    assert_eq!(meta.title, Some("Full Title".to_string()));
}

#[test]
fn no_cover_request_when_a_cover_exists() {
    let mut meta = BookMetadata { cover_image: Some(vec![1]), ..Default::default() };
    assert_eq!(apply_edition(&mut meta, &edition()), None);
    assert_eq!(apply_search_doc(&mut meta, &doc()), None);
}

#[test]
fn search_doc_fills_and_formats_year() {
    let mut meta = BookMetadata::default();
    let cover = apply_search_doc(&mut meta, &doc());
    assert_eq!(cover, Some(5));
    assert_eq!(meta.publisher, Some("Doc Pub".to_string()));
    assert_eq!(meta.language, Some("fre".to_string()));
    assert_eq!(meta.publication_date, Some("-44".to_string()));
}

#[test]
fn cover_fetch_result_is_applied() {
    let mut meta = BookMetadata::default();
    apply_cover(&mut meta, Some(vec![4, 5]));
    assert_eq!(meta.cover_image, Some(vec![4, 5]));
    assert_eq!(meta.cover_mime, Some("image/jpeg".to_string()));
    apply_cover(&mut meta, None);
    assert_eq!(meta.cover_image, None);
    assert_eq!(meta.cover_mime, None);
}

#[test]
fn enrichment_steps_isbn_then_cover() {
    let meta = BookMetadata { isbn: Some("111".to_string()), ..Default::default() };
    let (e, a) = Enrichment::start(meta, Some("999".to_string()));
    assert!(matches!(a, EnrichAction::LookupIsbn(ref i) if i == "999"));
    let (e, a) = e.advance(EnrichEvent::Edition(Some(edition())));
    assert!(matches!(a, EnrichAction::FetchCover(77)));
    let (e, a) = e.advance(EnrichEvent::Cover(Some(vec![1])));
    assert!(matches!(a, EnrichAction::Done));
    assert!(matches!(e.phase, EnrichPhase::Finished));
    assert_eq!(e.meta.isbn, Some("111".to_string()));
    assert_eq!(e.meta.cover_image, Some(vec![1]));
}

#[test]
fn enrichment_falls_back_to_search() {
    let meta = BookMetadata { title: Some("T".to_string()), author: Some("A".to_string()), ..Default::default() };
    let (e, a) = Enrichment::start(meta, None);
    match a {
        EnrichAction::Search { title, author } => {
            assert_eq!(title, Some("T".to_string()));
            assert_eq!(author, Some("A".to_string()));
        },
        _ => panic!("expected a search"),
    }
    let mut d = doc();
    d.cover_edition_key = Some("OL1M".to_string());
    d.isbn = Some(vec!["222".to_string()]);
    let (e, a) = e.advance(EnrichEvent::Results(Some(d)));
    assert!(matches!(a, EnrichAction::LookupEdition(ref k) if k == "OL1M"));
    let (e, a) = e.advance(EnrichEvent::Edition(None));
    assert!(matches!(a, EnrichAction::LookupIsbn(ref i) if i == "222"));
    let (e, a) = e.advance(EnrichEvent::Edition(None));
    assert!(matches!(a, EnrichAction::FetchCover(5)));
    assert_eq!(e.meta.publisher, Some("Doc Pub".to_string()));
    assert_eq!(e.meta.title, Some("T".to_string()));
}

#[test]
fn nothing_to_look_up() {
    let (e, a) = Enrichment::start(BookMetadata::default(), None);
    assert!(matches!(a, EnrichAction::Done));
    assert!(matches!(e.phase, EnrichPhase::Finished));
    let (e, a) = Enrichment { meta: BookMetadata { title: Some("x".to_string()), ..Default::default() }, phase: EnrichPhase::AwaitSearch }
        .advance(EnrichEvent::Results(None));
    assert!(matches!(a, EnrichAction::Done));
    assert_eq!(e.meta.title, Some("x".to_string()));
}
