use std::io::Write;

use epub_io::pipeline::epub_reader::read_epub_chapters;
use epub_io::models::{BookMetadata, Chapter, ChapterRole, EpubVersion};
use epub_io::package::PackageError;
use epub_io::pipeline::reader::ImageData;
use epub_io::pipeline::writer::{build_epub, plan_epub};

fn zip_of(entries: &[(&str, &str)]) -> Vec<u8> {
    let mut buf = std::io::Cursor::new(Vec::new());
    {
        let mut w = zip::ZipWriter::new(&mut buf);
        let opts: zip::write::SimpleFileOptions = zip::write::SimpleFileOptions::default();
        for (name, text) in entries {
            w.start_file(*name, opts).unwrap();
            w.write_all(text.as_bytes()).unwrap();
        }
        w.finish().unwrap();
    }
    buf.into_inner()
}

const CONTAINER: &str = r#"<container><rootfiles><rootfile full-path="OEBPS/content.opf"/></rootfiles></container>"#;

const OPF: &str = r#"<package>
  <manifest>
    <item id="ncx" href="toc.ncx" media-type="application/x-dtbncx+xml"/>
    <item id="cover" href="Text/01_Cover.xhtml" media-type="application/xhtml+xml"/>
    <item id="c1" href="Text/10_Chapter01.html" media-type="application/xhtml+xml"/>
    <item id="idx" href="Text/20_Index01.xhtml" media-type="application/xhtml+xml"/>
    <item id="gone" href="Text/missing.xhtml" media-type="application/xhtml+xml"/>
  </manifest>
  <spine><itemref idref="cover"/><itemref idref="unknown"/><itemref idref="c1"/><itemref idref="gone"/><itemref idref="idx"/></spine>
</package>"#;

const NCX: &str = r#"<ncx><navMap><navPoint><navLabel><text>Chapter One</text></navLabel><content src="Text/10_Chapter01.html"/></navPoint></navMap></ncx>"#;

#[test]
fn spine_documents_become_chapters_in_reading_order() {
    let bytes = zip_of(&[
        ("META-INF/container.xml", CONTAINER),
        ("OEBPS/content.opf", OPF),
        ("OEBPS/toc.ncx", NCX),
        ("OEBPS/Text/01_Cover.xhtml", "<html><head><title>Cover</title></head><body/></html>"),
        ("OEBPS/Text/10_Chapter01.html", "<p>one</p>"),
        ("OEBPS/Text/20_Index01.xhtml", "<p>index body</p>"),
    ]);
    let chapters = read_epub_chapters(bytes).unwrap();
    assert_eq!(chapters.len(), 3);
    assert_eq!(chapters[0].title, "Cover");
    assert_eq!(chapters[0].filename, "01_Cover.xhtml");
    assert_eq!(chapters[0].role, ChapterRole::FrontMatter);
    assert_eq!(chapters[1].title, "Chapter One");
    assert_eq!(chapters[1].filename, "10_Chapter01.xhtml");
    assert_eq!(chapters[1].content, "<p>one</p>");
    assert_eq!(chapters[1].role, ChapterRole::Body);
    // No NCX title and no <title>: "Chapter n" with n the spine position.
    assert_eq!(chapters[2].title, "Chapter 5");
    // The fallback title itself is a body signal.
    assert_eq!(chapters[2].role, ChapterRole::Body);
}

#[test]
fn each_chapter_holds_its_own_document() {
    let bytes = zip_of(&[
        ("META-INF/container.xml", CONTAINER),
        ("OEBPS/content.opf", OPF),
        ("OEBPS/Text/01_Cover.xhtml", "<p>cover page</p>"),
        ("OEBPS/Text/10_Chapter01.html", "<p>first chapter</p>"),
        ("OEBPS/Text/20_Index01.xhtml", "<p>the index</p>"),
    ]);
    let chapters = read_epub_chapters(bytes).unwrap();
    let contents: Vec<&str> = chapters.iter().map(|c| c.content.as_str()).collect();
    assert_eq!(contents, vec!["<p>cover page</p>", "<p>first chapter</p>", "<p>the index</p>"]);
    // Without an NCX, titles fall back to the spine position.
    assert_eq!(chapters[1].title, "Chapter 3");
}

#[test]
fn epub_reading_errors() {
    assert!(matches!(read_epub_chapters(b"not a zip".to_vec()), Err(PackageError::NotZip(_))));
    let no_container = zip_of(&[("mimetype", "application/epub+zip")]);
    assert!(matches!(read_epub_chapters(no_container), Err(PackageError::MissingContainer)));
    let no_opf = zip_of(&[("META-INF/container.xml", CONTAINER)]);
    match read_epub_chapters(no_opf) {
        Err(PackageError::MissingEntry(n)) => assert_eq!(n, "OEBPS/content.opf"),
        _ => panic!("expected a missing entry"),
    }
}

fn sample_meta() -> BookMetadata {
    BookMetadata {
        title: Some("Test Book".to_string()),
        author: Some("Tester".to_string()),
        language: Some("en".to_string()),
        tags: vec!["History".to_string(), "Politics".to_string()],
        cover_image: Some(vec![1, 2, 3]),
        cover_mime: Some("image/png".to_string()),
        ..Default::default()
    }
}

fn sample_chapters() -> Vec<Chapter> {
    vec![
        Chapter { title: "Intro".to_string(), content: "<p>Dr. Who</p>".to_string(), filename: "intro.xhtml".to_string(), role: ChapterRole::Body },
        Chapter { title: "Index".to_string(), content: "<p>a[1]</p>".to_string(), filename: "index.xhtml".to_string(), role: ChapterRole::BackMatter },
    ]
}

#[test]
fn plan_keeps_every_chapter_and_skips_a_second_cover() {
    let images = vec![
        ImageData { name: "images/cover.jpg".to_string(), data: vec![9], mime_type: "image/jpeg".to_string() },
        ImageData { name: "images/map.png".to_string(), data: vec![8], mime_type: "image/png".to_string() },
    ];
    let plan = plan_epub(&sample_meta(), &sample_chapters(), &images, EpubVersion::V3, true);
    assert_eq!(plan.chapters.len(), 2);
    assert_eq!(plan.kept_images, vec![1]);
    let cover = plan.cover.unwrap();
    assert_eq!(cover.name, "cover.png");
    assert_eq!(cover.data, vec![1, 2, 3]);
    let keys: Vec<(String, String)> = plan.metadata.clone();
    assert_eq!(keys, vec![
        ("title".to_string(), "Test Book".to_string()),
        ("author".to_string(), "Tester".to_string()),
        ("lang".to_string(), "en".to_string()),
        ("subject".to_string(), "History, Politics".to_string()),
    ]);
    assert!(plan.chapters[0].xhtml.contains("<p>Doctor Who</p>"));
    assert!(plan.chapters[1].xhtml.contains("<p>a</p>"));
    let raw = plan_epub(&sample_meta(), &sample_chapters(), &images, EpubVersion::V3, false);
    assert!(raw.chapters[0].xhtml.contains("<p>Dr. Who</p>"));
}

#[test]
fn built_epub_reads_back() {
    let bytes = build_epub(&sample_meta(), &sample_chapters(), &Vec::new(), EpubVersion::V3, true).unwrap();
    let chapters = read_epub_chapters(bytes).unwrap();
    let titles: Vec<&str> = chapters.iter().map(|c| c.title.as_str()).collect();
    assert!(titles.contains(&"Intro"));
    assert!(titles.contains(&"Index"));
    let intro = chapters.iter().find(|c| c.title == "Intro").unwrap();
    assert!(intro.content.contains("Doctor Who"));
}
