use epub_io::paths::{basename, ensure_xhtml, join_path, parent_dir};
use epub_io::pipeline::reader::{numbered_chapter_filename, sanitize_href};
use epub_io::title::extract_title;

#[test]
fn parent_dir_is_text_before_last_slash() {
    assert_eq!(parent_dir("OEBPS/content.opf"), "OEBPS");
    assert_eq!(parent_dir("a/b/c.opf"), "a/b");
    assert_eq!(parent_dir("content.opf"), "");
}

#[test]
fn basename_drops_fragment_and_directories() {
    assert_eq!(basename("Text/ch01.xhtml#sec2"), "ch01.xhtml");
    assert_eq!(basename("ch02.xhtml"), "ch02.xhtml");
    assert_eq!(basename("a/b/"), "");
}

#[test]
fn join_path_resolves_dot_segments() {
    assert_eq!(join_path("OEBPS", "Text/ch01.xhtml"), "OEBPS/Text/ch01.xhtml");
    assert_eq!(join_path("OEBPS/Text", "../Images/c.jpg"), "OEBPS/Images/c.jpg");
    assert_eq!(join_path("", "./a//b"), "a/b");
    assert_eq!(join_path("a", "../../b"), "b");
    let joined = join_path("x/./y", "../z/./w/..");
    assert_eq!(joined, "x/z");
    assert!(joined.split('/').all(|s| !s.is_empty() && s != "." && s != ".."));
}

#[test]
fn ensure_xhtml_extensions() {
    assert_eq!(ensure_xhtml("ch.xhtml"), "ch.xhtml");
    assert_eq!(ensure_xhtml("ch.html"), "ch.xhtml");
    assert_eq!(ensure_xhtml("ch.htm"), "ch.xhtml");
    assert_eq!(ensure_xhtml("ch"), "ch.xhtml");
}

#[test]
fn sanitize_href_keeps_the_file_name() {
    assert_eq!(sanitize_href("Text/ch01.html#p3"), "ch01.xhtml");
    assert_eq!(sanitize_href("ch02.htm"), "ch02.xhtml");
    assert_eq!(sanitize_href("part3"), "part3.xhtml");
}

#[test]
fn numbered_chapter_files_are_zero_padded() {
    assert_eq!(numbered_chapter_filename(1), "chapter_001.xhtml");
    assert_eq!(numbered_chapter_filename(42), "chapter_042.xhtml");
    assert_eq!(numbered_chapter_filename(1234), "chapter_1234.xhtml");
}

#[test]
fn titles_come_from_the_title_element() {
    let doc = "<html><head><TITLE>  The  Beginning </title></head></html>";
    assert_eq!(extract_title(doc), Some("The  Beginning".to_string()));
    assert_eq!(extract_title("<title>   </title>"), None);
    assert_eq!(extract_title("<p>no title</p>"), None);
}

#[test]
fn chapter_file_names_always_end_in_xhtml() {
    for name in ["a.htm.html", "b.html.htm", "c.xhtml", "d.htm", "e", "f.html.xhtml", ".htm"] {
        assert!(ensure_xhtml(name).ends_with(".xhtml"), "{name}");
        assert!(sanitize_href(name).ends_with(".xhtml"), "{name}");
    }
    assert_eq!(ensure_xhtml("b.html.htm"), "b.xhtml.xhtml");
}

#[test]
fn title_is_found_after_non_ascii_text() {
    assert_eq!(extract_title("<p>\u{130}</p><title>Hi</title>"), Some("Hi".to_string()));
    assert_eq!(extract_title("<TITLE> Up </Title>"), Some("Up".to_string()));
}

#[test]
fn joined_paths_are_stable() {
    for (dir, href) in [("OEBPS", "../Text/./a.xhtml"), ("a/b", "c/../d.html"), ("", "x//y")] {
        let r = join_path(dir, href);
        assert_eq!(join_path("", &r), r);
        if !dir.is_empty() {
            assert_eq!(r, join_path("", &format!("{dir}/{href}")));
        }
    }
}

#[test]
fn parent_and_basename_rebuild_the_path() {
    for p in ["OEBPS/Text/ch1.xhtml", "a/b", "/x"] {
        assert_eq!(format!("{}/{}", parent_dir(p), basename(p)), p);
        assert!(!basename(p).contains('/'));
    }
    assert_eq!(parent_dir("plain.opf"), "");
}
