use epub_io::pipeline::classify::{classify_role, classify_text};
use epub_io::models::ChapterRole;

#[test]
fn body_chapters() {
    assert_eq!(classify_role("Chapter 1", "10_Chapter01.xhtml"), ChapterRole::Body);
    assert_eq!(classify_role("Introduction", "09_Introduction.xhtml"), ChapterRole::Body);
    assert_eq!(classify_role("Epilogue", "17_Epilogue.xhtml"), ChapterRole::Body);
    // Unknown but descriptive title -> body (don't drop real content).
    assert_eq!(classify_role("The Birth of Liberalism", "x.xhtml"), ChapterRole::Body);
}

#[test]
fn back_matter() {
    assert_eq!(classify_role("Index", "20_Index01.xhtml"), ChapterRole::BackMatter);
    assert_eq!(classify_role("Bibliography", "19_Bibliography.xhtml"), ChapterRole::BackMatter);
    assert_eq!(classify_role("Notes", "18_Notes.xhtml"), ChapterRole::BackMatter);
    assert_eq!(classify_role("", "21_Bm01.xhtml"), ChapterRole::BackMatter);
}

#[test]
fn front_matter() {
    assert_eq!(classify_role("Cover Page", "01_Cover.xhtml"), ChapterRole::FrontMatter);
    assert_eq!(classify_role("Copyright", "04_Copyright01.xhtml"), ChapterRole::FrontMatter);
    assert_eq!(classify_role("Dedication", "05_Dedication.xhtml"), ChapterRole::FrontMatter);
    assert_eq!(classify_role("Contents", "06_Contents.xhtml"), ChapterRole::FrontMatter);
    assert_eq!(classify_role("Acknowledgments", "07_Acknowledgments.xhtml"), ChapterRole::FrontMatter);
    assert_eq!(classify_role("", "08_Fm01.xhtml"), ChapterRole::FrontMatter);
}

#[test]
fn body_signal_beats_back_and_front_signals() {
    // "chapter" wins over "notes" and "cover".
    assert_eq!(classify_role("Chapter Notes", "cover.xhtml"), ChapterRole::Body);
    // back matter wins over front matter.
    assert_eq!(classify_role("Index of the Contents", "x.xhtml"), ChapterRole::BackMatter);
}

#[test]
fn classification_is_case_insensitive() {
    assert_eq!(classify_role("BIBLIOGRAPHY", "X.XHTML"), ChapterRole::BackMatter);
    assert_eq!(classify_role("PROLOGUE", "a.xhtml"), ChapterRole::Body);
}

#[test]
fn title_and_filename_are_joined_by_a_space() {
    // "part " needs the space that separates title and filename.
    assert_eq!(classify_role("Part", "contents.xhtml"), ChapterRole::Body);
    assert_eq!(classify_text("part"), ChapterRole::Body);
    assert_eq!(classify_text("preface"), ChapterRole::FrontMatter);
    assert_eq!(classify_text(""), ChapterRole::Body);
}
