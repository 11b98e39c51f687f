use epub_io::package::{
    find_rootfile, lookup_manifest, lookup_title, parse_ncx_events, parse_opf_events, PackageError,
};
use epub_io::xml::{xml_events, XmlEvent};

const CONTAINER: &str = r#"<?xml version="1.0"?>
<container version="1.0" xmlns="urn:oasis:names:tc:opendocument:xmlns:container">
  <rootfiles><rootfile full-path="OEBPS/content.opf" media-type="application/oebps-package+xml"/></rootfiles>
</container>"#;

const OPF: &str = r#"<?xml version="1.0"?>
<opf:package xmlns:opf="http://www.idpf.org/2007/opf" version="2.0">
  <opf:manifest>
    <opf:item id="ncx" href="toc.ncx" media-type="application/x-dtbncx+xml"/>
    <opf:item id="c1" href="Text/ch1.xhtml" media-type="application/xhtml+xml"/>
    <opf:item id="c2" href="Text/ch2.html" media-type="application/xhtml+xml"/>
    <opf:item id="c1" href="Text/ch1b.xhtml" media-type="application/xhtml+xml"/>
  </opf:manifest>
  <opf:spine toc="ncx"><opf:itemref idref="c1"/><opf:itemref idref="c2"/></opf:spine>
</opf:package>"#;

const NCX: &str = r#"<ncx><navMap>
  <navPoint><navLabel><text> First &amp; Foremost </text></navLabel><content src="Text/ch1.xhtml#top"/></navPoint>
  <navPoint><navLabel><text>Again</text></navLabel><content src="Text/ch1.xhtml"/></navPoint>
  <navPoint><navLabel><text>   </text></navLabel><content src="Text/ch2.html"/></navPoint>
</navMap></ncx>"#;

#[test]
fn container_names_the_package() {
    assert_eq!(find_rootfile(&xml_events(CONTAINER)).unwrap(), "OEBPS/content.opf");
    assert!(matches!(find_rootfile(&xml_events("<container/>")), Err(PackageError::NoRootfile)));
    assert!(matches!(find_rootfile(&xml_events("<a></b>")), Err(PackageError::ContainerSyntax(_))));
}

#[test]
fn opf_manifest_spine_and_ncx() {
    let pkg = parse_opf_events(&xml_events(OPF)).unwrap();
    assert_eq!(pkg.spine, vec!["c1".to_string(), "c2".to_string()]);
    assert_eq!(pkg.ncx_id, Some("ncx".to_string()));
    assert_eq!(pkg.manifest.len(), 4);
    // A later manifest entry for the same id wins.
    assert_eq!(lookup_manifest(&pkg.manifest, "c1"), Some("Text/ch1b.xhtml".to_string()));
    assert_eq!(lookup_manifest(&pkg.manifest, "zz"), None);
}

#[test]
fn opf_errors() {
    let empty = "<package><manifest/><spine></spine></package>";
    assert!(matches!(parse_opf_events(&xml_events(empty)), Err(PackageError::EmptySpine)));
    assert!(matches!(parse_opf_events(&xml_events("<a><b></a>")), Err(PackageError::OpfSyntax(_))));
}

#[test]
fn itemrefs_outside_the_spine_are_ignored() {
    let opf = "<package><itemref idref='x'/><spine><itemref idref='y'/></spine><itemref idref='z'/></package>";
    let pkg = parse_opf_events(&xml_events(opf)).unwrap();
    assert_eq!(pkg.spine, vec!["y".to_string()]);
}

#[test]
fn ncx_titles_first_wins_and_blank_labels_are_skipped() {
    let pairs = parse_ncx_events(&xml_events(NCX));
    assert_eq!(pairs.len(), 2);
    assert_eq!(lookup_title(&pairs, "ch1.xhtml"), Some("First & Foremost".to_string()));
    assert_eq!(lookup_title(&pairs, "ch2.html"), None);
}

#[test]
fn xml_events_end_with_eof() {
    let evs = xml_events("<a>x</a>");
    assert!(matches!(evs.last(), Some(XmlEvent::Eof)));
    assert_eq!(evs.len(), 4);
}
