//! Direct EPUB spine reader: one chapter per spine document, in reading
//! order, with each document's own content.

use vstd::prelude::*;

use crate::pipeline::classify::{classification_text, classify_role, role_of};
use crate::models::{Chapter, ChapterRole};
use crate::package::{
    find_rootfile, lookup_manifest, lookup_title, manifest_lookup, ncx_scan, opf_scan, opf_start, pair_views,
    parse_ncx_events, parse_opf_events, rootfile_scan, title_lookup, PackageError, RootfileScan,
};
use crate::paths::{
    basename, basename_of, ends_with, ensure_xhtml, join_path, joined_path, lemma_xhtml_name_is_xhtml, parent_dir,
    parent_dir_of, xhtml_name,
};
use crate::text::{decimal, decimal_string};
use crate::title::{extract_title, title_of};
use crate::xml::{xml_events, xml_events_of};

verus! {

#[verifier::external_type_specification]
#[verifier::external_body]
#[verifier::reject_recursive_types(R)]
pub struct ExZipArchive<R>(zip::ZipArchive<R>);

#[verifier::external_type_specification]
#[verifier::external_body]
#[verifier::reject_recursive_types(T)]
pub struct ExCursor<T>(std::io::Cursor<T>);

#[verifier::external_type_specification]
#[verifier::external_body]
pub struct ExZipError(zip::result::ZipError);

/// Whether `zip::ZipArchive::new` accepts `bytes` as a ZIP archive.
pub uninterp spec fn zip_opens(bytes: Seq<u8>) -> bool;

/// The message of a ZIP error, through its `Display` impl.
#[verifier::external_body]
fn zip_error_message(e: &zip::result::ZipError) -> String {
    e.to_string()
}

/// The text of each entry of the ZIP archive made of `bytes` that
/// `zip::ZipArchive::by_name` opens and `std::io::Read::read_to_string`
/// reads as UTF-8, by entry name.
pub uninterp spec fn archive_texts(bytes: Seq<u8>) -> Map<Seq<char>, Seq<char>>;

/// A ZIP archive together with the bytes it was opened from.
pub struct EpubArchive {
    zip: zip::ZipArchive<std::io::Cursor<Vec<u8>>>,
    bytes: Ghost<Seq<u8>>,
}

impl EpubArchive {
    /// The bytes the archive was opened from.
    pub closed spec fn source(&self) -> Seq<u8> {
        self.bytes@
    }
}

/// Calls `zip::ZipArchive::new` on the bytes (through `std::io::Cursor`),
/// keeping with the archive the bytes it was opened from. Whether the bytes
/// form an archive is decided by the ZIP reader from the bytes alone: named,
/// not stated.
#[verifier::external_body]
fn open_zip(bytes: Vec<u8>) -> (r: Result<EpubArchive, zip::result::ZipError>)
    ensures
        r is Ok <==> zip_opens(bytes@),
        r matches Ok(a) ==> a.source() == bytes@,
{
    let source = Ghost(bytes@);
    zip::ZipArchive::new(std::io::Cursor::new(bytes)).map(|zip| EpubArchive { zip, bytes: source })
}

/// Opens the ZIP archive in `bytes`.
fn open_archive(bytes: Vec<u8>) -> (r: Result<EpubArchive, zip::result::ZipError>)
    ensures
        r is Ok <==> zip_opens(bytes@),
        r matches Ok(a) ==> a.source() == bytes@,
{
    open_zip(bytes)
}

/// Reads the archive entry `name` as UTF-8 text, with
/// `zip::ZipArchive::by_name` and `std::io::Read::read_to_string`: the
/// entry's text where the archive has a readable entry of that name, else a
/// missing or unreadable entry reported with the name. Reading leaves what
/// the archive holds as it was.
#[verifier::external_body]
fn read_zip_text(archive: &mut EpubArchive, name: &str) -> (r: Result<String, PackageError>)
    ensures
        final(archive).source() == old(archive).source(),
        r is Ok <==> archive_texts(old(archive).source()).contains_key(name@),
        r matches Ok(s) ==> s@ == archive_texts(old(archive).source())[name@],
        r matches Err(e) ==> (e matches PackageError::MissingEntry(n) && n@ == name@) || (e matches PackageError::UnreadableEntry(n) && n@ == name@),
{
    let mut file = match archive.zip.by_name(name) {
        Ok(f) => f,
        Err(_) => return Err(PackageError::MissingEntry(name.to_string())),
    };
    let mut buf = String::new();
    match std::io::Read::read_to_string(&mut file, &mut buf) {
        Ok(_) => Ok(buf),
        Err(_) => Err(PackageError::UnreadableEntry(name.to_string())),
    }
}

/// The title of the spine document at `index` (counting from 0) with file
/// name `base`: the NCX title, else its `<title>`, else "Chapter n" with
/// n = index + 1.
pub open spec fn chapter_title_of(
    index: int,
    base: Seq<char>,
    content: Seq<char>,
    titles: Seq<(Seq<char>, Seq<char>)>,
) -> Seq<char> {
    match title_lookup(titles, base) {
        Some(t) => t,
        None => match title_of(content) {
            Some(t) => t,
            None => "Chapter "@ + decimal((index + 1) as nat),
        },
    }
}

/// A chapter as plain values: title, content, file name, role.
pub open spec fn chapter_view(c: Chapter) -> (Seq<char>, Seq<char>, Seq<char>, ChapterRole) {
    (c.title@, c.content@, c.filename@, c.role)
}

/// The chapter made of the spine document at `index` whose manifest href is
/// `href` and whose text is `content`.
pub open spec fn chapter_spec(
    index: int,
    href: Seq<char>,
    content: Seq<char>,
    titles: Seq<(Seq<char>, Seq<char>)>,
) -> (Seq<char>, Seq<char>, Seq<char>, ChapterRole) {
    let base = basename_of(href);
    let title = chapter_title_of(index, base, content, titles);
    (title, content, xhtml_name(base), role_of(classification_text(title, base)))
}

/// Each spine position's `(href, text)`, or `None` where the manifest lacks
/// the document or it could not be read.
pub open spec fn read_views(reads: Seq<Option<(String, String)>>) -> Seq<Option<(Seq<char>, Seq<char>)>> {
    reads.map_values(
        |o: Option<(String, String)>|
            match o {
                Some(p) => Some((p.0@, p.1@)),
                None => None,
            },
    )
}

/// The chapters of the spine positions that have a document, in order.
pub open spec fn chapters_spec(
    reads: Seq<Option<(Seq<char>, Seq<char>)>>,
    titles: Seq<(Seq<char>, Seq<char>)>,
) -> Seq<(Seq<char>, Seq<char>, Seq<char>, ChapterRole)>
    decreases reads.len(),
{
    if reads.len() == 0 {
        seq![]
    } else {
        let prev = chapters_spec(reads.drop_last(), titles);
        match reads.last() {
            Some(p) => prev.push(chapter_spec(reads.len() - 1, p.0, p.1, titles)),
            None => prev,
        }
    }
}

/// The chapter made of the spine document at `index`.
pub fn chapter_from(index: usize, href: &str, content: String, titles: &Vec<(String, String)>) -> (c: Chapter)
    requires
        index < usize::MAX,
    ensures
        chapter_view(c) == chapter_spec(index as int, href@, content@, pair_views(titles@)),
{
    let base = basename(href);
    let title = match lookup_title(titles, base.as_str()) {
        Some(t) => t,
        None => match extract_title(content.as_str()) {
            Some(t) => t,
            None => {
                let mut t = String::from_str("Chapter ");
                let n = decimal_string((index + 1) as u64);
                t.append(n.as_str());
                t
            },
        },
    };
    let role = classify_role(title.as_str(), base.as_str());
    let filename = ensure_xhtml(base.as_str());
    Chapter { title, content, filename, role }
}

pub open spec fn chapter_views(v: Seq<Chapter>) -> Seq<(Seq<char>, Seq<char>, Seq<char>, ChapterRole)> {
    v.map_values(|c: Chapter| chapter_view(c))
}

/// The chapters of the spine positions that have a document, in order.
pub fn chapters_from_reads(reads: Vec<Option<(String, String)>>, titles: &Vec<(String, String)>) -> (r: Vec<Chapter>)
    ensures
        chapter_views(r@) == chapters_spec(read_views(reads@), pair_views(titles@)),
{
    let mut out: Vec<Chapter> = Vec::new();
    let mut i: usize = 0;
    let ghost rv = read_views(reads@);
    assert(rv.take(0) =~= Seq::<Option<(Seq<char>, Seq<char>)>>::empty());
    assert(chapter_views(out@) =~= Seq::<(Seq<char>, Seq<char>, Seq<char>, ChapterRole)>::empty());
    while i < reads.len()
        invariant
            i <= reads.len(),
            rv == read_views(reads@),
            chapter_views(out@) == chapters_spec(rv.take(i as int), pair_views(titles@)),
        decreases reads.len() - i,
    {
        let ghost prefix = rv.take(i + 1);
        assert(prefix.drop_last() =~= rv.take(i as int));
        assert(prefix.last() == rv[i as int]);
        match &reads[i] {
            Some((href, content)) => {
                assert(rv[i as int] matches Some(p) && p.0 == href@ && p.1 == content@);
                let c = chapter_from(i, href.as_str(), content.clone(), titles);
                let ghost before = chapter_views(out@);
                out.push(c);
                assert(chapter_views(out@) =~= before.push(chapter_view(c)));
            },
            None => {},
        }
        i = i + 1;
    }
    assert(rv.take(reads.len() as int) =~= rv);
    out
}

/// Every chapter's role is the one its title and source file name give.
pub open spec fn roles_consistent(cs: Seq<(Seq<char>, Seq<char>, Seq<char>, ChapterRole)>) -> bool {
    forall|k: int|
        0 <= k < cs.len() ==> exists|b: Seq<char>|
            (#[trigger] cs[k]).2 == xhtml_name(b) && cs[k].3 == role_of(classification_text(cs[k].0, b))
}

pub proof fn lemma_chapters_spec_roles(
    reads: Seq<Option<(Seq<char>, Seq<char>)>>,
    titles: Seq<(Seq<char>, Seq<char>)>,
)
    ensures
        roles_consistent(chapters_spec(reads, titles)),
    decreases reads.len(),
{
    if reads.len() > 0 {
        lemma_chapters_spec_roles(reads.drop_last(), titles);
        let prev = chapters_spec(reads.drop_last(), titles);
        match reads.last() {
            Some(p) => {
                let c = chapter_spec(reads.len() - 1, p.0, p.1, titles);
                let cs = prev.push(c);
                assert forall|k: int| 0 <= k < cs.len() implies exists|b: Seq<char>|
                    (#[trigger] cs[k]).2 == xhtml_name(b) && cs[k].3 == role_of(
                        classification_text(cs[k].0, b),
                    ) by {
                    if k < prev.len() {
                        assert(cs[k] == prev[k]);
                    } else {
                        let b = basename_of(p.0);
                        assert(cs[k].2 == xhtml_name(b));
                    }
                }
            },
            None => {},
        }
    }
}

/// What spine item `id` reads as: its manifest href and the archive's text
/// at that href resolved against the package directory `dir`; `None` when
/// the manifest lacks the id or the archive has no readable entry there.
pub open spec fn spine_read(
    texts: Map<Seq<char>, Seq<char>>,
    dir: Seq<char>,
    manifest: Seq<(Seq<char>, Seq<char>)>,
    id: Seq<char>,
) -> Option<(Seq<char>, Seq<char>)> {
    match manifest_lookup(manifest, id) {
        Some(href) => if texts.contains_key(joined_path(dir, href)) {
            Some((href, texts[joined_path(dir, href)]))
        } else {
            None
        },
        None => None,
    }
}

/// What each spine item reads as, in spine order.
pub open spec fn spine_reads(
    texts: Map<Seq<char>, Seq<char>>,
    dir: Seq<char>,
    manifest: Seq<(Seq<char>, Seq<char>)>,
    spine: Seq<Seq<char>>,
) -> Seq<Option<(Seq<char>, Seq<char>)>> {
    spine.map_values(|id: Seq<char>| spine_read(texts, dir, manifest, id))
}

pub open spec fn container_path() -> Seq<char> {
    "META-INF/container.xml"@
}

/// The title table of the book: the `(file, title)` pairs of the NCX that
/// the manifest names under `ncx_id`, read from the archive at its href
/// resolved against `dir`; empty when there is no such item or entry.
pub open spec fn ncx_titles_of(
    texts: Map<Seq<char>, Seq<char>>,
    dir: Seq<char>,
    manifest: Seq<(Seq<char>, Seq<char>)>,
    ncx_id: Option<Seq<char>>,
) -> Seq<(Seq<char>, Seq<char>)> {
    match ncx_id {
        Some(id) => match manifest_lookup(manifest, id) {
            Some(href) => if texts.contains_key(joined_path(dir, href)) {
                ncx_scan((seq![], false, seq![]), xml_events_of(texts[joined_path(dir, href)]))
            } else {
                seq![]
            },
            None => seq![],
        },
        None => seq![],
    }
}

/// `r` is what reading the EPUB in `bytes` gives: not a ZIP archive; no
/// readable `META-INF/container.xml`; a container that is not well-formed or
/// names no package document; a package document the archive lacks or
/// cannot read; a package that is not well-formed or has an empty spine; or
/// else the chapters of the spine documents the archive has, in spine order,
/// each with its own text, titled from the NCX, else its `<title>`, else
/// "Chapter n".
pub open spec fn is_epub_result(bytes: Seq<u8>, r: Result<Vec<Chapter>, PackageError>) -> bool {
    if !zip_opens(bytes) {
        r matches Err(PackageError::NotZip(_))
    } else {
        let texts = archive_texts(bytes);
        if !texts.contains_key(container_path()) {
            r matches Err(PackageError::MissingContainer)
        } else {
            match rootfile_scan(xml_events_of(texts[container_path()])) {
                RootfileScan::Syntax(m) => r matches Err(PackageError::ContainerSyntax(e)) && e@ == m,
                RootfileScan::NotFound => r matches Err(PackageError::NoRootfile),
                RootfileScan::Found(opf) => if !texts.contains_key(opf) {
                    (r matches Err(PackageError::MissingEntry(n)) && n@ == opf) || (r matches Err(
                        PackageError::UnreadableEntry(n),
                    ) && n@ == opf)
                } else {
                    let (st, err) = opf_scan(opf_start(), xml_events_of(texts[opf]));
                    match err {
                        Some(m) => r matches Err(PackageError::OpfSyntax(e)) && e@ == m,
                        None => if st.1.len() == 0 {
                            r matches Err(PackageError::EmptySpine)
                        } else {
                            let dir = parent_dir_of(opf);
                            r matches Ok(chs) && chapter_views(chs@) == chapters_spec(
                                spine_reads(texts, dir, st.0, st.1),
                                ncx_titles_of(texts, dir, st.0, st.2),
                            )
                        },
                    }
                },
            }
        }
    }
}

/// Reads the EPUB in `epub` and returns one chapter per spine document, in
/// reading order, with each document's own content. Spine entries whose
/// document is missing from the manifest or unreadable are skipped; titles
/// come from the NCX navMap, else the document's `<title>`, else
/// "Chapter n".
pub fn read_epub_chapters(epub: Vec<u8>) -> (r: Result<Vec<Chapter>, PackageError>)
    ensures
        is_epub_result(epub@, r),
        r matches Ok(chs) ==> roles_consistent(chapter_views(chs@)),
        r matches Ok(chs) ==> forall|k: int| 0 <= k < chs.len() ==> ends_with((#[trigger] chs@[k]).filename@, ".xhtml"@),
{
    let ghost texts = archive_texts(epub@);
    let mut archive = match open_archive(epub) {
        Ok(a) => a,
        Err(e) => {
            return Err(PackageError::NotZip(zip_error_message(&e)));
        },
    };
    let container = match read_zip_text(&mut archive, "META-INF/container.xml") {
        Ok(c) => c,
        Err(_) => {
            return Err(PackageError::MissingContainer);
        },
    };
    assert(container@ == texts[container_path()]);
    let opf_path = match find_rootfile(&xml_events(container.as_str())) {
        Ok(p) => p,
        Err(e) => {
            return Err(e);
        },
    };
    let opf = match read_zip_text(&mut archive, opf_path.as_str()) {
        Ok(t) => t,
        Err(e) => {
            return Err(e);
        },
    };
    let opf_dir = parent_dir(opf_path.as_str());
    assert(opf@ == texts[opf_path@]);
    let pkg = match parse_opf_events(&xml_events(opf.as_str())) {
        Ok(p) => p,
        Err(e) => {
            return Err(e);
        },
    };
    let titles: Vec<(String, String)> = match &pkg.ncx_id {
        Some(id) => match lookup_manifest(&pkg.manifest, id.as_str()) {
            Some(href) => {
                let ncx_path = join_path(opf_dir.as_str(), href.as_str());
                match read_zip_text(&mut archive, ncx_path.as_str()) {
                    Ok(ncx) => parse_ncx_events(&xml_events(ncx.as_str())),
                    Err(_) => {
                        let v: Vec<(String, String)> = Vec::new();
                        assert(pair_views(v@) =~= Seq::<(Seq<char>, Seq<char>)>::empty());
                        v
                    },
                }
            },
            None => {
                let v: Vec<(String, String)> = Vec::new();
                assert(pair_views(v@) =~= Seq::<(Seq<char>, Seq<char>)>::empty());
                v
            },
        },
        None => {
            let v: Vec<(String, String)> = Vec::new();
            assert(pair_views(v@) =~= Seq::<(Seq<char>, Seq<char>)>::empty());
            v
        },
    };
    assert(pair_views(titles@) == ncx_titles_of(texts, opf_dir@, pkg.manifest_view(), crate::xml::opt_view(pkg.ncx_id)));
    let ghost manifest = pkg.manifest_view();
    let ghost spine = pkg.spine_view();
    let mut reads: Vec<Option<(String, String)>> = Vec::new();
    let mut i: usize = 0;
    while i < pkg.spine.len()
        invariant
            i <= pkg.spine.len(),
            reads.len() == i,
            archive.source() == epub@,
            zip_opens(epub@),
            texts == archive_texts(epub@),
            manifest == pkg.manifest_view(),
            spine == pkg.spine_view(),
            read_views(reads@) == spine_reads(texts, opf_dir@, manifest, spine.take(i as int)),
        decreases pkg.spine.len() - i,
    {
        let ghost before = read_views(reads@);
        assert(spine[i as int] == pkg.spine@[i as int]@);
        match lookup_manifest(&pkg.manifest, pkg.spine[i].as_str()) {
            None => {
                reads.push(None);
            },
            Some(href) => {
                let full_path = join_path(opf_dir.as_str(), href.as_str());
                match read_zip_text(&mut archive, full_path.as_str()) {
                    Ok(content) => {
                        reads.push(Some((href, content)));
                    },
                    Err(_) => {
                        reads.push(None);
                    },
                }
            },
        }
        assert(read_views(reads@) =~= before.push(read_views(reads@).last()));
        assert(forall|j: int| 0 <= j < before.len() ==> read_views(reads@)[j] == before[j]);
        assert(read_views(reads@).last() == spine_read(texts, opf_dir@, manifest, spine[i as int]));
        assert(spine_reads(texts, opf_dir@, manifest, spine.take(i + 1)) =~= spine_reads(
            texts,
            opf_dir@,
            manifest,
            spine.take(i as int),
        ).push(spine_read(texts, opf_dir@, manifest, spine[i as int])));
        i = i + 1;
    }
    assert(spine.take(pkg.spine.len() as int) =~= spine);
    let chapters = chapters_from_reads(reads, &titles);
    proof {
        lemma_chapters_spec_roles(read_views(reads@), pair_views(titles@));
        assert(chapter_views(chapters@) == chapters_spec(
            spine_reads(texts, parent_dir_of(opf_path@), manifest, spine),
            pair_views(titles@),
        ));
        let cs = chapter_views(chapters@);
        assert forall|k: int| 0 <= k < chapters.len() implies ends_with((#[trigger] chapters@[k]).filename@, ".xhtml"@) by {
            assert(cs[k] == chapter_view(chapters@[k]));
            let b = choose|b: Seq<char>| cs[k].2 == xhtml_name(b) && cs[k].3 == role_of(classification_text(cs[k].0, b));
            lemma_xhtml_name_is_xhtml(b);
        }
    }
    Ok(chapters)
}

} // verus!

verus! {

/// A chapter's title is the NCX label of its file whenever the NCX labels
/// it, whatever the document's own `<title>` says; the `<title>` counts only
/// for a file the NCX does not label, and "Chapter n" (n the spine position
/// from 1) only when neither gives one.
pub proof fn law_ncx_label_wins(
    index: int,
    href: Seq<char>,
    content: Seq<char>,
    titles: Seq<(Seq<char>, Seq<char>)>,
)
    requires
        index >= 0,
    ensures
        title_lookup(titles, basename_of(href)) matches Some(label) ==> chapter_spec(index, href, content, titles).0
            == label,
        title_lookup(titles, basename_of(href)) is None ==> (title_of(content) matches Some(t) ==> chapter_spec(
            index,
            href,
            content,
            titles,
        ).0 == t),
        title_lookup(titles, basename_of(href)) is None && title_of(content) is None ==> chapter_spec(
            index,
            href,
            content,
            titles,
        ).0 == "Chapter "@ + decimal((index + 1) as nat),
{
}

/// The NCX gives a file the label of its first `navLabel` that names it,
/// trimmed: a lookup in the title table finds the first pair for the file.
pub proof fn law_title_table_first_pair_wins(titles: Seq<(Seq<char>, Seq<char>)>, file: Seq<char>, i: int)
    requires
        0 <= i < titles.len(),
        titles[i].0 == file,
        forall|j: int| 0 <= j < i ==> (#[trigger] titles[j]).0 != file,
    ensures
        title_lookup(titles, file) == Some(titles[i].1),
    decreases i,
{
    if i > 0 {
        assert forall|j: int| 0 <= j < i - 1 implies (#[trigger] titles.drop_first()[j]).0 != file by {
            assert(titles.drop_first()[j] == titles[j + 1]);
        }
        assert(titles[0].0 != file);
        law_title_table_first_pair_wins(titles.drop_first(), file, i - 1);
    }
}

} // verus!
