//! Reading the EPUB package documents: `META-INF/container.xml`, the OPF
//! package (manifest, spine, NCX id) and the NCX navigation map, each from
//! its XML events.

use vstd::prelude::*;

use crate::paths::basename_of;
use crate::text::{trim, trimmed};
use crate::xml::{attr, attr_value, attr_views, ev_view, evs_view, local_name, local_name_of, XmlEvent, XmlEventView, XmlTag};

verus! {

/// Why an EPUB could not be read.
#[derive(Debug, Clone)]
pub enum PackageError {
    /// The bytes are not a ZIP archive; the ZIP reader's message.
    NotZip(String),
    /// `META-INF/container.xml` is absent or unreadable.
    MissingContainer,
    /// `container.xml` is not well-formed XML; the parser's message.
    ContainerSyntax(String),
    /// `container.xml` names no `rootfile` with a `full-path`.
    NoRootfile,
    /// The archive has no entry of this name.
    MissingEntry(String),
    /// The entry of this name could not be read as UTF-8 text.
    UnreadableEntry(String),
    /// The OPF package is not well-formed XML; the parser's message.
    OpfSyntax(String),
    /// The OPF spine lists no document.
    EmptySpine,
}

/// The name and attributes of a start or empty-element event.
pub open spec fn tag_of(ev: XmlEventView) -> Option<(Seq<u8>, Seq<(Seq<u8>, Seq<u8>)>)> {
    match ev {
        XmlEventView::Start(n, a) => Some((n, a)),
        XmlEventView::Empty(n, a) => Some((n, a)),
        _ => None,
    }
}

fn tag_of_exec(ev: &XmlEvent) -> (r: Option<&XmlTag>)
    ensures
        match r {
            Some(t) => tag_of(ev_view(*ev)) == Some((t.name@, attr_views(t.attributes@))),
            None => tag_of(ev_view(*ev)) is None,
        },
{
    match ev {
        XmlEvent::Start(t) => Some(t),
        XmlEvent::Empty(t) => Some(t),
        _ => None,
    }
}

fn is_named(tag_name: &[u8], expected: &str) -> (b: bool)
    ensures
        b == (local_name_of(tag_name@) == expected@),
{
    let n = local_name(tag_name);
    crate::text::str_eq(n.as_str(), expected)
}

// ---------------------------------------------------------------------------
// container.xml
// ---------------------------------------------------------------------------

/// What scanning `container.xml` finds.
pub enum RootfileScan {
    /// The `full-path` of the first `rootfile` element that has one.
    Found(Seq<char>),
    /// A syntax error came first; its message.
    Syntax(Seq<char>),
    /// The document ended without such an element.
    NotFound,
}

/// Scans events for the first `rootfile` element with a `full-path`.
pub open spec fn rootfile_scan(evs: Seq<XmlEventView>) -> RootfileScan
    decreases evs.len(),
{
    if evs.len() == 0 {
        RootfileScan::NotFound
    } else {
        match evs[0] {
            XmlEventView::Eof => RootfileScan::NotFound,
            XmlEventView::Error(m) => RootfileScan::Syntax(m),
            ev => match tag_of(ev) {
                Some(t) => if local_name_of(t.0) == "rootfile"@ && attr_value(t.1, "full-path"@) is Some {
                    RootfileScan::Found(attr_value(t.1, "full-path"@).unwrap())
                } else {
                    rootfile_scan(evs.drop_first())
                },
                None => rootfile_scan(evs.drop_first()),
            },
        }
    }
}

/// `r` reports what the scan found.
pub open spec fn rootfile_result(r: Result<String, PackageError>, scan: RootfileScan) -> bool {
    match scan {
        RootfileScan::Found(p) => r matches Ok(s) && s@ == p,
        RootfileScan::Syntax(m) => r matches Err(PackageError::ContainerSyntax(e)) && e@ == m,
        RootfileScan::NotFound => r matches Err(PackageError::NoRootfile),
    }
}

/// Locates the OPF package document named by the container's events.
pub fn find_rootfile(evs: &Vec<XmlEvent>) -> (r: Result<String, PackageError>)
    ensures
        rootfile_result(r, rootfile_scan(evs_view(evs@))),
{
    let mut i: usize = 0;
    let ghost vs = evs_view(evs@);
    assert(vs.skip(0) =~= vs);
    while i < evs.len()
        invariant
            i <= evs.len(),
            vs == evs_view(evs@),
            rootfile_scan(vs.skip(i as int)) == rootfile_scan(vs),
        decreases evs.len() - i,
    {
        let ghost rest = vs.skip(i as int);
        assert(rest[0] == ev_view(evs@[i as int]));
        assert(rest.drop_first() =~= vs.skip(i + 1));
        match &evs[i] {
            XmlEvent::Eof => {
                return Err(PackageError::NoRootfile);
            },
            XmlEvent::Error(m) => {
                return Err(PackageError::ContainerSyntax(m.clone()));
            },
            ev => {
                if let Some(t) = tag_of_exec(ev) {
                    if is_named(t.name.as_slice(), "rootfile") {
                        if let Some(p) = attr(t, "full-path") {
                            return Ok(p);
                        }
                    }
                }
            },
        }
        i = i + 1;
    }
    assert(vs.skip(i as int) =~= Seq::<XmlEventView>::empty());
    Err(PackageError::NoRootfile)
}

} // verus!

verus! {

// ---------------------------------------------------------------------------
// The OPF package
// ---------------------------------------------------------------------------

/// The media type that marks the NCX item of the manifest.
pub open spec fn ncx_media_type() -> Seq<char> {
    "application/x-dtbncx+xml"@
}

/// The OPF scan state: manifest entries `(id, href)` in document order,
/// spine idrefs in reading order, the NCX item id, and whether the scan is
/// inside `<manifest>` / `<spine>`.
pub open spec fn opf_start() -> (Seq<(Seq<char>, Seq<char>)>, Seq<Seq<char>>, Option<Seq<char>>, bool, bool) {
    (seq![], seq![], None, false, false)
}

/// The OPF scan state after one event.
pub open spec fn opf_step(
    st: (Seq<(Seq<char>, Seq<char>)>, Seq<Seq<char>>, Option<Seq<char>>, bool, bool),
    ev: XmlEventView,
) -> (Seq<(Seq<char>, Seq<char>)>, Seq<Seq<char>>, Option<Seq<char>>, bool, bool) {
    let (man, spine, ncx, in_m, in_s) = st;
    match tag_of(ev) {
        Some(t) => {
            let n = local_name_of(t.0);
            let a = t.1;
            if n == "manifest"@ {
                (man, spine, ncx, true, in_s)
            } else if n == "spine"@ {
                (man, spine, ncx, in_m, true)
            } else if n == "item"@ && in_m {
                match (attr_value(a, "id"@), attr_value(a, "href"@)) {
                    (Some(id), Some(href)) => (
                        man.push((id, href)),
                        spine,
                        if attr_value(a, "media-type"@) == Some(ncx_media_type()) {
                            Some(id)
                        } else {
                            ncx
                        },
                        in_m,
                        in_s,
                    ),
                    _ => st,
                }
            } else if n == "itemref"@ && in_s {
                match attr_value(a, "idref"@) {
                    Some(r) => (man, spine.push(r), ncx, in_m, in_s),
                    None => st,
                }
            } else {
                st
            }
        },
        None => match ev {
            XmlEventView::End(raw) => {
                let n = local_name_of(raw);
                if n == "manifest"@ {
                    (man, spine, ncx, false, in_s)
                } else if n == "spine"@ {
                    (man, spine, ncx, in_m, false)
                } else {
                    st
                }
            },
            _ => st,
        },
    }
}

/// The OPF scan state at the end of the events (or at the first
/// end-of-document event), and the message of a syntax error that stopped it.
pub open spec fn opf_scan(
    st: (Seq<(Seq<char>, Seq<char>)>, Seq<Seq<char>>, Option<Seq<char>>, bool, bool),
    evs: Seq<XmlEventView>,
) -> ((Seq<(Seq<char>, Seq<char>)>, Seq<Seq<char>>, Option<Seq<char>>, bool, bool), Option<Seq<char>>)
    decreases evs.len(),
{
    if evs.len() == 0 {
        (st, None)
    } else {
        match evs[0] {
            XmlEventView::Eof => (st, None),
            XmlEventView::Error(m) => (st, Some(m)),
            ev => opf_scan(opf_step(st, ev), evs.drop_first()),
        }
    }
}

/// The parsed package: manifest entries `(id, href)` in document order (a
/// later entry with the same id replaces an earlier one), the spine's idrefs
/// in reading order, and the NCX item id.
#[derive(Debug, Clone)]
pub struct OpfPackage {
    pub manifest: Vec<(String, String)>,
    pub spine: Vec<String>,
    pub ncx_id: Option<String>,
}

pub open spec fn pair_views(v: Seq<(String, String)>) -> Seq<(Seq<char>, Seq<char>)> {
    v.map_values(|p: (String, String)| (p.0@, p.1@))
}

pub open spec fn string_views(v: Seq<String>) -> Seq<Seq<char>> {
    v.map_values(|s: String| s@)
}

impl OpfPackage {
    pub open spec fn manifest_view(&self) -> Seq<(Seq<char>, Seq<char>)> {
        pair_views(self.manifest@)
    }

    pub open spec fn spine_view(&self) -> Seq<Seq<char>> {
        string_views(self.spine@)
    }
}

/// `r` is what the OPF events describe: a syntax error, an empty spine, or
/// the package.
pub open spec fn opf_result(r: Result<OpfPackage, PackageError>, evs: Seq<XmlEventView>) -> bool {
    let (st, err) = opf_scan(opf_start(), evs);
    match err {
        Some(m) => r matches Err(PackageError::OpfSyntax(e)) && e@ == m,
        None => if st.1.len() == 0 {
            r matches Err(PackageError::EmptySpine)
        } else {
            r matches Ok(p) && p.manifest_view() == st.0 && p.spine_view() == st.1
                && crate::xml::opt_view(p.ncx_id) == st.2
        },
    }
}

fn finish_package(manifest: Vec<(String, String)>, spine: Vec<String>, ncx_id: Option<String>) -> (r:
    Result<OpfPackage, PackageError>)
    ensures
        spine@.len() == 0 ==> r matches Err(PackageError::EmptySpine),
        spine@.len() > 0 ==> (r matches Ok(p) && p.manifest@ == manifest@ && p.spine@ == spine@
            && p.ncx_id == ncx_id),
{
    if spine.len() == 0 {
        Err(PackageError::EmptySpine)
    } else {
        Ok(OpfPackage { manifest, spine, ncx_id })
    }
}

/// Parses the OPF package's events into manifest, spine and NCX id.
pub fn parse_opf_events(evs: &Vec<XmlEvent>) -> (r: Result<OpfPackage, PackageError>)
    ensures
        opf_result(r, evs_view(evs@)),
{
    let mut manifest: Vec<(String, String)> = Vec::new();
    let mut spine: Vec<String> = Vec::new();
    let mut ncx_id: Option<String> = None;
    let mut in_manifest = false;
    let mut in_spine = false;
    let mut i: usize = 0;
    let ghost vs = evs_view(evs@);
    assert(vs.skip(0) =~= vs);
    assert(pair_views(manifest@) =~= Seq::<(Seq<char>, Seq<char>)>::empty());
    assert(string_views(spine@) =~= Seq::<Seq<char>>::empty());
    while i < evs.len()
        invariant
            i <= evs.len(),
            opf_scan(
                (
                    pair_views(manifest@),
                    string_views(spine@),
                    crate::xml::opt_view(ncx_id),
                    in_manifest,
                    in_spine,
                ),
                vs.skip(i as int),
            ) == opf_scan(opf_start(), vs),
            vs == evs_view(evs@),
        decreases evs.len() - i,
    {
        let ghost rest = vs.skip(i as int);
        let ghost st = (
            pair_views(manifest@),
            string_views(spine@),
            crate::xml::opt_view(ncx_id),
            in_manifest,
            in_spine,
        );
        assert(rest[0] == ev_view(evs@[i as int]));
        assert(rest.drop_first() =~= vs.skip(i + 1));
        match &evs[i] {
            XmlEvent::Eof => {
                return finish_package(manifest, spine, ncx_id);
            },
            XmlEvent::Error(m) => {
                return Err(PackageError::OpfSyntax(m.clone()));
            },
            ev => {
                if let Some(t) = tag_of_exec(ev) {
                    if is_named(t.name.as_slice(), "manifest") {
                        in_manifest = true;
                    } else if is_named(t.name.as_slice(), "spine") {
                        in_spine = true;
                    } else if is_named(t.name.as_slice(), "item") && in_manifest {
                        let id = attr(t, "id");
                        let href = attr(t, "href");
                        match (id, href) {
                            (Some(id), Some(href)) => {
                                let mt = attr(t, "media-type");
                                let is_ncx = match &mt {
                                    Some(m) => crate::text::str_eq(
                                        m.as_str(),
                                        "application/x-dtbncx+xml",
                                    ),
                                    None => false,
                                };
                                if is_ncx {
                                    ncx_id = Some(id.clone());
                                }
                                let ghost pv = pair_views(manifest@);
                                manifest.push((id, href));
                                assert(pair_views(manifest@) =~= pv.push(
                                    (manifest@.last().0@, manifest@.last().1@),
                                ));
                            },
                            _ => {},
                        }
                    } else if is_named(t.name.as_slice(), "itemref") && in_spine {
                        if let Some(r) = attr(t, "idref") {
                            let ghost sv = string_views(spine@);
                            spine.push(r);
                            assert(string_views(spine@) =~= sv.push(spine@.last()@));
                        }
                    }
                } else {
                    if let XmlEvent::End(raw) = ev {
                        if is_named(raw.as_slice(), "manifest") {
                            in_manifest = false;
                        } else if is_named(raw.as_slice(), "spine") {
                            in_spine = false;
                        }
                    }
                }
                assert((
                    pair_views(manifest@),
                    string_views(spine@),
                    crate::xml::opt_view(ncx_id),
                    in_manifest,
                    in_spine,
                ) == opf_step(st, ev_view(evs@[i as int])));
            },
        }
        i = i + 1;
    }
    assert(vs.skip(i as int) =~= Seq::<XmlEventView>::empty());
    finish_package(manifest, spine, ncx_id)
}

} // verus!

verus! {

// ---------------------------------------------------------------------------
// The NCX navigation map
// ---------------------------------------------------------------------------

/// The NCX scan state: `(file, title)` pairs in document order, whether the
/// scan is inside a `<text>` element, and the label text gathered so far.
pub open spec fn ncx_step(
    st: (Seq<(Seq<char>, Seq<char>)>, bool, Seq<char>),
    ev: XmlEventView,
) -> (Seq<(Seq<char>, Seq<char>)>, bool, Seq<char>) {
    let (pairs, in_text, label) = st;
    match tag_of(ev) {
        Some(t) => {
            let n = local_name_of(t.0);
            if n == "text"@ {
                (pairs, true, seq![])
            } else if n == "content"@ {
                match attr_value(t.1, "src"@) {
                    Some(src) => {
                        let base = basename_of(src);
                        if base.len() > 0 && trimmed(label).len() > 0 {
                            (pairs.push((base, trimmed(label))), in_text, label)
                        } else {
                            st
                        }
                    },
                    None => st,
                }
            } else {
                st
            }
        },
        None => match ev {
            XmlEventView::Text(s) => if in_text {
                (pairs, in_text, label + s)
            } else {
                st
            },
            XmlEventView::End(raw) => if local_name_of(raw) == "text"@ {
                (pairs, false, label)
            } else {
                st
            },
            _ => st,
        },
    }
}

/// The `(file, title)` pairs found before the end of the events, the first
/// end-of-document event or the first syntax error.
pub open spec fn ncx_scan(st: (Seq<(Seq<char>, Seq<char>)>, bool, Seq<char>), evs: Seq<XmlEventView>) -> Seq<
    (Seq<char>, Seq<char>),
>
    decreases evs.len(),
{
    if evs.len() == 0 {
        st.0
    } else {
        match evs[0] {
            XmlEventView::Eof => st.0,
            XmlEventView::Error(_) => st.0,
            ev => ncx_scan(ncx_step(st, ev), evs.drop_first()),
        }
    }
}

/// The title the pairs give `file`: the first pair for it wins.
pub open spec fn title_lookup(pairs: Seq<(Seq<char>, Seq<char>)>, file: Seq<char>) -> Option<Seq<char>>
    decreases pairs.len(),
{
    if pairs.len() == 0 {
        None
    } else if pairs[0].0 == file {
        Some(pairs[0].1)
    } else {
        title_lookup(pairs.drop_first(), file)
    }
}

/// The manifest href of `id`: the last entry for it wins.
pub open spec fn manifest_lookup(entries: Seq<(Seq<char>, Seq<char>)>, id: Seq<char>) -> Option<Seq<char>>
    decreases entries.len(),
{
    if entries.len() == 0 {
        None
    } else if entries.last().0 == id {
        Some(entries.last().1)
    } else {
        manifest_lookup(entries.drop_last(), id)
    }
}

/// Maps chapter file names to titles from the NCX navMap events; each
/// `navLabel` text is trimmed and the first title for a file wins.
pub fn parse_ncx_events(evs: &Vec<XmlEvent>) -> (r: Vec<(String, String)>)
    ensures
        pair_views(r@) == ncx_scan((seq![], false, seq![]), evs_view(evs@)),
{
    let mut pairs: Vec<(String, String)> = Vec::new();
    let mut in_text = false;
    let mut label = String::new();
    let mut i: usize = 0;
    let ghost vs = evs_view(evs@);
    assert(vs.skip(0) =~= vs);
    assert(pair_views(pairs@) =~= Seq::<(Seq<char>, Seq<char>)>::empty());
    while i < evs.len()
        invariant
            i <= evs.len(),
            vs == evs_view(evs@),
            ncx_scan((pair_views(pairs@), in_text, label@), vs.skip(i as int)) == ncx_scan(
                (seq![], false, seq![]),
                vs,
            ),
        decreases evs.len() - i,
    {
        let ghost rest = vs.skip(i as int);
        let ghost st = (pair_views(pairs@), in_text, label@);
        assert(rest[0] == ev_view(evs@[i as int]));
        assert(rest.drop_first() =~= vs.skip(i + 1));
        match &evs[i] {
            XmlEvent::Eof => {
                return pairs;
            },
            XmlEvent::Error(_) => {
                return pairs;
            },
            ev => {
                if let Some(t) = tag_of_exec(ev) {
                    if is_named(t.name.as_slice(), "text") {
                        in_text = true;
                        label = String::new();
                    } else if is_named(t.name.as_slice(), "content") {
                        if let Some(src) = attr(t, "src") {
                            let base = crate::paths::basename(src.as_str());
                            let t_label = trim(label.as_str());
                            if crate::text::chars_of(base.as_str()).len() > 0
                                && crate::text::chars_of(t_label.as_str()).len() > 0 {
                                let ghost pv = pair_views(pairs@);
                                pairs.push((base, t_label));
                                assert(pair_views(pairs@) =~= pv.push(
                                    (pairs@.last().0@, pairs@.last().1@),
                                ));
                            }
                        }
                    }
                } else {
                    match ev {
                        XmlEvent::Text(s) => {
                            if in_text {
                                label.append(s.as_str());
                            }
                        },
                        XmlEvent::End(raw) => {
                            if is_named(raw.as_slice(), "text") {
                                in_text = false;
                            }
                        },
                        _ => {},
                    }
                }
                assert((pair_views(pairs@), in_text, label@) == ncx_step(st, ev_view(evs@[i as int])));
            },
        }
        i = i + 1;
    }
    assert(vs.skip(i as int) =~= Seq::<XmlEventView>::empty());
    pairs
}

/// The title that `pairs` give `file`; the first pair for it wins.
pub fn lookup_title(pairs: &Vec<(String, String)>, file: &str) -> (r: Option<String>)
    ensures
        crate::xml::opt_view(r) == title_lookup(pair_views(pairs@), file@),
{
    let mut i: usize = 0;
    assert(pair_views(pairs@).skip(0) =~= pair_views(pairs@));
    while i < pairs.len()
        invariant
            i <= pairs.len(),
            title_lookup(pair_views(pairs@).skip(i as int), file@) == title_lookup(
                pair_views(pairs@),
                file@,
            ),
        decreases pairs.len() - i,
    {
        let ghost rest = pair_views(pairs@).skip(i as int);
        assert(rest[0] == (pairs@[i as int].0@, pairs@[i as int].1@));
        if crate::text::str_eq(pairs[i].0.as_str(), file) {
            return Some(pairs[i].1.clone());
        }
        assert(rest.drop_first() =~= pair_views(pairs@).skip(i + 1));
        i = i + 1;
    }
    None
}

/// The href the manifest gives `id`; a later entry for it wins.
pub fn lookup_manifest(entries: &Vec<(String, String)>, id: &str) -> (r: Option<String>)
    ensures
        crate::xml::opt_view(r) == manifest_lookup(pair_views(entries@), id@),
{
    let mut i: usize = entries.len();
    assert(pair_views(entries@).take(entries.len() as int) =~= pair_views(entries@));
    while i > 0
        invariant
            i <= entries.len(),
            manifest_lookup(pair_views(entries@).take(i as int), id@) == manifest_lookup(
                pair_views(entries@),
                id@,
            ),
        decreases i,
    {
        let ghost pre = pair_views(entries@).take(i as int);
        assert(pre.last() == (entries@[i - 1].0@, entries@[i - 1].1@));
        if crate::text::str_eq(entries[i - 1].0.as_str(), id) {
            return Some(entries[i - 1].1.clone());
        }
        assert(pre.drop_last() =~= pair_views(entries@).take(i - 1));
        i = i - 1;
    }
    None
}

} // verus!
