//! Path arithmetic on the `/`-separated names inside an EPUB container.

use vstd::prelude::*;

use crate::text::{
    after_last, after_last_exec, before_first, before_first_exec, chars_of, dot_led, last_index_exec,
    last_index_of, lemma_last_index_of, lemma_replace_all_keeps_suffix,
    lemma_replace_all_replaces_suffix, matches_at, push_range, replace_all, replace_str, string_of,
};

verus! {

/// The directory part of `path`: everything before its last `/`, or empty.
pub open spec fn parent_dir_of(path: Seq<char>) -> Seq<char> {
    match last_index_of(path, '/') {
        Some(i) => path.take(i),
        None => seq![],
    }
}

/// Everything before the last `/` of `path`, or the empty string.
pub fn parent_dir(path: &str) -> (r: String)
    ensures
        r@ == parent_dir_of(path@),
{
    let v = chars_of(path);
    proof {
        lemma_last_index_of(v@, '/');
    }
    match last_index_exec(v.as_slice(), '/') {
        Some(i) => {
            assert(last_index_of(v@, '/') == Some(i as int));
            let mut out: Vec<char> = Vec::new();
            push_range(&mut out, v.as_slice(), 0, i);
            assert(v@.subrange(0, i as int) =~= v@.take(i as int));
            string_of(out.as_slice())
        },
        None => String::new(),
    }
}

/// The file name of `path`: the fragment after `#` dropped, then everything
/// after the last `/`.
pub open spec fn basename_of(path: Seq<char>) -> Seq<char> {
    after_last(before_first(path, '#'), '/')
}

/// The file name of an href, without its fragment.
pub fn basename(path: &str) -> (r: String)
    ensures
        r@ == basename_of(path@),
{
    let no_frag = before_first_exec(path, '#');
    after_last_exec(no_frag.as_str(), '/')
}

/// A path with a `/` and no `#` is its directory part, a `/` and its base
/// name, and the base name has no `/`; a path without `/` has an empty
/// directory part.
pub proof fn law_parent_and_basename_rebuild_path(path: Seq<char>)
    ensures
        path.contains('/') && !path.contains('#') ==> parent_dir_of(path) + seq!['/'] + basename_of(path) == path
            && !basename_of(path).contains('/'),
        !path.contains('/') ==> parent_dir_of(path) == Seq::<char>::empty(),
{
    lemma_last_index_of(path, '/');
    crate::text::lemma_first_index_of(path, '#');
    if !path.contains('/') {
        if let Some(i) = last_index_of(path, '/') {
            assert(path.contains('/'));
        }
    }
    if path.contains('/') && !path.contains('#') {
        if let Some(k) = crate::text::first_index_of(path, '#') {
            assert(path.contains('#'));
        }
        assert(before_first(path, '#') == path);
        let w = choose|w: int| 0 <= w < path.len() && path[w] == '/';
        match last_index_of(path, '/') {
            Some(i) => {
                assert(path.take(i) + seq!['/'] + path.skip(i + 1) =~= path);
                assert(!path.skip(i + 1).contains('/')) by {
                    if path.skip(i + 1).contains('/') {
                        let t = path.skip(i + 1);
                        let j = choose|j: int| 0 <= j < t.len() && #[trigger] t[j] == '/';
                        assert(path[i + 1 + j] == '/');
                    }
                }
            },
            None => {
                assert(path[w] != '/');
            },
        }
    }
}

/// `s` ends with `p`.
pub open spec fn ends_with(s: Seq<char>, p: Seq<char>) -> bool {
    p.len() <= s.len() && s.skip(s.len() - p.len()) == p
}

pub fn ends_with_exec(s: &str, p: &str) -> (b: bool)
    ensures
        b == ends_with(s@, p@),
{
    let v = chars_of(s);
    let w = chars_of(p);
    if w.len() > v.len() {
        return false;
    }
    let off = v.len() - w.len();
    let mut i: usize = 0;
    while i < w.len()
        invariant
            i <= w.len(),
            off + w.len() == v.len(),
            v@ == s@,
            w@ == p@,
            forall|j: int| 0 <= j < i ==> v@[off + j] == w@[j],
        decreases w.len() - i,
    {
        if v[off + i] != w[i] {
            assert(v@.skip(off as int)[i as int] != w@[i as int]);
            return false;
        }
        i = i + 1;
    }
    assert(v@.skip(off as int) =~= w@);
    true
}

/// `name` turned into an `.xhtml` file name: kept when it already ends in
/// `.xhtml`; `.html`/`.htm` occurrences rewritten when it ends in either;
/// otherwise `.xhtml` appended.
pub open spec fn xhtml_name(name: Seq<char>) -> Seq<char> {
    if ends_with(name, ".xhtml"@) {
        name
    } else if ends_with(name, ".html"@) || ends_with(name, ".htm"@) {
        replace_all(replace_all(name, ".html"@, ".xhtml"@), ".htm"@, ".xhtml"@)
    } else {
        name + ".xhtml"@
    }
}

proof fn lemma_ends_with_concat(x: Seq<char>, t: Seq<char>)
    ensures
        ends_with(x + t, t),
{
    assert((x + t).skip((x + t).len() - t.len()) =~= t);
}

proof fn lemma_absent_in(t: Seq<char>, pat: Seq<char>)
    requires
        dot_led(pat),
        t.len() > 0,
        t[0] == '.',
        forall|i: int| 1 <= i < t.len() ==> t[i] != '.',
        !(pat.len() <= t.len() && t.take(pat.len() as int) == pat),
    ensures
        forall|k: int| !#[trigger] matches_at(t, k, pat),
{
    assert forall|k: int| !#[trigger] matches_at(t, k, pat) by {
        if matches_at(t, k, pat) {
            assert(t.subrange(k, k + pat.len())[0] == pat[0]);
            assert(t[k] == '.');
            assert(k == 0);
            assert(t.take(pat.len() as int) =~= t.subrange(0, pat.len() as int));
        }
    }
}

/// A name ending in `.xhtml`, `.html` or `.htm` ends in `.xhtml` once its
/// `.html` and then its `.htm` occurrences are rewritten to `.xhtml`.
pub proof fn lemma_rewritten_extension_is_xhtml(name: Seq<char>)
    requires
        ends_with(name, ".xhtml"@) || ends_with(name, ".html"@) || ends_with(name, ".htm"@),
    ensures
        ends_with(replace_all(replace_all(name, ".html"@, ".xhtml"@), ".htm"@, ".xhtml"@), ".xhtml"@),
{
    reveal_strlit(".xhtml");
    reveal_strlit(".html");
    reveal_strlit(".htm");
    let x = ".xhtml"@;
    let h = ".html"@;
    let m = ".htm"@;
    assert(dot_led(x) && dot_led(h) && dot_led(m));
    assert(x.take(h.len() as int)[1] != h[1]);
    assert(x.take(m.len() as int)[1] != m[1]);
    lemma_absent_in(x, h);
    lemma_absent_in(x, m);
    lemma_absent_in(m, h);
    let once = replace_all(name, h, x);
    if ends_with(name, x) {
        lemma_replace_all_keeps_suffix(name, h, x, x);
        lemma_ends_with_concat(replace_all(name.take(name.len() - x.len()), h, x), x);
    } else if ends_with(name, h) {
        lemma_replace_all_replaces_suffix(name, h, x);
        lemma_ends_with_concat(replace_all(name.take(name.len() - h.len()), h, x), x);
    } else {
        lemma_replace_all_keeps_suffix(name, h, x, m);
        lemma_ends_with_concat(replace_all(name.take(name.len() - m.len()), h, x), m);
        lemma_replace_all_replaces_suffix(once, m, x);
        lemma_ends_with_concat(replace_all(once.take(once.len() - m.len()), m, x), x);
    }
    if ends_with(once, x) {
        lemma_replace_all_keeps_suffix(once, m, x, x);
        lemma_ends_with_concat(replace_all(once.take(once.len() - x.len()), m, x), x);
    }
}

/// Every name `xhtml_name` gives is an `.xhtml` file name.
pub proof fn lemma_xhtml_name_is_xhtml(name: Seq<char>)
    ensures
        ends_with(xhtml_name(name), ".xhtml"@),
{
    if ends_with(name, ".xhtml"@) {
    } else if ends_with(name, ".html"@) || ends_with(name, ".htm"@) {
        lemma_rewritten_extension_is_xhtml(name);
    } else {
        lemma_ends_with_concat(name, ".xhtml"@);
    }
}

/// Gives `name` an `.xhtml` extension.
pub fn ensure_xhtml(name: &str) -> (r: String)
    ensures
        r@ == xhtml_name(name@),
        ends_with(r@, ".xhtml"@),
{
    proof {
        lemma_xhtml_name_is_xhtml(name@);
    }
    if ends_with_exec(name, ".xhtml") {
        string_of(chars_of(name).as_slice())
    } else if ends_with_exec(name, ".html") || ends_with_exec(name, ".htm") {
        let a = replace_str(name, ".html", ".xhtml");
        replace_str(a.as_str(), ".htm", ".xhtml")
    } else {
        let mut r = string_of(chars_of(name).as_slice());
        r.append(".xhtml");
        r
    }
}

/// `s` split at every `/`, as `str::split('/')` gives it (at least one piece).
pub open spec fn split_slash(s: Seq<char>) -> Seq<Seq<char>>
    decreases s.len(),
{
    match crate::text::first_index_of(s, '/') {
        None => seq![s],
        Some(i) => if 0 <= i < s.len() {
            seq![s.take(i)] + split_slash(s.skip(i + 1))
        } else {
            seq![s]
        },
    }
}

/// The path segments kept after `.` and empty segments are dropped and each
/// `..` removes the segment before it (if any).
pub open spec fn resolve_segments(stack: Seq<Seq<char>>, segs: Seq<Seq<char>>) -> Seq<Seq<char>>
    decreases segs.len(),
{
    if segs.len() == 0 {
        stack
    } else {
        let g = segs[0];
        let next = if g.len() == 0 || g == "."@ {
            stack
        } else if g == ".."@ {
            if stack.len() > 0 {
                stack.drop_last()
            } else {
                stack
            }
        } else {
            stack.push(g)
        };
        resolve_segments(next, segs.drop_first())
    }
}

/// `parts` joined with `/`.
pub open spec fn join_slash(parts: Seq<Seq<char>>) -> Seq<char>
    decreases parts.len(),
{
    if parts.len() == 0 {
        seq![]
    } else if parts.len() == 1 {
        parts[0]
    } else {
        join_slash(parts.drop_last()) + seq!['/'] + parts.last()
    }
}

/// `href` appended to directory `dir` with a `/` (just `href` when `dir` is empty).
pub open spec fn combined_path(dir: Seq<char>, href: Seq<char>) -> Seq<char> {
    if dir.len() == 0 {
        href
    } else {
        dir + seq!['/'] + href
    }
}

/// The segments of `href` relative to directory `dir`, `.` and `..` resolved.
pub open spec fn resolved_segments(dir: Seq<char>, href: Seq<char>) -> Seq<Seq<char>> {
    resolve_segments(seq![], split_slash(combined_path(dir, href)))
}

/// `href` relative to directory `dir`, with `.` and `..` segments resolved.
pub open spec fn joined_path(dir: Seq<char>, href: Seq<char>) -> Seq<char> {
    join_slash(resolved_segments(dir, href))
}

pub open spec fn vec_views(v: Seq<Vec<char>>) -> Seq<Seq<char>> {
    v.map_values(|x: Vec<char>| x@)
}

fn is_lit(v: &[char], lit: &str) -> (b: bool)
    ensures
        b == (v@ == lit@),
{
    let w = chars_of(lit);
    if v.len() != w.len() {
        return false;
    }
    let mut i: usize = 0;
    while i < v.len()
        invariant
            i <= v.len() == w.len(),
            w@ == lit@,
            forall|j: int| 0 <= j < i ==> v@[j] == w@[j],
        decreases v.len() - i,
    {
        if v[i] != w[i] {
            assert(v@[i as int] != w@[i as int]);
            return false;
        }
        i = i + 1;
    }
    assert(v@ =~= w@);
    true
}

/// Joins an href relative to the package directory `dir`, resolving `.` and
/// `..` segments.
pub fn join_path(dir: &str, href: &str) -> (r: String)
    ensures
        r@ == joined_path(dir@, href@),
{
    let mut combined: Vec<char> = Vec::new();
    let d = chars_of(dir);
    let h = chars_of(href);
    if d.len() > 0 {
        push_range(&mut combined, d.as_slice(), 0, d.len());
        combined.push('/');
    }
    push_range(&mut combined, h.as_slice(), 0, h.len());
    assert(d@.subrange(0, d.len() as int) =~= d@);
    assert(h@.subrange(0, h.len() as int) =~= h@);
    let ghost c = combined_path(dir@, href@);
    assert(combined@ =~= c);
    let ghost goal = resolve_segments(seq![], split_slash(c));
    let mut stack: Vec<Vec<char>> = Vec::new();
    let mut pos: usize = 0;
    assert(combined@.skip(0) =~= combined@);
    assert(vec_views(stack@) =~= Seq::<Seq<char>>::empty());
    loop
        invariant_except_break
            resolve_segments(vec_views(stack@), split_slash(combined@.skip(pos as int))) == goal,
        invariant
            pos <= combined.len(),
            combined@ == c,
        ensures
            vec_views(stack@) == goal,
        decreases combined.len() - pos,
    {
        let ghost rest = combined@.skip(pos as int);
        let mut k: usize = pos;
        while k < combined.len() && combined[k] != '/'
            invariant
                pos <= k <= combined.len(),
                forall|j: int| pos <= j < k ==> combined@[j] != '/',
            decreases combined.len() - k,
        {
            k = k + 1;
        }
        let mut seg: Vec<char> = Vec::new();
        push_range(&mut seg, combined.as_slice(), pos, k);
        proof {
            crate::text::lemma_first_index_of(rest, '/');
            assert forall|j: int| 0 <= j < k - pos implies rest[j] != '/' by {
                assert(rest[j] == combined@[pos + j]);
            }
            if k < combined.len() {
                assert(rest[k - pos] == '/');
                assert(crate::text::first_index_of(rest, '/') == Some(k - pos)) by {
                    if crate::text::first_index_of(rest, '/') != Some(k - pos) {
                        match crate::text::first_index_of(rest, '/') {
                            Some(x) => {
                                if x < k - pos {
                                    assert(rest[x] != '/');
                                }
                            },
                            None => {},
                        }
                    }
                }
                assert(rest.take(k - pos) =~= seg@);
                assert(rest.skip(k - pos + 1) =~= combined@.skip(k + 1));
            } else {
                assert(crate::text::first_index_of(rest, '/') is None);
                assert(rest =~= seg@);
            }
        }
        let ghost before = vec_views(stack@);
        if seg.len() == 0 || is_lit(seg.as_slice(), ".") {
        } else if is_lit(seg.as_slice(), "..") {
            if stack.len() > 0 {
                stack.pop();
                assert(vec_views(stack@) =~= before.drop_last());
            }
        } else {
            stack.push(seg.clone());
            assert(vec_views(stack@) =~= before.push(seg@));
        }
        if k >= combined.len() {
            assert(split_slash(rest) == seq![seg@]);
            assert(seq![seg@].drop_first() =~= Seq::<Seq<char>>::empty());
            assert(resolve_segments(vec_views(stack@), Seq::<Seq<char>>::empty()) == vec_views(
                stack@,
            ));
            assert(resolve_segments(before, seq![seg@]) == resolve_segments(
                vec_views(stack@),
                seq![seg@].drop_first(),
            ));
            break;
        }
        assert(split_slash(rest) == seq![seg@] + split_slash(combined@.skip(k + 1)));
        assert((seq![seg@] + split_slash(combined@.skip(k + 1))).drop_first() =~= split_slash(
            combined@.skip(k + 1),
        ));
        pos = k + 1;
    }
    let mut out: Vec<char> = Vec::new();
    let mut i: usize = 0;
    while i < stack.len()
        invariant
            i <= stack.len(),
            out@ == join_slash(vec_views(stack@).take(i as int)),
        decreases stack.len() - i,
    {
        let ghost prev = vec_views(stack@).take(i as int);
        if i > 0 {
            out.push('/');
        }
        push_range(&mut out, stack[i].as_slice(), 0, stack[i].len());
        assert(stack[i as int]@.subrange(0, stack[i as int]@.len() as int) =~= stack[i as int]@);
        let ghost next = vec_views(stack@).take(i + 1);
        assert(next.drop_last() =~= prev);
        assert(next.last() == stack[i as int]@);
        if i == 0 {
            assert(prev =~= Seq::<Seq<char>>::empty());
        }
        i = i + 1;
    }
    assert(vec_views(stack@).take(stack.len() as int) =~= vec_views(stack@));
    string_of(out.as_slice())
}

/// A segment a resolved path may hold: not empty, not `.` or `..`, and
/// without `/`.
pub open spec fn clean_segment(g: Seq<char>) -> bool {
    g.len() > 0 && g != "."@ && g != ".."@ && !g.contains('/')
}

pub proof fn lemma_split_slash_pieces(s: Seq<char>)
    ensures
        forall|i: int| 0 <= i < split_slash(s).len() ==> !(#[trigger] split_slash(s)[i]).contains('/'),
    decreases s.len(),
{
    crate::text::lemma_first_index_of(s, '/');
    match crate::text::first_index_of(s, '/') {
        None => {
            assert(split_slash(s) =~= seq![s]);
        },
        Some(i) => {
            lemma_split_slash_pieces(s.skip(i + 1));
            let rest = split_slash(s.skip(i + 1));
            assert(!s.take(i).contains('/')) by {
                if s.take(i).contains('/') {
                    let k = choose|k: int| 0 <= k < s.take(i).len() && s.take(i)[k] == '/';
                    assert(s[k] == '/');
                }
            }
            assert forall|j: int| 0 <= j < split_slash(s).len() implies !(
            #[trigger] split_slash(s)[j]).contains('/') by {
                if j > 0 {
                    assert(split_slash(s)[j] == rest[j - 1]);
                }
            }
        },
    }
}

pub proof fn lemma_resolve_clean(stack: Seq<Seq<char>>, segs: Seq<Seq<char>>)
    requires
        forall|i: int| 0 <= i < stack.len() ==> clean_segment(#[trigger] stack[i]),
        forall|i: int| 0 <= i < segs.len() ==> !(#[trigger] segs[i]).contains('/'),
    ensures
        forall|i: int|
            0 <= i < resolve_segments(stack, segs).len() ==> clean_segment(
                #[trigger] resolve_segments(stack, segs)[i],
            ),
    decreases segs.len(),
{
    if segs.len() > 0 {
        let g = segs[0];
        assert(!g.contains('/'));
        let next = if g.len() == 0 || g == "."@ {
            stack
        } else if g == ".."@ {
            if stack.len() > 0 {
                stack.drop_last()
            } else {
                stack
            }
        } else {
            stack.push(g)
        };
        assert forall|i: int| 0 <= i < next.len() implies clean_segment(#[trigger] next[i]) by {
            if i < stack.len() {
                assert(next[i] == stack[i]);
            } else {
                assert(next[i] == g);
            }
        }
        assert(resolve_segments(stack, segs) == resolve_segments(next, segs.drop_first()));
        assert forall|i: int| 0 <= i < segs.drop_first().len() implies !(
        #[trigger] segs.drop_first()[i]).contains('/') by {
            assert(segs.drop_first()[i] == segs[i + 1]);
        }
        lemma_resolve_clean(next, segs.drop_first());
    }
}

/// A joined path is its resolved segments joined with `/`, and none of them
/// is empty, `.` or `..`: every `.` and `..` of the href has been resolved.
pub proof fn law_joined_path_is_resolved(dir: Seq<char>, href: Seq<char>)
    ensures
        joined_path(dir, href) == join_slash(resolved_segments(dir, href)),
        forall|i: int|
            0 <= i < resolved_segments(dir, href).len() ==> clean_segment(
                #[trigger] resolved_segments(dir, href)[i],
            ),
{
    lemma_split_slash_pieces(combined_path(dir, href));
    lemma_resolve_clean(seq![], split_slash(combined_path(dir, href)));
}

} // verus!

verus! {

proof fn lemma_split_after_piece(x: Seq<char>, y: Seq<char>)
    requires
        !x.contains('/'),
    ensures
        split_slash(x + seq!['/'] + y) == seq![x] + split_slash(y),
{
    let s = x + seq!['/'] + y;
    crate::text::lemma_first_index_of(s, '/');
    assert(s[x.len() as int] == '/');
    match crate::text::first_index_of(s, '/') {
        Some(i) => {
            if i < x.len() {
                assert(x[i] == s[i]);
                assert(x.contains('/'));
            }
            assert(i == x.len());
            assert(s.take(i) =~= x);
            assert(s.skip(i + 1) =~= y);
        },
        None => {},
    }
}

proof fn lemma_join_front(segs: Seq<Seq<char>>)
    requires
        segs.len() >= 2,
    ensures
        join_slash(segs) == segs[0] + seq!['/'] + join_slash(segs.drop_first()),
    decreases segs.len(),
{
    let dl = segs.drop_last();
    let df = segs.drop_first();
    assert(join_slash(segs) == join_slash(dl) + seq!['/'] + segs.last());
    if segs.len() == 2 {
        assert(dl.len() == 1 && dl[0] == segs[0]);
        assert(join_slash(dl) == segs[0]);
        assert(df.len() == 1 && df[0] == segs[1]);
        assert(join_slash(df) == segs[1]);
        assert(segs.last() == segs[1]);
    } else {
        lemma_join_front(dl);
        assert(dl.drop_first() =~= df.drop_last());
        assert(dl[0] == segs[0]);
        assert(df.last() == segs.last());
        assert(join_slash(df) == join_slash(df.drop_last()) + seq!['/'] + df.last());
        assert(segs[0] + seq!['/'] + join_slash(dl.drop_first()) + seq!['/'] + segs.last() =~= segs[0]
            + seq!['/'] + (join_slash(df.drop_last()) + seq!['/'] + df.last()));
    }
}

proof fn lemma_split_join(segs: Seq<Seq<char>>)
    requires
        segs.len() >= 1,
        forall|i: int| 0 <= i < segs.len() ==> !(#[trigger] segs[i]).contains('/'),
    ensures
        split_slash(join_slash(segs)) == segs,
    decreases segs.len(),
{
    if segs.len() == 1 {
        crate::text::lemma_first_index_of(segs[0], '/');
        match crate::text::first_index_of(segs[0], '/') {
            Some(i) => {
                assert(segs[0].contains('/'));
            },
            None => {},
        }
        assert(split_slash(segs[0]) =~= segs);
    } else {
        lemma_join_front(segs);
        let rest = segs.drop_first();
        assert forall|i: int| 0 <= i < rest.len() implies !(#[trigger] rest[i]).contains('/') by {
            assert(rest[i] == segs[i + 1]);
        }
        lemma_split_join(rest);
        lemma_split_after_piece(segs[0], join_slash(rest));
        assert(seq![segs[0]] + rest =~= segs);
    }
}

proof fn lemma_resolve_clean_keeps(stack: Seq<Seq<char>>, segs: Seq<Seq<char>>)
    requires
        forall|i: int| 0 <= i < segs.len() ==> clean_segment(#[trigger] segs[i]),
    ensures
        resolve_segments(stack, segs) == stack + segs,
    decreases segs.len(),
{
    reveal_strlit(".");
    reveal_strlit("..");
    if segs.len() == 0 {
        assert(stack + segs =~= stack);
    } else {
        let g = segs[0];
        assert(clean_segment(g));
        let rest = segs.drop_first();
        assert forall|i: int| 0 <= i < rest.len() implies clean_segment(#[trigger] rest[i]) by {
            assert(rest[i] == segs[i + 1]);
        }
        lemma_resolve_clean_keeps(stack.push(g), rest);
        assert(stack.push(g) + rest =~= stack + segs);
    }
}

/// Joining a joined path again, with no directory, gives it back; and a
/// path joined onto a directory is the directory, a `/` and the href joined
/// onto no directory.
pub proof fn law_joined_path_is_stable(dir: Seq<char>, href: Seq<char>)
    ensures
        joined_path(seq![], joined_path(dir, href)) == joined_path(dir, href),
        dir.len() > 0 ==> joined_path(dir, href) == joined_path(seq![], dir + seq!['/'] + href),
{
    law_joined_path_is_resolved(dir, href);
    let segs = resolved_segments(dir, href);
    let r = joined_path(dir, href);
    assert(combined_path(seq![], r) == r);
    if segs.len() == 0 {
        assert(r == Seq::<char>::empty());
        crate::text::lemma_first_index_of(r, '/');
        assert(split_slash(r) =~= seq![r]);
        assert(resolve_segments(seq![], seq![r]) == resolve_segments(seq![], seq![r].drop_first()));
        assert(seq![r].drop_first() =~= Seq::<Seq<char>>::empty());
    } else {
        assert forall|i: int| 0 <= i < segs.len() implies !(#[trigger] segs[i]).contains('/') by {
            assert(clean_segment(segs[i]));
        }
        lemma_split_join(segs);
        lemma_resolve_clean_keeps(seq![], segs);
        assert(Seq::<Seq<char>>::empty() + segs =~= segs);
    }
    assert(combined_path(seq![], dir + seq!['/'] + href) == dir + seq!['/'] + href);
}

} // verus!
