//! Best-effort chapter titles from a document's `<title>` element.

use vstd::prelude::*;

use crate::text::{chars_of, push_range, string_of, trim, trimmed};

verus! {

/// `c` equals the lowercase ASCII pattern character `p`, ignoring ASCII case.
pub open spec fn ci_eq(c: char, p: char) -> bool {
    c == p || ('a' <= p <= 'z' && c as u32 == p as u32 - 32)
}

/// `pat` (lowercase ASCII) occurs in `s` at index `i`, ignoring ASCII case.
pub open spec fn ci_matches_at(s: Seq<char>, i: int, pat: Seq<char>) -> bool {
    0 <= i && i + pat.len() <= s.len() && forall|k: int| 0 <= k < pat.len() ==> ci_eq(#[trigger] s[i + k], pat[k])
}

/// The first index at or after `i` where `pat` occurs in `s`, ignoring
/// ASCII case.
pub open spec fn ci_find_from(s: Seq<char>, pat: Seq<char>, i: int) -> Option<int>
    decreases s.len() + 1 - i,
{
    if i < 0 || i + pat.len() > s.len() {
        None
    } else if ci_matches_at(s, i, pat) {
        Some(i)
    } else {
        ci_find_from(s, pat, i + 1)
    }
}

/// The span of characters between the first `<title>` and the next
/// `</title>` after it, both found ignoring ASCII case.
pub open spec fn title_span(content: Seq<char>) -> Option<(int, int)> {
    match ci_find_from(content, "<title>"@, 0) {
        None => None,
        Some(i) => match ci_find_from(content, "</title>"@, i + 7) {
            None => None,
            Some(e) => Some((i + 7, e)),
        },
    }
}

/// The trimmed text of the document between its `<title>` tags (found
/// ignoring ASCII case), unless absent or empty.
pub open spec fn title_of(content: Seq<char>) -> Option<Seq<char>> {
    match title_span(content) {
        None => None,
        Some((s, e)) => {
            let t = trimmed(content.subrange(s, e));
            if t.len() == 0 {
                None
            } else {
                Some(t)
            }
        },
    }
}

fn ci_matches_exec(s: &[char], i: usize, pat: &[char]) -> (b: bool)
    ensures
        b == ci_matches_at(s@, i as int, pat@),
{
    if i > s.len() || pat.len() > s.len() - i {
        return false;
    }
    let mut k: usize = 0;
    while k < pat.len()
        invariant
            k <= pat.len(),
            i + pat.len() <= s.len(),
            forall|j: int| 0 <= j < k ==> ci_eq(#[trigger] s@[i + j], pat@[j]),
        decreases pat.len() - k,
    {
        let c = s[i + k];
        let p = pat[k];
        let same = c == p || ('a' <= p && p <= 'z' && (c as u32) == (p as u32) - 32);
        if !same {
            assert(!ci_eq(s@[i + k], pat@[k as int]));
            return false;
        }
        k = k + 1;
    }
    true
}

fn ci_find_chars(s: &[char], from: usize, pat: &[char]) -> (r: Option<usize>)
    requires
        pat.len() > 0,
    ensures
        r matches Some(k) ==> ci_find_from(s@, pat@, from as int) == Some(k as int),
        r is None ==> ci_find_from(s@, pat@, from as int) is None,
{
    let mut i: usize = from;
    while i <= s.len() && pat.len() <= s.len() - i
        invariant
            from <= i,
            pat.len() > 0,
            ci_find_from(s@, pat@, from as int) == ci_find_from(s@, pat@, i as int),
        decreases s.len() + 1 - i,
    {
        if ci_matches_exec(s, i, pat) {
            return Some(i);
        }
        i = i + 1;
    }
    None
}

/// Best-effort chapter title from the document's `<title>` element.
pub fn extract_title(content: &str) -> (r: Option<String>)
    ensures
        crate::xml::opt_view(r) == title_of(content@),
{
    let v = chars_of(content);
    let open = chars_of("<title>");
    let close = chars_of("</title>");
    proof {
        reveal_strlit("<title>");
        reveal_strlit("</title>");
    }
    match ci_find_chars(v.as_slice(), 0, open.as_slice()) {
        None => None,
        Some(i) => {
            proof {
                lemma_ci_find_from(v@, open@, 0);
            }
            let start = i + 7;
            match ci_find_chars(v.as_slice(), start, close.as_slice()) {
                None => None,
                Some(e) => {
                    proof {
                        lemma_ci_find_from(v@, close@, start as int);
                    }
                    let mut mid: Vec<char> = Vec::new();
                    push_range(&mut mid, v.as_slice(), start, e);
                    let ms = string_of(mid.as_slice());
                    let t = trim(ms.as_str());
                    if chars_of(t.as_str()).len() == 0 {
                        None
                    } else {
                        Some(t)
                    }
                },
            }
        },
    }
}

pub proof fn lemma_ci_find_from(s: Seq<char>, pat: Seq<char>, i: int)
    requires
        0 <= i,
    ensures
        ci_find_from(s, pat, i) matches Some(k) ==> i <= k && ci_matches_at(s, k, pat),
    decreases s.len() + 1 - i,
{
    if i + pat.len() > s.len() {
    } else if ci_matches_at(s, i, pat) {
    } else {
        lemma_ci_find_from(s, pat, i + 1);
    }
}

} // verus!
