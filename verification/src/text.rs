//! Character-level string primitives shared by the pipeline modules.

use vstd::prelude::*;
use vstd::std_specs::iter::IteratorSpec;

verus! {

/// `String::push` appends one character to the end of the string.
pub assume_specification[ String::push ](s: &mut String, ch: char)
    ensures
        final(s)@ == old(s)@.push(ch),
;

/// The characters of `s`, in order.
pub fn chars_of(s: &str) -> (v: Vec<char>)
    ensures
        v@ == s@,
{
    let mut v: Vec<char> = Vec::new();
    for c in iter: s.chars()
        invariant
            iter.seq() == s@,
            v@ == iter.seq().take(iter.index()),
    {
        v.push(c);
    }
    v
}

/// A string holding exactly the characters of `v`.
pub fn string_of(v: &[char]) -> (s: String)
    ensures
        s@ == v@,
{
    let mut s = String::new();
    let mut i: usize = 0;
    while i < v.len()
        invariant
            i <= v.len(),
            s@ == v@.take(i as int),
        decreases v.len() - i,
    {
        s.push(v[i]);
        i = i + 1;
        assert(v@.take(i as int) == v@.take(i - 1).push(v@[i - 1]));
    }
    assert(v@.take(v.len() as int) == v@);
    s
}

} // verus!

verus! {

/// `pat` occurs in `s` starting at index `i`.
pub open spec fn matches_at<A>(s: Seq<A>, i: int, pat: Seq<A>) -> bool {
    0 <= i && i + pat.len() <= s.len() && s.subrange(i, i + pat.len()) == pat
}

/// `pat` occurs somewhere in `s`.
pub open spec fn contains_seq<A>(s: Seq<A>, pat: Seq<A>) -> bool {
    exists|i: int| matches_at(s, i, pat)
}

/// The first index at or after `i` where `pat` occurs in `s`.
pub open spec fn find_from<A>(s: Seq<A>, pat: Seq<A>, i: int) -> Option<int>
    decreases s.len() + 1 - i,
{
    if i < 0 || i + pat.len() > s.len() {
        None
    } else if matches_at(s, i, pat) {
        Some(i)
    } else {
        find_from(s, pat, i + 1)
    }
}

/// Every non-overlapping occurrence of `pat` in `s`, scanned left to right,
/// replaced by `with`.
pub open spec fn replace_all<A>(s: Seq<A>, pat: Seq<A>, with: Seq<A>) -> Seq<A>
    decreases s.len(),
{
    if pat.len() == 0 || s.len() == 0 {
        s
    } else if pat.len() <= s.len() && s.take(pat.len() as int) == pat {
        with + replace_all(s.skip(pat.len() as int), pat, with)
    } else {
        seq![s[0]] + replace_all(s.drop_first(), pat, with)
    }
}

pub proof fn lemma_find_from<A>(s: Seq<A>, pat: Seq<A>, i: int)
    requires
        0 <= i,
    ensures
        find_from(s, pat, i) matches Some(k) ==> i <= k && matches_at(s, k, pat) && forall|j: int|
            i <= j < k ==> !matches_at(s, j, pat),
        find_from(s, pat, i) is None ==> forall|j: int| i <= j ==> !matches_at(s, j, pat),
    decreases s.len() + 1 - i,
{
    if i + pat.len() > s.len() {
    } else if matches_at(s, i, pat) {
    } else {
        lemma_find_from(s, pat, i + 1);
    }
}

/// Whether `pat` occurs in `s` at index `i`.
pub fn matches_at_exec(s: &[char], i: usize, pat: &[char]) -> (b: bool)
    ensures
        b == matches_at(s@, i as int, pat@),
{
    if i > s.len() || pat.len() > s.len() - i {
        return false;
    }
    let mut k: usize = 0;
    while k < pat.len()
        invariant
            k <= pat.len(),
            i + pat.len() <= s.len(),
            forall|j: int| 0 <= j < k ==> s@[i + j] == pat@[j],
        decreases pat.len() - k,
    {
        if s[i + k] != pat[k] {
            assert(s@.subrange(i as int, i + pat.len())[k as int] != pat@[k as int]);
            return false;
        }
        k = k + 1;
    }
    assert(s@.subrange(i as int, i + pat.len()) =~= pat@);
    true
}

/// The first index at or after `from` where `pat` occurs in `s`.
pub fn find_chars(s: &[char], from: usize, pat: &[char]) -> (r: Option<usize>)
    ensures
        r matches Some(k) ==> find_from(s@, pat@, from as int) == Some(k as int),
        r is None ==> find_from(s@, pat@, from as int) is None,
{
    if pat.len() == 0 {
        if from <= s.len() {
            assert(s@.subrange(from as int, from as int) =~= pat@);
            return Some(from);
        }
        return None;
    }
    let mut i: usize = from;
    while i <= s.len() && pat.len() <= s.len() - i
        invariant
            from <= i,
            pat.len() > 0,
            find_from(s@, pat@, from as int) == find_from(s@, pat@, i as int),
        decreases s.len() + 1 - i,
    {
        if matches_at_exec(s, i, pat) {
            return Some(i);
        }
        i = i + 1;
    }
    None
}

/// Whether `pat` occurs anywhere in `s`.
pub fn contains_chars(s: &[char], pat: &[char]) -> (b: bool)
    ensures
        b == contains_seq(s@, pat@),
{
    proof {
        lemma_find_from(s@, pat@, 0);
    }
    match find_chars(s, 0, pat) {
        Some(k) => {
            assert(matches_at(s@, k as int, pat@));
            true
        },
        None => false,
    }
}

pub proof fn lemma_matches_at_skip<A>(s: Seq<A>, i: int, pat: Seq<A>)
    requires
        0 <= i <= s.len(),
    ensures
        matches_at(s, i, pat) <==> (pat.len() <= s.skip(i).len() && s.skip(i).take(pat.len() as int) == pat),
{
    if matches_at(s, i, pat) {
        assert(s.skip(i).take(pat.len() as int) =~= s.subrange(i, i + pat.len()));
    }
    if pat.len() <= s.skip(i).len() && s.skip(i).take(pat.len() as int) == pat {
        assert(s.skip(i).take(pat.len() as int) =~= s.subrange(i, i + pat.len()));
    }
}

/// `s` with every non-overlapping occurrence of `pat` replaced by `with`.
pub fn replace_chars(s: &[char], pat: &[char], with: &[char]) -> (r: Vec<char>)
    ensures
        r@ == replace_all(s@, pat@, with@),
{
    let mut out: Vec<char> = Vec::new();
    if pat.len() == 0 {
        let mut j: usize = 0;
        while j < s.len()
            invariant
                j <= s.len(),
                out@ == s@.take(j as int),
            decreases s.len() - j,
        {
            out.push(s[j]);
            j = j + 1;
            assert(s@.take(j as int) =~= s@.take(j - 1).push(s@[j - 1]));
        }
        assert(s@.take(s.len() as int) =~= s@);
        return out;
    }
    let mut i: usize = 0;
    assert(s@.skip(0) =~= s@);
    while i < s.len()
        invariant
            i <= s.len(),
            pat.len() > 0,
            out@ + replace_all(s@.skip(i as int), pat@, with@) == replace_all(s@, pat@, with@),
        decreases s.len() - i,
    {
        let ghost rest = s@.skip(i as int);
        proof {
            lemma_matches_at_skip(s@, i as int, pat@);
        }
        if matches_at_exec(s, i, pat) {
            let mut k: usize = 0;
            let ghost out0 = out@;
            while k < with.len()
                invariant
                    k <= with.len(),
                    out@ == out0 + with@.take(k as int),
                decreases with.len() - k,
            {
                out.push(with[k]);
                k = k + 1;
                assert(with@.take(k as int) =~= with@.take(k - 1).push(with@[k - 1]));
            }
            assert(with@.take(with.len() as int) =~= with@);
            assert(rest.skip(pat.len() as int) =~= s@.skip(i + pat.len()));
            assert(out0 + replace_all(rest, pat@, with@) == out0 + (with@ + replace_all(rest.skip(pat.len() as int), pat@, with@)));
            assert(out@ + replace_all(s@.skip(i + pat.len()), pat@, with@) =~= out0 + (with@ + replace_all(rest.skip(pat.len() as int), pat@, with@)));
            i = i + pat.len();
        } else {
            let ghost out0 = out@;
            out.push(s[i]);
            assert(rest.drop_first() =~= s@.skip(i + 1));
            assert(rest[0] == s@[i as int]);
            assert(out@ + replace_all(s@.skip(i + 1), pat@, with@) =~= out0 + (seq![rest[0]] + replace_all(rest.drop_first(), pat@, with@)));
            i = i + 1;
        }
    }
    assert(s@.skip(i as int) =~= Seq::<char>::empty());
    assert(out@ + Seq::<char>::empty() =~= out@);
    out
}

/// No occurrence of `pat` in `s` starts before `m` and ends after it.
pub open spec fn no_match_across(s: Seq<char>, pat: Seq<char>, m: int) -> bool {
    forall|k: int| k < m < k + pat.len() ==> !#[trigger] matches_at(s, k, pat)
}

/// Replacing in `s` is replacing in its two halves at `m` when no
/// occurrence of `pat` spans `m`.
pub proof fn lemma_replace_all_split(s: Seq<char>, pat: Seq<char>, w: Seq<char>, m: int)
    requires
        pat.len() > 0,
        0 <= m <= s.len(),
        no_match_across(s, pat, m),
    ensures
        replace_all(s, pat, w) == replace_all(s.take(m), pat, w) + replace_all(s.skip(m), pat, w),
    decreases s.len(),
{
    let p = pat.len() as int;
    if m == 0 {
        assert(s.take(0) =~= Seq::<char>::empty());
        assert(s.skip(0) =~= s);
        assert(replace_all(s.take(0), pat, w) == Seq::<char>::empty());
        assert(Seq::<char>::empty() + replace_all(s, pat, w) =~= replace_all(s, pat, w));
    } else if p <= s.len() && s.take(p) == pat {
        assert(matches_at(s, 0, pat)) by {
            assert(s.subrange(0, p) =~= s.take(p));
        }
        assert(m >= p);
        let t = s.skip(p);
        assert forall|k: int| k < m - p < k + pat.len() implies !#[trigger] matches_at(t, k, pat) by {
            if matches_at(t, k, pat) {
                assert(t.subrange(k, k + p) =~= s.subrange(k + p, k + p + p));
                assert(matches_at(s, k + p, pat));
            }
        }
        lemma_replace_all_split(t, pat, w, m - p);
        assert(s.take(m).take(p) =~= s.take(p));
        assert(s.take(m).skip(p) =~= t.take(m - p));
        assert(s.skip(m) =~= t.skip(m - p));
        assert(w + (replace_all(t.take(m - p), pat, w) + replace_all(t.skip(m - p), pat, w)) =~= (w
            + replace_all(t.take(m - p), pat, w)) + replace_all(t.skip(m - p), pat, w));
    } else {
        let t = s.drop_first();
        assert forall|k: int| k < m - 1 < k + pat.len() implies !#[trigger] matches_at(t, k, pat) by {
            if matches_at(t, k, pat) {
                assert(t.subrange(k, k + p) =~= s.subrange(k + 1, k + 1 + p));
                assert(matches_at(s, k + 1, pat));
            }
        }
        lemma_replace_all_split(t, pat, w, m - 1);
        let pre = s.take(m);
        assert(pre.len() > 0);
        assert(!(p <= pre.len() && pre.take(p) == pat)) by {
            if p <= pre.len() && pre.take(p) == pat {
                assert(pre.take(p) =~= s.take(p));
            }
        }
        assert(pre.drop_first() =~= t.take(m - 1));
        assert(pre[0] == s[0]);
        assert(s.skip(m) =~= t.skip(m - 1));
        assert(seq![s[0]] + (replace_all(t.take(m - 1), pat, w) + replace_all(t.skip(m - 1), pat, w))
            =~= (seq![s[0]] + replace_all(t.take(m - 1), pat, w)) + replace_all(t.skip(m - 1), pat, w));
    }
}

/// Replacing leaves `s` as it is when `pat` does not occur in it.
pub proof fn lemma_replace_all_absent(s: Seq<char>, pat: Seq<char>, w: Seq<char>)
    requires
        pat.len() > 0,
        forall|k: int| !#[trigger] matches_at(s, k, pat),
    ensures
        replace_all(s, pat, w) == s,
    decreases s.len(),
{
    let p = pat.len() as int;
    if s.len() > 0 {
        if p <= s.len() && s.take(p) == pat {
            assert(s.subrange(0, p) =~= s.take(p));
            assert(matches_at(s, 0, pat));
        }
        let t = s.drop_first();
        assert forall|k: int| !#[trigger] matches_at(t, k, pat) by {
            if matches_at(t, k, pat) {
                assert(t.subrange(k, k + p) =~= s.subrange(k + 1, k + 1 + p));
                assert(matches_at(s, k + 1, pat));
            }
        }
        lemma_replace_all_absent(t, pat, w);
        assert(seq![s[0]] + t =~= s);
    }
}

/// `pat` starts with `.` and has no other `.`.
pub open spec fn dot_led(pat: Seq<char>) -> bool {
    pat.len() > 0 && pat[0] == '.' && forall|i: int| 1 <= i < pat.len() ==> pat[i] != '.'
}

/// An occurrence of a dot-led pattern cannot span a `.`.
pub proof fn lemma_no_match_across_dot(s: Seq<char>, pat: Seq<char>, m: int)
    requires
        dot_led(pat),
        0 <= m < s.len(),
        s[m] == '.',
    ensures
        no_match_across(s, pat, m),
{
    assert forall|k: int| k < m < k + pat.len() implies !#[trigger] matches_at(s, k, pat) by {
        if matches_at(s, k, pat) {
            assert(s.subrange(k, k + pat.len())[m - k] == s[m]);
        }
    }
}

/// Replacing a dot-led pattern keeps a dot-led suffix `t` of `s` in which
/// the pattern does not occur.
pub proof fn lemma_replace_all_keeps_suffix(s: Seq<char>, pat: Seq<char>, w: Seq<char>, t: Seq<char>)
    requires
        dot_led(pat),
        t.len() > 0,
        t[0] == '.',
        t.len() <= s.len(),
        s.skip(s.len() - t.len()) == t,
        forall|k: int| !#[trigger] matches_at(t, k, pat),
    ensures
        replace_all(s, pat, w) == replace_all(s.take(s.len() - t.len()), pat, w) + t,
{
    let m = s.len() - t.len();
    assert(s[m] == t[0]);
    lemma_no_match_across_dot(s, pat, m);
    lemma_replace_all_split(s, pat, w, m);
    lemma_replace_all_absent(t, pat, w);
}

/// Replacing a dot-led pattern that ends `s` leaves the replacement at the
/// end.
pub proof fn lemma_replace_all_replaces_suffix(s: Seq<char>, pat: Seq<char>, w: Seq<char>)
    requires
        dot_led(pat),
        pat.len() <= s.len(),
        s.skip(s.len() - pat.len()) == pat,
    ensures
        replace_all(s, pat, w) == replace_all(s.take(s.len() - pat.len()), pat, w) + w,
{
    let m = s.len() - pat.len();
    assert(s[m] == pat[0]);
    lemma_no_match_across_dot(s, pat, m);
    lemma_replace_all_split(s, pat, w, m);
    let t = s.skip(m);
    assert(t.take(pat.len() as int) =~= pat);
    assert(t.skip(pat.len() as int) =~= Seq::<char>::empty());
    assert(replace_all(t.skip(pat.len() as int), pat, w) == Seq::<char>::empty());
    assert(w + Seq::<char>::empty() =~= w);
}

/// `s` with every non-overlapping occurrence of `pat` replaced by `with`.
pub fn replace_str(s: &str, pat: &str, with: &str) -> (r: String)
    ensures
        r@ == replace_all(s@, pat@, with@),
{
    let sv = chars_of(s);
    let pv = chars_of(pat);
    let wv = chars_of(with);
    let rv = replace_chars(sv.as_slice(), pv.as_slice(), wv.as_slice());
    string_of(rv.as_slice())
}

} // verus!

verus! {

/// Appends `src[from..to]` to `out`.
pub fn push_range(out: &mut Vec<char>, src: &[char], from: usize, to: usize)
    requires
        from <= to <= src.len(),
    ensures
        final(out)@ == old(out)@ + src@.subrange(from as int, to as int),
{
    let mut k: usize = from;
    while k < to
        invariant
            from <= k <= to <= src.len(),
            out@ == old(out)@ + src@.subrange(from as int, k as int),
        decreases to - k,
    {
        out.push(src[k]);
        k = k + 1;
        assert(src@.subrange(from as int, k as int) =~= src@.subrange(from as int, k - 1).push(
            src@[k - 1],
        ));
    }
}

/// Searching a suffix of `s` is searching `s` from a later index.
pub proof fn lemma_find_from_skip<A>(s: Seq<A>, pat: Seq<A>, pos: int, k: int)
    requires
        0 <= pos <= s.len(),
        0 <= k,
    ensures
        find_from(s.skip(pos), pat, k) == (match find_from(s, pat, pos + k) {
            Some(x) => Some(x - pos),
            None => None,
        }),
    decreases s.len() + 1 - (pos + k),
{
    let t = s.skip(pos);
    if k + pat.len() > t.len() {
    } else {
        assert(t.subrange(k, k + pat.len()) =~= s.subrange(pos + k, pos + k + pat.len()));
        if matches_at(t, k, pat) {
        } else {
            lemma_find_from_skip(s, pat, pos, k + 1);
        }
    }
}

} // verus!

verus! {

/// The lowercase form of `s` that `str::to_lowercase` produces.
pub uninterp spec fn lowercased(s: Seq<char>) -> Seq<char>;

/// Calls `str::to_lowercase` (full Unicode lowercase mapping, including its
/// context-sensitive rules); its output is named, not stated.
#[verifier::external_body]
pub fn to_lowercase(s: &str) -> (r: String)
    ensures
        r@ == lowercased(s@),
{
    s.to_lowercase()
}

/// The Unicode `White_Space` property, which `char::is_whitespace` and
/// `str::trim` use.
pub open spec fn is_white_space(c: char) -> bool {
    ||| ('\u{9}' <= c && c <= '\u{d}')
    ||| c == ' '
    ||| c == '\u{85}'
    ||| c == '\u{a0}'
    ||| c == '\u{1680}'
    ||| ('\u{2000}' <= c && c <= '\u{200a}')
    ||| c == '\u{2028}'
    ||| c == '\u{2029}'
    ||| c == '\u{202f}'
    ||| c == '\u{205f}'
    ||| c == '\u{3000}'
}

pub fn is_white_space_exec(c: char) -> (b: bool)
    ensures
        b == is_white_space(c),
{
    ('\u{9}' <= c && c <= '\u{d}') || c == ' ' || c == '\u{85}' || c == '\u{a0}' || c == '\u{1680}'
        || ('\u{2000}' <= c && c <= '\u{200a}') || c == '\u{2028}' || c == '\u{2029}' || c
        == '\u{202f}' || c == '\u{205f}' || c == '\u{3000}'
}

/// The number of leading white-space characters of `s`.
pub open spec fn leading_ws(s: Seq<char>) -> int
    decreases s.len(),
{
    if s.len() > 0 && is_white_space(s[0]) {
        1 + leading_ws(s.drop_first())
    } else {
        0
    }
}

/// The number of trailing white-space characters of `s`.
pub open spec fn trailing_ws(s: Seq<char>) -> int
    decreases s.len(),
{
    if s.len() > 0 && is_white_space(s.last()) {
        1 + trailing_ws(s.drop_last())
    } else {
        0
    }
}

/// `s` without leading and trailing white space, as `str::trim` gives it.
pub open spec fn trimmed(s: Seq<char>) -> Seq<char> {
    let a = leading_ws(s);
    if a >= s.len() {
        seq![]
    } else {
        s.subrange(a, s.len() - trailing_ws(s))
    }
}

pub proof fn lemma_leading_ws(s: Seq<char>, k: int)
    requires
        0 <= k <= s.len(),
        forall|j: int| 0 <= j < k ==> is_white_space(s[j]),
    ensures
        leading_ws(s) == k + leading_ws(s.skip(k)),
    decreases k,
{
    if k > 0 {
        assert(s.skip(1) =~= s.drop_first());
        lemma_leading_ws(s.drop_first(), k - 1);
        assert(s.drop_first().skip(k - 1) =~= s.skip(k));
    } else {
        assert(s.skip(0) =~= s);
    }
}

pub proof fn lemma_trailing_ws(s: Seq<char>, k: int)
    requires
        0 <= k <= s.len(),
        forall|j: int| s.len() - k <= j < s.len() ==> is_white_space(s[j]),
    ensures
        trailing_ws(s) == k + trailing_ws(s.take(s.len() - k)),
    decreases k,
{
    if k > 0 {
        assert(s.take(s.len() - 1) =~= s.drop_last());
        lemma_trailing_ws(s.drop_last(), k - 1);
        assert(s.drop_last().take(s.drop_last().len() - (k - 1)) =~= s.take(s.len() - k));
    } else {
        assert(s.take(s.len() as int) =~= s);
    }
}

/// `s` without leading and trailing white space.
pub fn trim(s: &str) -> (r: String)
    ensures
        r@ == trimmed(s@),
{
    let v = chars_of(s);
    let mut a: usize = 0;
    while a < v.len() && is_white_space_exec(v[a])
        invariant
            a <= v.len(),
            forall|j: int| 0 <= j < a ==> is_white_space(v@[j]),
        decreases v.len() - a,
    {
        a = a + 1;
    }
    proof {
        lemma_leading_ws(v@, a as int);
    }
    if a >= v.len() {
        return String::new();
    }
    assert(!is_white_space(v@.skip(a as int)[0]));
    let mut z: usize = v.len();
    while z > a && is_white_space_exec(v[z - 1])
        invariant
            a <= z <= v.len(),
            forall|j: int| z <= j < v.len() ==> is_white_space(v@[j]),
        decreases z,
    {
        z = z - 1;
    }
    proof {
        lemma_trailing_ws(v@, v.len() - z);
        assert(v@.take(z as int).last() == v@[z - 1]);
    }
    let mut out: Vec<char> = Vec::new();
    push_range(&mut out, v.as_slice(), a, z);
    string_of(out.as_slice())
}

} // verus!

verus! {

/// The text `String::from_utf8_lossy` makes of `b`.
pub uninterp spec fn lossy_decoded(b: Seq<u8>) -> Seq<char>;

/// Calls `String::from_utf8_lossy`, which replaces each invalid UTF-8
/// sequence with U+FFFD. Stated: valid UTF-8 decodes to its characters; the
/// replacement rule for invalid input is named, not stated.
#[verifier::external_body]
pub fn utf8_lossy(b: &[u8]) -> (r: String)
    ensures
        r@ == lossy_decoded(b@),
        vstd::utf8::valid_utf8(b@) ==> r@ == vstd::utf8::decode_utf8(b@),
{
    String::from_utf8_lossy(b).into_owned()
}

/// The index of the last `c` in `s`.
pub open spec fn last_index_of(s: Seq<char>, c: char) -> Option<int>
    decreases s.len(),
{
    if s.len() == 0 {
        None
    } else if s.last() == c {
        Some(s.len() - 1)
    } else {
        last_index_of(s.drop_last(), c)
    }
}

/// The index of the first `c` in `s`.
pub open spec fn first_index_of(s: Seq<char>, c: char) -> Option<int>
    decreases s.len(),
{
    if s.len() == 0 {
        None
    } else if s[0] == c {
        Some(0)
    } else {
        match first_index_of(s.drop_first(), c) {
            Some(i) => Some(i + 1),
            None => None,
        }
    }
}

/// The part of `s` after its last `c` (all of `s` when there is none), as
/// `s.rsplit(c).next()` gives it.
pub open spec fn after_last(s: Seq<char>, c: char) -> Seq<char> {
    match last_index_of(s, c) {
        Some(i) => s.skip(i + 1),
        None => s,
    }
}

/// The part of `s` before its first `c` (all of `s` when there is none), as
/// `s.split(c).next()` gives it.
pub open spec fn before_first(s: Seq<char>, c: char) -> Seq<char> {
    match first_index_of(s, c) {
        Some(i) => s.take(i),
        None => s,
    }
}

pub proof fn lemma_last_index_of(s: Seq<char>, c: char)
    ensures
        last_index_of(s, c) matches Some(i) ==> 0 <= i < s.len() && s[i] == c && forall|j: int|
            i < j < s.len() ==> s[j] != c,
        last_index_of(s, c) is None ==> forall|j: int| 0 <= j < s.len() ==> s[j] != c,
    decreases s.len(),
{
    if s.len() > 0 && s.last() != c {
        let t = s.drop_last();
        lemma_last_index_of(t, c);
        assert forall|j: int| 0 <= j < t.len() implies s[j] == t[j] by {}
        if let Some(i) = last_index_of(t, c) {
            assert forall|j: int| i < j < s.len() implies s[j] != c by {
                if j < t.len() {
                    assert(s[j] == t[j]);
                }
            }
        } else {
            assert forall|j: int| 0 <= j < s.len() implies s[j] != c by {
                if j < t.len() {
                    assert(s[j] == t[j]);
                }
            }
        }
    }
}

pub proof fn lemma_first_index_of(s: Seq<char>, c: char)
    ensures
        first_index_of(s, c) matches Some(i) ==> 0 <= i < s.len() && s[i] == c && forall|j: int|
            0 <= j < i ==> s[j] != c,
        first_index_of(s, c) is None ==> forall|j: int| 0 <= j < s.len() ==> s[j] != c,
    decreases s.len(),
{
    if s.len() > 0 && s[0] != c {
        let t = s.drop_first();
        lemma_first_index_of(t, c);
        assert forall|j: int| 1 <= j < s.len() implies s[j] == t[j - 1] by {}
        if let Some(i) = first_index_of(t, c) {
            assert(s[i + 1] == t[i]);
            assert forall|j: int| 0 <= j < i + 1 implies s[j] != c by {
                if j >= 1 {
                    assert(s[j] == t[j - 1]);
                }
            }
        } else {
            assert forall|j: int| 0 <= j < s.len() implies s[j] != c by {
                if j >= 1 {
                    assert(s[j] == t[j - 1]);
                }
            }
        }
    }
}

/// The index of the last `c` in `v`.
pub fn last_index_exec(v: &[char], c: char) -> (r: Option<usize>)
    ensures
        r matches Some(i) ==> last_index_of(v@, c) == Some(i as int),
        r is None ==> last_index_of(v@, c) is None,
{
    proof {
        lemma_last_index_of(v@, c);
    }
    let mut i: usize = v.len();
    while i > 0
        invariant
            i <= v.len(),
            forall|j: int| i <= j < v.len() ==> v@[j] != c,
        decreases i,
    {
        if v[i - 1] == c {
            proof {
                lemma_last_index_of(v@, c);
                if last_index_of(v@, c) is None {
                    assert(v@[i - 1] != c);
                }
            }
            return Some(i - 1);
        }
        i = i - 1;
    }
    None
}

/// The index of the first `c` in `v`.
pub fn first_index_exec(v: &[char], c: char) -> (r: Option<usize>)
    ensures
        r matches Some(i) ==> first_index_of(v@, c) == Some(i as int),
        r is None ==> first_index_of(v@, c) is None,
{
    proof {
        lemma_first_index_of(v@, c);
    }
    let mut i: usize = 0;
    while i < v.len()
        invariant
            i <= v.len(),
            forall|j: int| 0 <= j < i ==> v@[j] != c,
        decreases v.len() - i,
    {
        if v[i] == c {
            proof {
                lemma_first_index_of(v@, c);
            }
            return Some(i);
        }
        i = i + 1;
    }
    proof {
        lemma_first_index_of(v@, c);
    }
    None
}

/// The part of `s` after its last `c`.
pub fn after_last_exec(s: &str, c: char) -> (r: String)
    ensures
        r@ == after_last(s@, c),
{
    let v = chars_of(s);
    let mut out: Vec<char> = Vec::new();
    proof {
        lemma_last_index_of(v@, c);
    }
    match last_index_exec(v.as_slice(), c) {
        Some(i) => {
            assert(last_index_of(v@, c) == Some(i as int));
            assert(i < v.len());
            push_range(&mut out, v.as_slice(), i + 1, v.len());
            assert(v@.subrange(i + 1, v.len() as int) =~= v@.skip(i + 1));
        },
        None => {
            push_range(&mut out, v.as_slice(), 0, v.len());
            assert(v@.subrange(0, v.len() as int) =~= v@);
        },
    }
    assert(out@ =~= after_last(s@, c));
    string_of(out.as_slice())
}

/// The part of `s` before its first `c`.
pub fn before_first_exec(s: &str, c: char) -> (r: String)
    ensures
        r@ == before_first(s@, c),
{
    let v = chars_of(s);
    let mut out: Vec<char> = Vec::new();
    proof {
        lemma_first_index_of(v@, c);
    }
    match first_index_exec(v.as_slice(), c) {
        Some(i) => {
            push_range(&mut out, v.as_slice(), 0, i);
            assert(v@.subrange(0, i as int) =~= v@.take(i as int));
        },
        None => {
            push_range(&mut out, v.as_slice(), 0, v.len());
            assert(v@.subrange(0, v.len() as int) =~= v@);
        },
    }
    assert(out@ =~= before_first(s@, c));
    string_of(out.as_slice())
}

/// Whether two strings hold the same characters.
pub fn str_eq(a: &str, b: &str) -> (r: bool)
    ensures
        r == (a@ == b@),
{
    let v = chars_of(a);
    let w = chars_of(b);
    if v.len() != w.len() {
        return false;
    }
    let mut i: usize = 0;
    while i < v.len()
        invariant
            i <= v.len() == w.len(),
            v@ == a@,
            w@ == b@,
            forall|j: int| 0 <= j < i ==> v@[j] == w@[j],
        decreases v.len() - i,
    {
        if v[i] != w[i] {
            assert(v@[i as int] != w@[i as int]);
            return false;
        }
        i = i + 1;
    }
    assert(v@ =~= w@);
    true
}

} // verus!

verus! {

/// Whether the bytes `pat` occur in `s` at index `i`.
pub fn bytes_match_at(s: &[u8], i: usize, pat: &[u8]) -> (b: bool)
    ensures
        b == matches_at(s@, i as int, pat@),
{
    if i > s.len() || pat.len() > s.len() - i {
        return false;
    }
    let mut k: usize = 0;
    while k < pat.len()
        invariant
            k <= pat.len(),
            i + pat.len() <= s.len(),
            forall|j: int| 0 <= j < k ==> s@[i + j] == pat@[j],
        decreases pat.len() - k,
    {
        if s[i + k] != pat[k] {
            assert(s@.subrange(i as int, i + pat.len())[k as int] != pat@[k as int]);
            return false;
        }
        k = k + 1;
    }
    assert(s@.subrange(i as int, i + pat.len()) =~= pat@);
    true
}

/// The first index at or after `from` where the bytes `pat` occur in `s`.
pub fn find_bytes(s: &[u8], from: usize, pat: &[u8]) -> (r: Option<usize>)
    ensures
        r matches Some(k) ==> find_from(s@, pat@, from as int) == Some(k as int),
        r is None ==> find_from(s@, pat@, from as int) is None,
{
    if pat.len() == 0 {
        if from <= s.len() {
            assert(s@.subrange(from as int, from as int) =~= pat@);
            return Some(from);
        }
        return None;
    }
    let mut i: usize = from;
    while i <= s.len() && pat.len() <= s.len() - i
        invariant
            from <= i,
            pat.len() > 0,
            find_from(s@, pat@, from as int) == find_from(s@, pat@, i as int),
        decreases s.len() + 1 - i,
    {
        if bytes_match_at(s, i, pat) {
            return Some(i);
        }
        i = i + 1;
    }
    None
}

} // verus!

verus! {

/// The character of decimal digit `d`.
pub open spec fn digit_char(d: int) -> char {
    (48 + d) as char
}

/// The decimal digits of `n`, as `n.to_string()` writes them.
pub open spec fn decimal(n: nat) -> Seq<char>
    decreases n,
{
    if n < 10 {
        seq![digit_char(n as int)]
    } else {
        decimal(n / 10) + seq![digit_char((n % 10) as int)]
    }
}

fn decimal_chars(n: u64) -> (v: Vec<char>)
    ensures
        v@ == decimal(n as nat),
    decreases n,
{
    let d = n % 10;
    let c = char_from_digit(d);
    if n < 10 {
        let mut v: Vec<char> = Vec::new();
        v.push(c);
        assert(v@ =~= seq![digit_char(n as int)]);
        v
    } else {
        let mut v = decimal_chars(n / 10);
        v.push(c);
        v
    }
}

fn char_from_digit(d: u64) -> (c: char)
    requires
        d < 10,
    ensures
        c == digit_char(d as int),
{
    if d == 0 {
        '0'
    } else if d == 1 {
        '1'
    } else if d == 2 {
        '2'
    } else if d == 3 {
        '3'
    } else if d == 4 {
        '4'
    } else if d == 5 {
        '5'
    } else if d == 6 {
        '6'
    } else if d == 7 {
        '7'
    } else if d == 8 {
        '8'
    } else {
        '9'
    }
}

/// `n` written in decimal.
pub fn decimal_string(n: u64) -> (s: String)
    ensures
        s@ == decimal(n as nat),
{
    string_of(decimal_chars(n).as_slice())
}

} // verus!
