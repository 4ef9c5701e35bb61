//! The upload-URL grammar.
//!
//! Candidate media addresses all share one shape: a scheme, a host, an
//! optional `/blog` prefix, the fixed uploads path, a four-digit year, a
//! two-digit month, and a final `name.ext` segment.  This module defines
//! that shape over `Seq<char>` — anchored for whole source URLs, and as a
//! scan with greedy ends for free text — together with the extension
//! rewrite and the link shape that the slug synthesis strategy parses.
//! The matchers are deterministic functions, so each executable matcher
//! returns exactly what its spec names.

use vstd::prelude::*;
use vstd::string::StrSliceExecFns;
use vstd::string::StringExecFns;

use crate::text::check_digits_in;
use crate::text::check_match_at;
use crate::text::check_word_chars_in;
use crate::text::chars_of;
use crate::text::digits_in;
use crate::text::find_ch;
use crate::text::first_ch;
use crate::text::free_of;
use crate::text::last_ch_before;
use crate::text::lemma_first_ch;
use crate::text::matches_at;
use crate::text::rfind_ch_before;
use crate::text::same_index;
use crate::text::word_chars_in;

verus! {

/// The view of each character vector in a list, in order.
pub open spec fn char_views(exts: Seq<Vec<char>>) -> Seq<Seq<char>> {
    exts.map_values(|v: Vec<char>| v@)
}

pub open spec fn http_lit() -> Seq<char> {
    "http://"@
}

pub open spec fn https_lit() -> Seq<char> {
    "https://"@
}

pub open spec fn uploads_lit() -> Seq<char> {
    "/wp-content/uploads/"@
}

pub open spec fn blog_uploads_lit() -> Seq<char> {
    "/blog/wp-content/uploads/"@
}

/// Where the scheme written at `i` ends: after `http://` or `https://`.
pub open spec fn scheme_end_at(s: Seq<char>, i: int) -> Option<int> {
    if matches_at(s, http_lit(), i) {
        Some(i + http_lit().len())
    } else if matches_at(s, https_lit(), i) {
        Some(i + https_lit().len())
    } else {
        None
    }
}

/// Where the host that follows the scheme at `i` ends: the first slash
/// after the scheme, provided the host is non-empty.
pub open spec fn host_end_at(s: Seq<char>, i: int) -> Option<int> {
    match scheme_end_at(s, i) {
        Some(k) => match first_ch(s, '/', k) {
            Some(j) => if j > k {
                Some(j)
            } else {
                None
            },
            None => None,
        },
        None => None,
    }
}

/// Where the year digits start: after the uploads path — with or without
/// the `/blog` prefix — that follows the host.
pub open spec fn tail_start_at(s: Seq<char>, i: int) -> Option<int> {
    match host_end_at(s, i) {
        Some(j) => if matches_at(s, blog_uploads_lit(), j) {
            Some(j + blog_uploads_lit().len())
        } else if matches_at(s, uploads_lit(), j) {
            Some(j + uploads_lit().len())
        } else {
            None
        },
        None => None,
    }
}

/// Where the final segment starts: after `YYYY/MM/`.
pub open spec fn name_start_at(s: Seq<char>, i: int) -> Option<int> {
    match tail_start_at(s, i) {
        Some(y) => if y + 8 <= s.len() && digits_in(s, y, y + 4) && s[y + 4] == '/' && digits_in(
            s,
            y + 5,
            y + 7,
        ) && s[y + 7] == '/' {
            Some(y + 8)
        } else {
            None
        },
        None => None,
    }
}

/// The whole string is one upload URL whose final segment is `name.ext`
/// with a non-empty name and a non-empty word-character extension.
pub open spec fn upload_src_match(s: Seq<char>) -> bool {
    match name_start_at(s, 0) {
        Some(t) => free_of(s, '/', t, s.len() as int) && match last_ch_before(
            s,
            '.',
            s.len() as int,
        ) {
            Some(d) => d > t && d + 1 < s.len() && word_chars_in(s, d + 1, s.len() as int),
            None => false,
        },
        None => false,
    }
}

/// The URL with everything after its last dot replaced by the canonical
/// video extension.
pub open spec fn mp4_of(s: Seq<char>) -> Seq<char> {
    match last_ch_before(s, '.', s.len() as int) {
        Some(d) => s.take(d + 1) + "mp4"@,
        None => s,
    }
}

fn scheme_end_exec(v: &Vec<char>, i: usize) -> (r: Option<usize>)
    ensures
        same_index(r, scheme_end_at(v@, i as int)),
{
    let http = chars_of("http://");
    if check_match_at(v, &http, i) {
        assert(i + http.len() <= v.len());
        return Some(i + http.len());
    }
    let https = chars_of("https://");
    if check_match_at(v, &https, i) {
        assert(i + https.len() <= v.len());
        return Some(i + https.len());
    }
    None
}

fn host_end_exec(v: &Vec<char>, i: usize) -> (r: Option<usize>)
    ensures
        same_index(r, host_end_at(v@, i as int)),
{
    match scheme_end_exec(v, i) {
        Some(k) => match find_ch(v, '/', k) {
            Some(j) => if j > k {
                Some(j)
            } else {
                None
            },
            None => None,
        },
        None => None,
    }
}

fn name_start_exec(v: &Vec<char>, i: usize) -> (r: Option<usize>)
    ensures
        same_index(r, name_start_at(v@, i as int)),
{
    let j = match host_end_exec(v, i) {
        Some(j) => j,
        None => {
            return None;
        },
    };
    let blog = chars_of("/blog/wp-content/uploads/");
    let plain = chars_of("/wp-content/uploads/");
    let y = if check_match_at(v, &blog, j) {
        assert(j + blog.len() <= v.len());
        j + blog.len()
    } else if check_match_at(v, &plain, j) {
        assert(j + plain.len() <= v.len());
        j + plain.len()
    } else {
        return None;
    };
    if v.len() < y || v.len() - y < 8 {
        return None;
    }
    if check_digits_in(v, y, y + 4) && v[y + 4] == '/' && check_digits_in(v, y + 5, y + 7) && v[y
        + 7] == '/' {
        Some(y + 8)
    } else {
        None
    }
}

/// Whether the whole string is one upload URL with a rewritable extension.
fn check_upload_src(v: &Vec<char>) -> (r: bool)
    ensures
        r == upload_src_match(v@),
{
    let t = match name_start_exec(v, 0) {
        Some(t) => t,
        None => {
            return false;
        },
    };
    match find_ch(v, '/', t) {
        Some(j) => {
            proof {
                lemma_first_ch(v@, '/', t as int);
            }
            return false;
        },
        None => {
            proof {
                lemma_first_ch(v@, '/', t as int);
            }
        },
    }
    proof {
        crate::text::lemma_last_ch_before(v@, '.', v@.len() as int);
    }
    match rfind_ch_before(v, '.', v.len()) {
        Some(d) => d > t && d + 1 < v.len() && check_word_chars_in(v, d + 1, v.len()),
        None => false,
    }
}

/// Rewrites a direct source URL to its canonical video form: when the URL
/// matches the upload shape, everything after its last dot becomes `mp4`;
/// any other string yields nothing.
pub fn rewrite_upload_url(s: &str) -> (r: Option<String>)
    ensures
        r is Some <==> upload_src_match(s@),
        r matches Some(u) ==> u@ == mp4_of(s@),
{
    let v = chars_of(s);
    if !check_upload_src(&v) {
        return None;
    }
    let d = match rfind_ch_before(&v, '.', v.len()) {
        Some(d) => d,
        None => {
            proof {
                assert(false);
            }
            0
        },
    };
    let base = s.substring_char(0, d + 1);
    let mut out = base.to_owned();
    out.append("mp4");
    proof {
        assert(out@ =~= mp4_of(s@));
    }
    Some(out)
}

/// The first extension in the list, from position `k` on, that is written
/// at `pos`; empty extensions never match.
pub open spec fn ext_match_from(s: Seq<char>, exts: Seq<Seq<char>>, k: int, pos: int) -> Option<
    int,
>
    decreases exts.len() - k,
{
    if k < 0 || k >= exts.len() {
        None
    } else if exts[k].len() > 0 && matches_at(s, exts[k], pos) {
        Some(k)
    } else {
        ext_match_from(s, exts, k + 1, pos)
    }
}

/// The greedy choice of the final dot: the largest index `d` in `(t, d0]`
/// where a dot is followed by a registered extension.
pub open spec fn best_dot(s: Seq<char>, exts: Seq<Seq<char>>, t: int, d0: int) -> Option<int>
    decreases d0 - t,
{
    if d0 <= t || d0 >= s.len() {
        None
    } else if s[d0] == '.' && ext_match_from(s, exts, 0, d0 + 1) is Some {
        Some(d0)
    } else {
        best_dot(s, exts, t, d0 - 1)
    }
}

/// Where the free-text match starting at `i` ends: after the prefix up to
/// `YYYY/MM/`, the final segment runs — without slashes — up to the last
/// dot that a registered extension follows, and the match ends after that
/// extension.
pub open spec fn body_match_end(s: Seq<char>, exts: Seq<Seq<char>>, i: int) -> Option<int> {
    match name_start_at(s, i) {
        Some(t) => {
            let l = match first_ch(s, '/', t) {
                Some(j) => j,
                None => s.len() as int,
            };
            match best_dot(s, exts, t, l - 1) {
                Some(d) => match ext_match_from(s, exts, 0, d + 1) {
                    Some(k) => Some(d + 1 + exts[k].len()),
                    None => None,
                },
                None => None,
            }
        },
        None => None,
    }
}

/// One scan hit: the match starting at `i` spans `[i, e)` and reads `u`.
pub open spec fn match_span(s: Seq<char>, exts: Seq<Seq<char>>, i: int, u: Seq<char>) -> bool {
    body_match_end(s, exts, i) matches Some(e) && u == s.subrange(i, e)
}

/// Every string some free-text match reads, wherever it starts.
pub open spec fn body_matches(s: Seq<char>, exts: Seq<Seq<char>>) -> Set<Seq<char>> {
    Set::new(|u: Seq<char>| exists|i: int| 0 <= i < s.len() && #[trigger] match_span(s, exts, i, u))
}

/// What a found extension satisfies.
pub proof fn lemma_ext_match_from(s: Seq<char>, exts: Seq<Seq<char>>, k: int, pos: int)
    requires
        0 <= k,
    ensures
        ext_match_from(s, exts, k, pos) matches Some(x) ==> k <= x < exts.len() && exts[x].len()
            > 0 && matches_at(s, exts[x], pos),
    decreases exts.len() - k,
{
    if k < exts.len() && !(exts[k].len() > 0 && matches_at(s, exts[k], pos)) {
        lemma_ext_match_from(s, exts, k + 1, pos);
    }
}

/// What the greedy dot satisfies.
pub proof fn lemma_best_dot(s: Seq<char>, exts: Seq<Seq<char>>, t: int, d0: int)
    ensures
        best_dot(s, exts, t, d0) matches Some(d) ==> t < d <= d0 && d < s.len() && s[d] == '.'
            && ext_match_from(s, exts, 0, d + 1) is Some,
    decreases d0 - t,
{
    if !(d0 <= t || d0 >= s.len()) && !(s[d0] == '.' && ext_match_from(s, exts, 0, d0 + 1)
        is Some) {
        lemma_best_dot(s, exts, t, d0 - 1);
    }
}

/// A free-text match lies strictly inside the text.
pub proof fn lemma_body_match_end(s: Seq<char>, exts: Seq<Seq<char>>, i: int)
    requires
        0 <= i,
    ensures
        body_match_end(s, exts, i) matches Some(e) ==> i < e <= s.len(),
{
    match name_start_at(s, i) {
        Some(t) => {
            let l = match first_ch(s, '/', t) {
                Some(j) => j,
                None => s.len() as int,
            };
            lemma_best_dot(s, exts, t, l - 1);
            match best_dot(s, exts, t, l - 1) {
                Some(d) => {
                    lemma_ext_match_from(s, exts, 0, d + 1);
                },
                None => {},
            }
        },
        None => {},
    }
}

fn ext_match_exec(v: &Vec<char>, exts: &Vec<Vec<char>>, pos: usize) -> (r: Option<usize>)
    ensures
        same_index(r, ext_match_from(v@, char_views(exts@), 0, pos as int)),
{
    let ghost evs = char_views(exts@);
    let mut k: usize = 0;
    while k < exts.len()
        invariant
            k <= exts@.len(),
            evs == char_views(exts@),
            ext_match_from(v@, evs, 0, pos as int) == ext_match_from(v@, evs, k as int, pos as int),
        decreases exts@.len() - k,
    {
        let e = &exts[k];
        if e.len() > 0 && check_match_at(v, e, pos) {
            return Some(k);
        }
        k += 1;
    }
    None
}

#[verifier::loop_isolation(false)]
fn body_match_at_exec(v: &Vec<char>, exts: &Vec<Vec<char>>, i: usize) -> (r: Option<usize>)
    ensures
        same_index(r, body_match_end(v@, char_views(exts@), i as int)),
{
    let ghost evs = char_views(exts@);
    let t = match name_start_exec(v, i) {
        Some(t) => t,
        None => {
            return None;
        },
    };
    let l = match find_ch(v, '/', t) {
        Some(j) => j,
        None => v.len(),
    };
    proof {
        lemma_first_ch(v@, '/', t as int);
    }
    assert(t <= l);
    let mut dd: usize = l;
    while dd > t
        invariant
            t <= dd <= l <= v@.len(),
            evs == char_views(exts@),
            best_dot(v@, evs, t as int, l - 1) == best_dot(v@, evs, t as int, dd - 1),
        decreases dd,
    {
        dd -= 1;
        if dd > t && v[dd] == '.' {
            match ext_match_exec(v, exts, dd + 1) {
                Some(k) => {
                    proof {
                        lemma_ext_match_from(v@, evs, 0, dd + 1);
                        assert(evs[k as int] == exts@[k as int]@);
                        assert(best_dot(v@, evs, t as int, dd as int) == Some(dd as int));
                        assert(dd + 1 + evs[k as int].len() <= v@.len());
                    }
                    assert(dd + 1 + exts[k as int].len() <= v.len());
                    let e = dd + 1 + exts[k].len();
                    proof {
                        assert(best_dot(v@, evs, t as int, l - 1) == Some(dd as int));
                        assert(ext_match_from(v@, evs, 0, dd + 1) == Some(k as int));
                        assert(e as int == dd + 1 + evs[k as int].len());
                    }
                    assert(body_match_end(v@, evs, i as int) == Some(e as int));
                    return Some(e);
                },
                None => {},
            }
        }
        assert(best_dot(v@, evs, t as int, dd as int) == best_dot(v@, evs, t as int, dd - 1));
    }
    assert(best_dot(v@, evs, t as int, l - 1) is None);
    None
}

/// Whether some element of the list reads exactly `u`.
pub open spec fn listed(r: Seq<String>, u: Seq<char>) -> bool {
    exists|k: int| 0 <= k < r.len() && (#[trigger] r[k])@ == u
}

/// The `k`-th listed string is a match that starts at its recorded index,
/// below `n`.
pub open spec fn witness_ok(
    s: Seq<char>,
    exts: Seq<Seq<char>>,
    r: Seq<String>,
    ws: Seq<int>,
    n: int,
    k: int,
) -> bool {
    0 <= ws[k] && ws[k] < n && match_span(s, exts, ws[k], (r[k])@)
}

/// Every listed string is a match that starts below `n`, at the start
/// index recorded for it.
pub open spec fn witnessed(
    s: Seq<char>,
    exts: Seq<Seq<char>>,
    r: Seq<String>,
    ws: Seq<int>,
    n: int,
) -> bool {
    &&& ws.len() == r.len()
    &&& forall|k: int| 0 <= k < r.len() ==> #[trigger] witness_ok(s, exts, r, ws, n, k)
}

/// Every match that starts below `n` is listed.
pub open spec fn all_covered(s: Seq<char>, exts: Seq<Seq<char>>, n: int, r: Seq<String>) -> bool {
    forall|j: int| 0 <= j < n ==> covered(s, exts, j, r)
}

/// Whether the list accounts for the match starting at `j`, if any.
pub open spec fn covered(s: Seq<char>, exts: Seq<Seq<char>>, j: int, r: Seq<String>) -> bool {
    match body_match_end(s, exts, j) {
        Some(e) => listed(r, s.subrange(j, e)),
        None => true,
    }
}

/// A witnessed list stays witnessed under a larger bound.
proof fn lemma_witnessed_mono(
    s: Seq<char>,
    exts: Seq<Seq<char>>,
    r: Seq<String>,
    ws: Seq<int>,
    n: int,
    n2: int,
)
    requires
        witnessed(s, exts, r, ws, n),
        n <= n2,
    ensures
        witnessed(s, exts, r, ws, n2),
{
    assert forall|k: int| 0 <= k < r.len() implies #[trigger] witness_ok(
        s,
        exts,
        r,
        ws,
        n2,
        k,
    ) by {
        assert(witness_ok(s, exts, r, ws, n, k));
    }
}

/// Appending one freshly matched string keeps the list witnessed.
proof fn lemma_witnessed_extend(
    s: Seq<char>,
    exts: Seq<Seq<char>>,
    r0: Seq<String>,
    ws0: Seq<int>,
    r1: Seq<String>,
    j: int,
    n: int,
)
    requires
        witnessed(s, exts, r0, ws0, n),
        r1.len() == r0.len() + 1,
        forall|k: int| 0 <= k < r0.len() ==> #[trigger] r1[k] == r0[k],
        0 <= j < n + 1,
        match_span(s, exts, j, (r1[r1.len() - 1])@),
    ensures
        witnessed(s, exts, r1, ws0.push(j), n + 1),
{
    let ws1 = ws0.push(j);
    assert forall|k: int| 0 <= k < r1.len() implies #[trigger] witness_ok(
        s,
        exts,
        r1,
        ws1,
        n + 1,
        k,
    ) by {
        if k < r0.len() {
            assert(r1[k] == r0[k]);
            assert(ws1[k] == ws0[k]);
            assert(witness_ok(s, exts, r0, ws0, n, k));
        } else {
            assert(ws1[k] == j);
            assert((r1[k])@ == (r1[r1.len() - 1])@);
        }
    }
}

/// A covered range stays covered when the list only grows.
proof fn lemma_all_covered_grow(
    s: Seq<char>,
    exts: Seq<Seq<char>>,
    n: int,
    r0: Seq<String>,
    r1: Seq<String>,
)
    requires
        all_covered(s, exts, n, r0),
        r0.len() <= r1.len(),
        forall|k: int| 0 <= k < r0.len() ==> #[trigger] r1[k] == r0[k],
    ensures
        all_covered(s, exts, n, r1),
{
    assert forall|j: int| 0 <= j < n implies covered(s, exts, j, r1) by {
        assert(covered(s, exts, j, r0));
        match body_match_end(s, exts, j) {
            Some(e2) => {
                let u = s.subrange(j, e2);
                assert(listed(r0, u));
                let k0 = choose|k0: int| 0 <= k0 < r0.len() && (#[trigger] r0[k0])@ == u;
                assert(r1[k0] == r0[k0]);
                assert(listed(r1, u));
            },
            None => {},
        }
    }
}

/// Covering one more start index extends the covered range by one.
proof fn lemma_all_covered_step(s: Seq<char>, exts: Seq<Seq<char>>, n: int, r: Seq<String>)
    requires
        all_covered(s, exts, n, r),
        covered(s, exts, n, r),
    ensures
        all_covered(s, exts, n + 1, r),
{
    assert forall|j: int| 0 <= j < n + 1 implies covered(s, exts, j, r) by {
        if j < n {
            assert(covered(s, exts, j, r));
        }
    }
}

/// Scans free text for upload URLs whose extension the registry knows,
/// returning each distinct match once.
#[verifier::loop_isolation(false)]
pub fn scan_text(s: &str, exts: &Vec<Vec<char>>) -> (r: Vec<String>)
    ensures
        forall|k: int|
            0 <= k < r@.len() ==> body_matches(s@, char_views(exts@)).contains(
                (#[trigger] r@[k])@,
            ),
        forall|u: Seq<char>| body_matches(s@, char_views(exts@)).contains(u) ==> listed(r@, u),
        forall|k1: int, k2: int| 0 <= k1 < k2 < r@.len() ==> r@[k1]@ != r@[k2]@,
{
    let ghost evs = char_views(exts@);
    let v = chars_of(s);
    let mut r: Vec<String> = Vec::new();
    let mut ws: Ghost<Seq<int>> = Ghost(Seq::empty());
    let mut i: usize = 0;
    while i < v.len()
        invariant
            i <= v@.len(),
            v@ == s@,
            evs == char_views(exts@),
            witnessed(s@, evs, r@, ws@, i as int),
            all_covered(s@, evs, i as int, r@),
            forall|k1: int, k2: int| 0 <= k1 < k2 < r@.len() ==> r@[k1]@ != r@[k2]@,
        decreases v@.len() - i,
    {
        let ghost r_prev = r@;
        let ghost ws_prev = ws@;
        match body_match_at_exec(&v, exts, i) {
            Some(e) => {
                proof {
                    lemma_body_match_end(s@, evs, i as int);
                }
                let m = s.substring_char(i, e).to_owned();
                let ghost mv = m@;
                assert(match_span(s@, evs, i as int, mv));
                if !crate::text::contains_string(&r, &m) {
                    r.push(m);
                    ws = Ghost(ws@.push(i as int));
                    assert((r@[r@.len() - 1])@ == mv);
                    proof {
                        lemma_witnessed_extend(
                            s@,
                            evs,
                            r_prev,
                            ws_prev,
                            r@,
                            i as int,
                            i as int,
                        );
                        lemma_all_covered_grow(s@, evs, i as int, r_prev, r@);
                    }
                } else {
                    proof {
                        lemma_witnessed_mono(s@, evs, r@, ws@, i as int, i + 1);
                    }
                }
                proof {
                    assert(listed(r@, mv));
                    assert(covered(s@, evs, i as int, r@));
                    lemma_all_covered_step(s@, evs, i as int, r@);
                }
            },
            None => {
                proof {
                    lemma_witnessed_mono(s@, evs, r@, ws@, i as int, i + 1);
                    assert(covered(s@, evs, i as int, r@));
                    lemma_all_covered_step(s@, evs, i as int, r@);
                }
            },
        }
        i += 1;
    }
    assert forall|u: Seq<char>| body_matches(s@, evs).contains(u) implies listed(r@, u) by {
        let j = choose|j: int| 0 <= j < s@.len() && #[trigger] match_span(s@, evs, j, u);
        assert(match_span(s@, evs, j, u));
        assert(covered(s@, evs, j, r@));
    }
    assert forall|k: int| 0 <= k < r@.len() implies body_matches(s@, evs).contains(
        (#[trigger] r@[k])@,
    ) by {
        assert(witness_ok(s@, evs, r@, ws@, i as int, k));
        assert(0 <= ws@[k] && ws@[k] < s@.len() && match_span(s@, evs, ws@[k], (r@[k])@));
    }
    r
}

/// A listed string stays listed when the list only grows.
pub proof fn lemma_listed_grow(r0: Seq<String>, r1: Seq<String>, u: Seq<char>)
    requires
        listed(r0, u),
        r0.len() <= r1.len(),
        forall|k: int| 0 <= k < r0.len() ==> #[trigger] r1[k] == r0[k],
    ensures
        listed(r1, u),
{
    let k0 = choose|k0: int| 0 <= k0 < r0.len() && (#[trigger] r0[k0])@ == u;
    assert(r1[k0] == r0[k0]);
}

/// The parse positions of a canonical link: where the base origin ends and
/// where the final path segment — the slug — lies.
pub ghost struct LinkParts {
    pub base_end: int,
    pub slug_start: int,
    pub slug_end: int,
}

/// Two slashes side by side somewhere in `[i, end)`.
pub open spec fn has_adjacent_slashes(s: Seq<char>, i: int, end: int) -> bool {
    exists|k: int| i <= k < end - 1 && s[k] == '/' && #[trigger] s[k + 1] == '/'
}

/// The link shape the slug synthesis strategy parses: scheme and host (the
/// base), then slash-separated non-empty path segments, the last of which
/// is the slug, with at most one trailing slash.
pub open spec fn link_parse(s: Seq<char>) -> Option<LinkParts> {
    match host_end_at(s, 0) {
        Some(i) => {
            let qend = if s.len() > 0 && s[s.len() - 1] == '/' {
                s.len() - 1
            } else {
                s.len() as int
            };
            if qend <= i || has_adjacent_slashes(s, i, qend) {
                None
            } else {
                match last_ch_before(s, '/', qend) {
                    Some(ls) => if ls + 1 < qend {
                        Some(LinkParts { base_end: i, slug_start: ls + 1, slug_end: qend })
                    } else {
                        None
                    },
                    None => None,
                }
            }
        },
        None => None,
    }
}

/// The parse positions of a link lie in order inside it.
pub proof fn lemma_link_parse_bounds(l: Seq<char>)
    ensures
        link_parse(l) matches Some(lp) ==> 0 <= lp.base_end && lp.base_end < lp.slug_start
            && lp.slug_start < lp.slug_end && lp.slug_end <= l.len(),
{
    match host_end_at(l, 0) {
        Some(i) => {
            match scheme_end_at(l, 0) {
                Some(k) => {
                    lemma_first_ch(l, '/', k);
                },
                None => {},
            }
            let qend = if l.len() > 0 && l[l.len() - 1] == '/' {
                l.len() - 1
            } else {
                l.len() as int
            };
            if !(qend <= i || has_adjacent_slashes(l, i, qend)) {
                crate::text::lemma_last_ch_before(l, '/', qend);
                match last_ch_before(l, '/', qend) {
                    Some(ls) => {
                        assert(l[i] == '/');
                        assert(ls >= i);
                    },
                    None => {},
                }
            }
        },
        None => {},
    }
}

/// Splits a canonical link into its base origin and its slug, when the
/// link has the expected shape; any other string yields nothing.
#[verifier::loop_isolation(false)]
pub fn parse_link(s: &str) -> (r: Option<(String, String)>)
    ensures
        r is Some <==> link_parse(s@) is Some,
        r matches Some(p) ==> link_parse(s@) matches Some(lp) && p.0@ == s@.take(lp.base_end)
            && p.1@ == s@.subrange(lp.slug_start, lp.slug_end),
{
    let v = chars_of(s);
    let i = match host_end_exec(&v, 0) {
        Some(i) => i,
        None => {
            return None;
        },
    };
    let qend: usize = if v.len() > 0 && v[v.len() - 1] == '/' {
        v.len() - 1
    } else {
        v.len()
    };
    if qend <= i {
        return None;
    }
    assert(qend as int == (if s@.len() > 0 && s@[s@.len() - 1] == '/' {
        s@.len() - 1
    } else {
        s@.len() as int
    }));
    let mut k: usize = i;
    while k + 1 < qend
        invariant
            i <= k < qend,
            qend <= v@.len(),
            v@ == s@,
            forall|j: int| i <= j < k ==> !(#[trigger] s@[j] == '/' && s@[j + 1] == '/'),
        decreases qend - k,
    {
        if v[k] == '/' && v[k + 1] == '/' {
            assert(has_adjacent_slashes(s@, i as int, qend as int));
            return None;
        }
        k += 1;
    }
    assert(!has_adjacent_slashes(s@, i as int, qend as int));
    proof {
        crate::text::lemma_last_ch_before(s@, '/', qend as int);
    }
    let ls = match rfind_ch_before(&v, '/', qend) {
        Some(ls) => ls,
        None => {
            return None;
        },
    };
    if ls + 1 >= qend {
        return None;
    }
    let base = s.substring_char(0, i).to_owned();
    let slug = s.substring_char(ls + 1, qend).to_owned();
    proof {
        assert(base@ =~= s@.take(i as int));
    }
    Some((base, slug))
}

} // verus!
