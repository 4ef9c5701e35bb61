//! Candidate extraction from listing items.
//!
//! One listing item carries up to six fields of interest.  Four strategies
//! of decreasing reliability each derive a set of candidate video addresses
//! from them: the direct source URL rewritten to the canonical extension;
//! the embedded featured-media source URLs rewritten the same way; a scan
//! of the rendered body and excerpt text for addresses whose extension the
//! registry knows; and addresses synthesised from the item's link and
//! publish date, two per registered extension.  A strategy that finds
//! nothing yields the empty set — never an error.

use vstd::prelude::*;
use vstd::string::StringExecFns;

use crate::config::opt_view;
use crate::mime::MimeRegistry;
use crate::mime::ext_seqs;
use crate::pattern::LinkParts;
use crate::pattern::body_matches;
use crate::pattern::char_views;
use crate::pattern::link_parse;
use crate::pattern::listed;
use crate::pattern::mp4_of;
use crate::pattern::parse_link;
use crate::pattern::rewrite_upload_url;
use crate::pattern::scan_text;
use crate::pattern::upload_src_match;
use crate::dates::date_match;
use crate::dates::parse_date;
use crate::text::contains_string;
use crate::text::lower_of;
use crate::text::lowercased;
use crate::text::strip_backslashes_of;
use crate::text::without_backslashes;

verus! {

/// The views of a list of strings, in order.
pub open spec fn string_views(v: Seq<String>) -> Seq<Seq<char>> {
    v.map_values(|s: String| s@)
}

/// The views of a list of items, in order.
pub open spec fn item_views(items: Seq<ListingItem>) -> Seq<ItemView> {
    items.map_values(|it: ListingItem| it@)
}

/// The mathematical view of one listing item.
pub ghost struct ItemView {
    pub source_url: Option<Seq<char>>,
    pub featured_media: Seq<Seq<char>>,
    pub content: Option<Seq<char>>,
    pub excerpt: Option<Seq<char>>,
    pub link: Option<Seq<char>>,
    pub date: Option<Seq<char>>,
}

/// One listing record, reduced to the fields the strategies read.  A field
/// the listing did not carry — or carried with an unexpected type — is
/// absent, and simply yields no candidates from the strategy that needed
/// it.
pub struct ListingItem {
    /// The direct source URL of a media object.
    pub source_url: Option<String>,
    /// The source URLs of the embedded featured media.
    pub featured_media: Vec<String>,
    /// The rendered body text of a post.
    pub content: Option<String>,
    /// The rendered excerpt text of a post.
    pub excerpt: Option<String>,
    /// The canonical link of a post.
    pub link: Option<String>,
    /// The publish date of a post.
    pub date: Option<String>,
}

impl View for ListingItem {
    type V = ItemView;

    open spec fn view(&self) -> ItemView {
        ItemView {
            source_url: opt_view(self.source_url),
            featured_media: string_views(self.featured_media@),
            content: opt_view(self.content),
            excerpt: opt_view(self.excerpt),
            link: opt_view(self.link),
            date: opt_view(self.date),
        }
    }
}

/// No two elements of the list read the same.
pub open spec fn distinct_strings(r: Seq<String>) -> bool {
    forall|k1: int, k2: int| 0 <= k1 < k2 < r.len() ==> r[k1]@ != r[k2]@
}

/// The list holds exactly the elements of the set, each once.
pub open spec fn represents(r: Seq<String>, s: Set<Seq<char>>) -> bool {
    &&& forall|k: int| 0 <= k < r.len() ==> s.contains((#[trigger] r[k])@)
    &&& forall|u: Seq<char>| s.contains(u) ==> listed(r, u)
    &&& distinct_strings(r)
}

/// What the direct-source strategy yields: the rewritten source URL, when
/// it has the upload shape.
pub open spec fn direct_candidates(item: ItemView) -> Set<Seq<char>> {
    match item.source_url {
        Some(u) => if upload_src_match(u) {
            set![mp4_of(u)]
        } else {
            Set::empty()
        },
        None => Set::empty(),
    }
}

/// The embedded media URL at `i` has the upload shape and rewrites to `c`.
pub open spec fn media_hit(m: Seq<Seq<char>>, i: int, c: Seq<char>) -> bool {
    0 <= i < m.len() && upload_src_match(m[i]) && c == mp4_of(m[i])
}

/// What the embedded-media strategy yields: every featured-media source
/// URL of the upload shape, rewritten.
pub open spec fn embedded_candidates(item: ItemView) -> Set<Seq<char>> {
    Set::new(|c: Seq<char>| exists|i: int| #[trigger] media_hit(item.featured_media, i, c))
}

/// Body text as the scan sees it: backslashes removed, then lowercased; an
/// absent field reads as the empty text.  Case normalization folds ASCII
/// capitals only, which covers every character the upload-URL grammar can
/// match.
pub open spec fn cleaned(t: Option<Seq<char>>) -> Seq<char> {
    match t {
        Some(x) => lower_of(strip_backslashes_of(x)),
        None => Seq::empty(),
    }
}

/// What the body-scan strategy yields: every match in the cleaned body or
/// excerpt text.
pub open spec fn body_candidates(item: ItemView, exts: Seq<Seq<char>>) -> Set<Seq<char>> {
    body_matches(cleaned(item.content), exts).union(body_matches(cleaned(item.excerpt), exts))
}

/// One synthesised address: the link's base origin, optionally `/blog`,
/// the uploads path, the date's year and month, the link's slug, and an
/// extension.
pub open spec fn synth_candidate(
    l: Seq<char>,
    lp: LinkParts,
    d: Seq<char>,
    ext: Seq<char>,
    blog: bool,
) -> Seq<char> {
    l.take(lp.base_end) + (if blog {
        "/blog"@
    } else {
        Seq::empty()
    }) + "/wp-content/uploads/"@ + d.take(4) + "/"@ + d.subrange(5, 7) + "/"@ + l.subrange(
        lp.slug_start,
        lp.slug_end,
    ) + "."@ + ext
}

/// `c` is the synthesised address for extension `x`, with or without the
/// `/blog` prefix.
pub open spec fn synth_hit(
    l: Seq<char>,
    lp: LinkParts,
    d: Seq<char>,
    exts: Seq<Seq<char>>,
    x: int,
    blog: bool,
    c: Seq<char>,
) -> bool {
    0 <= x < exts.len() && c == synth_candidate(l, lp, d, exts[x], blog)
}

/// What the slug-synthesis strategy yields: two addresses per registered
/// extension, when the link and the date both parse; nothing otherwise.
pub open spec fn link_date_candidates(item: ItemView, exts: Seq<Seq<char>>) -> Set<Seq<char>> {
    match (item.link, item.date) {
        (Some(l), Some(d)) => match link_parse(l) {
            Some(lp) => if date_match(d) {
                Set::new(
                    |c: Seq<char>|
                        exists|x: int, blog: bool| #[trigger] synth_hit(l, lp, d, exts, x, blog, c),
                )
            } else {
                Set::empty()
            },
            None => Set::empty(),
        },
        _ => Set::empty(),
    }
}

/// Whether the item's link and date both have the shapes synthesis needs.
pub open spec fn link_date_usable(item: ItemView) -> bool {
    match (item.link, item.date) {
        (Some(l), Some(d)) => link_parse(l) is Some && date_match(d),
        _ => false,
    }
}

/// The direct-source strategy: rewrite the source URL when it has the
/// upload shape.
pub fn strategy_direct(item: &ListingItem) -> (r: Vec<String>)
    ensures
        represents(r@, direct_candidates(item@)),
{
    let mut r: Vec<String> = Vec::new();
    match &item.source_url {
        Some(u) => {
            match rewrite_upload_url(u.as_str()) {
                Some(c) => {
                    r.push(c);
                },
                None => {},
            }
        },
        None => {},
    }
    proof {
        let s = direct_candidates(item@);
        assert forall|u: Seq<char>| s.contains(u) implies listed(r@, u) by {
            assert((r@[0])@ == u);
        }
    }
    r
}

/// The `k`-th collected rewrite comes from the media URL at its recorded
/// index.
pub open spec fn media_witness_ok(
    m: Seq<Seq<char>>,
    r: Seq<String>,
    ws: Seq<int>,
    k: int,
) -> bool {
    media_hit(m, ws[k], (r[k])@)
}

/// Every media URL below `n` that has the upload shape is already listed.
pub open spec fn media_covered(m: Seq<Seq<char>>, n: int, r: Seq<String>) -> bool {
    forall|j: int| 0 <= j < n && upload_src_match(#[trigger] m[j]) ==> listed(r, mp4_of(m[j]))
}

/// The embedded-media strategy: rewrite every featured-media source URL of
/// the upload shape, collecting each distinct result once.
#[verifier::loop_isolation(false)]
pub fn strategy_embedded(item: &ListingItem) -> (r: Vec<String>)
    ensures
        represents(r@, embedded_candidates(item@)),
{
    let ghost m = item@.featured_media;
    let mut r: Vec<String> = Vec::new();
    let mut ws: Ghost<Seq<int>> = Ghost(Seq::empty());
    let mut i: usize = 0;
    while i < item.featured_media.len()
        invariant
            i <= m.len(),
            m == string_views(item.featured_media@),
            ws@.len() == r@.len(),
            forall|k: int| 0 <= k < r@.len() ==> #[trigger] media_witness_ok(m, r@, ws@, k),
            media_covered(m, i as int, r@),
            distinct_strings(r@),
        decreases m.len() - i,
    {
        let ghost r_prev = r@;
        let ghost ws_prev = ws@;
        match rewrite_upload_url(item.featured_media[i].as_str()) {
            Some(c) => {
                let ghost cv = c@;
                assert(media_hit(m, i as int, cv));
                if !contains_string(&r, &c) {
                    r.push(c);
                    ws = Ghost(ws@.push(i as int));
                    assert((r@[r@.len() - 1])@ == cv);
                }
                proof {
                    assert(listed(r@, cv));
                    assert forall|k: int|
                        0 <= k < r@.len() implies #[trigger] media_witness_ok(m, r@, ws@, k) by {
                        if k < r_prev.len() {
                            assert(r@[k] == r_prev[k]);
                            assert(ws@[k] == ws_prev[k]);
                            assert(media_witness_ok(m, r_prev, ws_prev, k));
                        } else {
                            assert(ws@[k] == i as int);
                            assert((r@[k])@ == cv);
                        }
                    }
                    assert forall|j: int|
                        0 <= j < i + 1 && upload_src_match(#[trigger] m[j]) implies listed(
                        r@,
                        mp4_of(m[j]),
                    ) by {
                        if j < i {
                            assert(listed(r_prev, mp4_of(m[j])));
                            crate::pattern::lemma_listed_grow(r_prev, r@, mp4_of(m[j]));
                        }
                    }
                }
            },
            None => {
                proof {
                    assert forall|j: int|
                        0 <= j < i + 1 && upload_src_match(#[trigger] m[j]) implies listed(
                        r@,
                        mp4_of(m[j]),
                    ) by {
                        assert(j != i);
                    }
                }
            },
        }
        i += 1;
    }
    proof {
        let s = embedded_candidates(item@);
        assert forall|k: int| 0 <= k < r@.len() implies s.contains((#[trigger] r@[k])@) by {
            assert(media_witness_ok(m, r@, ws@, k));
            assert(media_hit(m, ws@[k], (r@[k])@));
        }
        assert forall|u: Seq<char>| s.contains(u) implies listed(r@, u) by {
            let j = choose|j: int| #[trigger] media_hit(m, j, u);
        }
    }
    r
}

fn clean_text(t: &Option<String>) -> (r: String)
    ensures
        r@ == cleaned(opt_view(*t)),
{
    match t {
        Some(x) => {
            let stripped = without_backslashes(x.as_str());
            lowercased(stripped.as_str())
        },
        None => String::new(),
    }
}

/// Appends every element of `src` that `dst` does not already hold.
#[verifier::loop_isolation(false)]
pub fn extend_unique(dst: &mut Vec<String>, src: &Vec<String>)
    requires
        distinct_strings(old(dst)@),
    ensures
        forall|u: Seq<char>|
            #![trigger listed(final(dst)@, u)]
            listed(final(dst)@, u) <==> listed(old(dst)@, u) || listed(src@, u),
        distinct_strings(final(dst)@),
{
    let ghost d0 = dst@;
    let mut i: usize = 0;
    while i < src.len()
        invariant
            i <= src@.len(),
            distinct_strings(dst@),
            dst@.len() >= d0.len(),
            forall|k: int| 0 <= k < d0.len() ==> #[trigger] dst@[k] == d0[k],
            forall|k: int|
                0 <= k < dst@.len() ==> listed(d0, (#[trigger] dst@[k])@) || listed(
                    src@,
                    (dst@[k])@,
                ),
            forall|j: int| 0 <= j < i ==> listed(dst@, (#[trigger] src@[j])@),
        decreases src@.len() - i,
    {
        let ghost d_prev = dst@;
        let c = src[i].clone();
        let ghost cv = c@;
        assert(cv == (src@[i as int])@);
        if !contains_string(dst, &c) {
            dst.push(c);
            assert((dst@[dst@.len() - 1])@ == cv);
        }
        proof {
            assert(listed(dst@, cv));
            assert forall|k: int|
                0 <= k < dst@.len() implies listed(d0, (#[trigger] dst@[k])@) || listed(
                src@,
                (dst@[k])@,
            ) by {
                if k < d_prev.len() {
                    assert(dst@[k] == d_prev[k]);
                } else {
                    assert((dst@[k])@ == cv);
                }
            }
            assert forall|j: int| 0 <= j < i + 1 implies listed(dst@, (#[trigger] src@[j])@) by {
                if j < i {
                    assert(listed(d_prev, (src@[j])@));
                    crate::pattern::lemma_listed_grow(d_prev, dst@, (src@[j])@);
                }
            }
        }
        i += 1;
    }
    proof {
        assert forall|u: Seq<char>|
            listed(dst@, u) implies listed(d0, u) || listed(src@, u) by {
            let k = choose|k: int| 0 <= k < dst@.len() && (#[trigger] dst@[k])@ == u;
        }
        assert forall|u: Seq<char>|
            listed(d0, u) || listed(src@, u) implies listed(dst@, u) by {
            if listed(d0, u) {
                crate::pattern::lemma_listed_grow(d0, dst@, u);
            } else {
                let j = choose|j: int| 0 <= j < src@.len() && (#[trigger] src@[j])@ == u;
                assert(listed(dst@, (src@[j])@));
            }
        }
    }
}

/// The body-scan strategy: scan the cleaned body and excerpt text for
/// addresses whose extension the registry knows.
pub fn strategy_body(item: &ListingItem, exts: &Vec<Vec<char>>) -> (r: Vec<String>)
    ensures
        represents(r@, body_candidates(item@, char_views(exts@))),
{
    let ghost evs = char_views(exts@);
    let content = clean_text(&item.content);
    let excerpt = clean_text(&item.excerpt);
    let mut r = scan_text(content.as_str(), exts);
    let more = scan_text(excerpt.as_str(), exts);
    extend_unique(&mut r, &more);
    proof {
        let s = body_candidates(item@, evs);
        let ca = body_matches(cleaned(item@.content), evs);
        let cb = body_matches(cleaned(item@.excerpt), evs);
        assert forall|k: int| 0 <= k < r@.len() implies s.contains((#[trigger] r@[k])@) by {
            assert(listed(r@, (r@[k])@));
        }
        assert forall|u: Seq<char>| s.contains(u) implies listed(r@, u) by {
            assert(ca.contains(u) || cb.contains(u));
        }
    }
    r
}

fn synth_exec(base: &str, year: &str, month: &str, slug: &str, ext: &str, blog: bool) -> (r:
    String)
    ensures
        r@ == base@ + (if blog {
            "/blog"@
        } else {
            Seq::<char>::empty()
        }) + "/wp-content/uploads/"@ + year@ + "/"@ + month@ + "/"@ + slug@ + "."@ + ext@,
{
    let mut r = base.to_owned();
    if blog {
        r.append("/blog");
    }
    r.append("/wp-content/uploads/");
    r.append(year);
    r.append("/");
    r.append(month);
    r.append("/");
    r.append(slug);
    r.append(".");
    r.append(ext);
    proof {
        assert(r@ =~= base@ + (if blog {
            "/blog"@
        } else {
            Seq::<char>::empty()
        }) + "/wp-content/uploads/"@ + year@ + "/"@ + month@ + "/"@ + slug@ + "."@ + ext@);
    }
    r
}

/// Two synthesised addresses differ whenever the blog flag or the
/// extension differs.
proof fn lemma_synth_distinct(
    l: Seq<char>,
    lp: LinkParts,
    d: Seq<char>,
    e1: Seq<char>,
    e2: Seq<char>,
    b1: bool,
    b2: bool,
)
    requires
        link_parse(l) == Some(lp),
        b1 != b2 || e1 != e2,
    ensures
        synth_candidate(l, lp, d, e1, b1) != synth_candidate(l, lp, d, e2, b2),
{
    crate::pattern::lemma_link_parse_bounds(l);
    reveal_strlit("/blog");
    reveal_strlit("/wp-content/uploads/");
    let base = l.take(lp.base_end);
    let p = lp.base_end;
    let c1 = synth_candidate(l, lp, d, e1, b1);
    let c2 = synth_candidate(l, lp, d, e2, b2);
    if b1 != b2 {
        if b1 {
            assert(c1[p + 1] == 'b');
            assert(c2[p + 1] == 'w');
        } else {
            assert(c1[p + 1] == 'w');
            assert(c2[p + 1] == 'b');
        }
        assert(c1 != c2);
    } else {
        if c1 == c2 {
            let pre = base + (if b1 {
                "/blog"@
            } else {
                Seq::<char>::empty()
            }) + "/wp-content/uploads/"@ + d.take(4) + "/"@ + d.subrange(5, 7) + "/"@ + l.subrange(
                lp.slug_start,
                lp.slug_end,
            ) + "."@;
            assert(c1 == pre + e1);
            assert(c2 == pre + e2);
            assert((pre + e1).len() == pre.len() + e1.len());
            assert((pre + e2).len() == pre.len() + e2.len());
            assert(e1.len() == e2.len());
            assert forall|x: int| 0 <= x < e1.len() implies e1[x] == e2[x] by {
                assert(c1[pre.len() + x] == e1[x]);
                assert(c2[pre.len() + x] == e2[x]);
            }
            assert(e1 =~= e2);
            assert(false);
        }
    }
}

/// The `k`-th collected address is the synthesis for extension `k / 2`,
/// with the blog prefix on odd positions.
pub open spec fn synth_at(
    l: Seq<char>,
    lp: LinkParts,
    d: Seq<char>,
    exts: Seq<Seq<char>>,
    r: Seq<String>,
    k: int,
) -> bool {
    (r[k])@ == synth_candidate(l, lp, d, exts[k / 2], k % 2 == 1)
}

/// The slug-synthesis strategy: when the item's link and publish date both
/// parse, two addresses per registered extension — with and without the
/// `/blog` prefix; otherwise nothing.  On success the count is exactly
/// twice the registry's size.
#[verifier::loop_isolation(false)]
pub fn strategy_link_date(item: &ListingItem, reg: &MimeRegistry) -> (r: Vec<String>)
    requires
        reg.wf(),
    ensures
        represents(r@, link_date_candidates(item@, ext_seqs(reg@))),
        link_date_usable(item@) ==> r@.len() == 2 * reg@.len(),
        !link_date_usable(item@) ==> r@.len() == 0,
{
    let link = match &item.link {
        Some(l) => l,
        None => {
            return Vec::new();
        },
    };
    let date = match &item.date {
        Some(d) => d,
        None => {
            return Vec::new();
        },
    };
    let parsed_link = match parse_link(link.as_str()) {
        Some(p) => p,
        None => {
            return Vec::new();
        },
    };
    let parsed_date = match parse_date(date.as_str()) {
        Some(p) => p,
        None => {
            return Vec::new();
        },
    };
    let (base, slug) = parsed_link;
    let (year, month) = parsed_date;
    let ghost l = link@;
    let ghost dv = date@;
    let ghost lp = choose|lp: LinkParts| link_parse(l) == Some(lp);
    let ghost exts = ext_seqs(reg@);
    let mut r: Vec<String> = Vec::new();
    let mut x: usize = 0;
    let n = reg.count();
    while x < n
        invariant
            x <= n,
            n == reg@.len(),
            r@.len() == 2 * x,
            forall|k: int| 0 <= k < r@.len() ==> #[trigger] synth_at(l, lp, dv, exts, r@, k),
        decreases n - x,
    {
        let ghost r_prev = r@;
        let ext = reg.extension_at(x);
        let plain = synth_exec(
            base.as_str(),
            year.as_str(),
            month.as_str(),
            slug.as_str(),
            ext.as_str(),
            false,
        );
        proof {
            assert(plain@ =~= synth_candidate(l, lp, dv, exts[x as int], false));
        }
        r.push(plain);
        let blogged = synth_exec(
            base.as_str(),
            year.as_str(),
            month.as_str(),
            slug.as_str(),
            ext.as_str(),
            true,
        );
        proof {
            assert(blogged@ =~= synth_candidate(l, lp, dv, exts[x as int], true));
        }
        r.push(blogged);
        proof {
            assert forall|k: int|
                0 <= k < r@.len() implies #[trigger] synth_at(l, lp, dv, exts, r@, k) by {
                if k < r_prev.len() {
                    assert(r@[k] == r_prev[k]);
                    assert(synth_at(l, lp, dv, exts, r_prev, k));
                } else if k == 2 * x {
                    assert(k / 2 == x && k % 2 == 0);
                    assert((r@[k])@ == plain@);
                } else {
                    assert(k == 2 * x + 1);
                    assert(k / 2 == x && k % 2 == 1);
                    assert((r@[k])@ == blogged@);
                }
            }
        }
        x += 1;
    }
    proof {
        let s = link_date_candidates(item@, exts);
        assert forall|k1: int, k2: int|
            0 <= k1 < k2 < r@.len() implies r@[k1]@ != r@[k2]@ by {
            assert(synth_at(l, lp, dv, exts, r@, k1));
            assert(synth_at(l, lp, dv, exts, r@, k2));
            let x1 = k1 / 2;
            let x2 = k2 / 2;
            assert(0 <= x1 < exts.len() && 0 <= x2 < exts.len());
            if x1 == x2 {
                assert(k1 % 2 == 0 && k2 % 2 == 1);
                lemma_synth_distinct(l, lp, dv, exts[x1], exts[x2], false, true);
            } else {
                assert(reg@[x1].extension != reg@[x2].extension);
                assert(exts[x1] != exts[x2]);
                lemma_synth_distinct(
                    l,
                    lp,
                    dv,
                    exts[x1],
                    exts[x2],
                    k1 % 2 == 1,
                    k2 % 2 == 1,
                );
            }
        }
        assert forall|k: int| 0 <= k < r@.len() implies s.contains((#[trigger] r@[k])@) by {
            assert(synth_at(l, lp, dv, exts, r@, k));
            assert(0 <= k / 2 < exts.len());
            assert(synth_hit(l, lp, dv, exts, k / 2, k % 2 == 1, (r@[k])@));
        }
        assert forall|u: Seq<char>| s.contains(u) implies listed(r@, u) by {
            let (x2, blog) = choose|x2: int, blog: bool| #[trigger] synth_hit(
                l,
                lp,
                dv,
                exts,
                x2,
                blog,
                u,
            );
            let k: int = if blog {
                2 * x2 + 1
            } else {
                2 * x2
            };
            assert(k / 2 == x2 && (k % 2 == 1) == blog);
            assert(synth_at(l, lp, dv, exts, r@, k));
            assert((r@[k])@ == u);
        }
    }
    r
}

} // verus!
