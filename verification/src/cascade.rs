//! The priority cascade.
//!
//! Per item the four strategies are ranked: direct source, embedded media,
//! body scan, slug synthesis.  The first strategy that yields candidates of
//! which at least one is confirmed contributes exactly its confirmed
//! candidates; every later strategy is left alone.  `cascade_spec` states
//! that rule against an oracle — the set of addresses the origin server
//! would confirm — and the laws at the end of this module are proved of
//! it.  `filter_verified` is the executable half: it selects, out of one
//! probed candidate list, exactly the candidates whose probe answered yes.

use vstd::prelude::*;

use crate::extract::ItemView;
use crate::extract::ListingItem;
use crate::extract::body_candidates;
use crate::extract::direct_candidates;
use crate::extract::distinct_strings;
use crate::extract::embedded_candidates;
use crate::extract::link_date_candidates;
use crate::extract::represents;
use crate::extract::strategy_body;
use crate::extract::strategy_direct;
use crate::extract::strategy_embedded;
use crate::extract::strategy_link_date;
use crate::mime::MimeRegistry;
use crate::mime::ext_seqs;
use crate::pattern::char_views;
use crate::pattern::listed;

verus! {

/// The candidate set of the strategy ranked `stage`, from best to most
/// speculative.
pub open spec fn stage_set(item: ItemView, exts: Seq<Seq<char>>, stage: int) -> Set<Seq<char>> {
    if stage == 0 {
        direct_candidates(item)
    } else if stage == 1 {
        embedded_candidates(item)
    } else if stage == 2 {
        body_candidates(item, exts)
    } else {
        link_date_candidates(item, exts)
    }
}

/// The candidates of the strategy ranked `stage`, each distinct address
/// once.
pub fn stage_candidates(item: &ListingItem, reg: &MimeRegistry, stage: u8) -> (r: Vec<String>)
    requires
        reg.wf(),
    ensures
        represents(r@, stage_set(item@, ext_seqs(reg@), stage as int)),
{
    if stage == 0 {
        strategy_direct(item)
    } else if stage == 1 {
        strategy_embedded(item)
    } else if stage == 2 {
        let exts = reg.extension_chars();
        let r = strategy_body(item, &exts);
        proof {
            assert(char_views(exts@) =~= ext_seqs(reg@));
        }
        r
    } else {
        strategy_link_date(item, reg)
    }
}

/// The candidate at `i` was probed and confirmed, and reads `u`.
pub open spec fn verdict_hit(cands: Seq<String>, v: Seq<bool>, i: int, u: Seq<char>) -> bool {
    0 <= i < cands.len() && i < v.len() && v[i] && (cands[i])@ == u
}

/// The confirmed subset of one probed candidate list: the candidates whose
/// verdict answered yes.  A verdict list shorter than the candidate list
/// confirms only the candidates it reaches.
pub open spec fn accepted_of(cands: Seq<String>, v: Seq<bool>) -> Set<Seq<char>> {
    Set::new(|u: Seq<char>| exists|i: int| #[trigger] verdict_hit(cands, v, i, u))
}

/// The `k`-th selected candidate comes from the confirmed position
/// recorded for it.
pub open spec fn verdict_witness_ok(
    cands: Seq<String>,
    v: Seq<bool>,
    r: Seq<String>,
    ws: Seq<int>,
    k: int,
) -> bool {
    verdict_hit(cands, v, ws[k], (r[k])@)
}

/// Every confirmed position below `j` is already selected.
pub open spec fn verdict_covered(cands: Seq<String>, v: Seq<bool>, r: Seq<String>, j: int) -> bool {
    (0 <= j < cands.len() && j < v.len() && v[j]) ==> listed(r, (cands[j])@)
}

/// Selects exactly the candidates whose probe confirmed them, in order.
#[verifier::loop_isolation(false)]
pub fn filter_verified(cands: &Vec<String>, verdicts: &Vec<bool>) -> (r: Vec<String>)
    requires
        distinct_strings(cands@),
    ensures
        represents(r@, accepted_of(cands@, verdicts@)),
{
    let mut r: Vec<String> = Vec::new();
    let mut ws: Ghost<Seq<int>> = Ghost(Seq::empty());
    let n = if verdicts.len() < cands.len() {
        verdicts.len()
    } else {
        cands.len()
    };
    let mut i: usize = 0;
    while i < n
        invariant
            i <= n <= cands@.len(),
            n == if verdicts@.len() < cands@.len() {
                verdicts@.len() as int
            } else {
                cands@.len() as int
            },
            ws@.len() == r@.len(),
            forall|k: int|
                0 <= k < r@.len() ==> #[trigger] verdict_witness_ok(
                    cands@,
                    verdicts@,
                    r@,
                    ws@,
                    k,
                ),
            forall|k1: int, k2: int| 0 <= k1 < k2 < r@.len() ==> ws@[k1] < ws@[k2],
            forall|k: int| 0 <= k < r@.len() ==> ws@[k] < i,
            forall|j: int| 0 <= j < i ==> #[trigger] verdict_covered(cands@, verdicts@, r@, j),
        decreases n - i,
    {
        let ghost r_prev = r@;
        let ghost ws_prev = ws@;
        if verdicts[i] {
            let c = cands[i].clone();
            let ghost cv = c@;
            assert(cv == (cands@[i as int])@);
            r.push(c);
            ws = Ghost(ws@.push(i as int));
            assert((r@[r@.len() - 1])@ == cv);
            proof {
                assert(verdict_hit(cands@, verdicts@, i as int, cv));
                assert forall|k: int|
                    0 <= k < r@.len() implies #[trigger] verdict_witness_ok(
                    cands@,
                    verdicts@,
                    r@,
                    ws@,
                    k,
                ) by {
                    if k < r_prev.len() {
                        assert(r@[k] == r_prev[k]);
                        assert(ws@[k] == ws_prev[k]);
                        assert(verdict_witness_ok(cands@, verdicts@, r_prev, ws_prev, k));
                    } else {
                        assert(ws@[k] == i as int);
                        assert((r@[k])@ == cv);
                    }
                }
                assert forall|j: int|
                    0 <= j < i + 1 implies #[trigger] verdict_covered(
                    cands@,
                    verdicts@,
                    r@,
                    j,
                ) by {
                    if j < i {
                        assert(verdict_covered(cands@, verdicts@, r_prev, j));
                        if 0 <= j < cands@.len() && j < verdicts@.len() && verdicts@[j] {
                            crate::pattern::lemma_listed_grow(r_prev, r@, (cands@[j])@);
                        }
                    } else {
                        assert(listed(r@, (cands@[j])@));
                    }
                }
            }
        } else {
            proof {
                assert forall|j: int|
                    0 <= j < i + 1 implies #[trigger] verdict_covered(
                    cands@,
                    verdicts@,
                    r@,
                    j,
                ) by {
                    if j < i {
                        assert(verdict_covered(cands@, verdicts@, r@, j));
                    }
                }
            }
        }
        i += 1;
    }
    proof {
        let s = accepted_of(cands@, verdicts@);
        assert forall|k: int| 0 <= k < r@.len() implies s.contains((#[trigger] r@[k])@) by {
            assert(verdict_witness_ok(cands@, verdicts@, r@, ws@, k));
            assert(verdict_hit(cands@, verdicts@, ws@[k], (r@[k])@));
        }
        assert forall|u: Seq<char>| s.contains(u) implies listed(r@, u) by {
            let j = choose|j: int| #[trigger] verdict_hit(cands@, verdicts@, j, u);
            assert(j < n);
            assert(verdict_covered(cands@, verdicts@, r@, j));
        }
        assert forall|k1: int, k2: int|
            0 <= k1 < k2 < r@.len() implies r@[k1]@ != r@[k2]@ by {
            assert(verdict_witness_ok(cands@, verdicts@, r@, ws@, k1));
            assert(verdict_witness_ok(cands@, verdicts@, r@, ws@, k2));
            assert(ws@[k1] < ws@[k2]);
        }
    }
    r
}

/// Law: when every verdict agrees with a fixed oracle of confirmed
/// addresses — as it does against unchanged remote state — the selected
/// subset of a probed strategy set is exactly that set's intersection with
/// the oracle, which is what `cascade_spec` folds over.
pub proof fn lemma_accepted_matches_oracle(
    cands: Seq<String>,
    v: Seq<bool>,
    s: Set<Seq<char>>,
    oracle: Set<Seq<char>>,
)
    requires
        v.len() == cands.len(),
        forall|i: int|
            0 <= i < cands.len() ==> (v[i] <==> oracle.contains((#[trigger] cands[i])@)),
        forall|k: int| 0 <= k < cands.len() ==> s.contains((#[trigger] cands[k])@),
        forall|u: Seq<char>| s.contains(u) ==> crate::pattern::listed(cands, u),
    ensures
        accepted_of(cands, v) == s.intersect(oracle),
{
    assert forall|u: Seq<char>|
        accepted_of(cands, v).contains(u) implies s.intersect(oracle).contains(u) by {
        let i = choose|i: int| #[trigger] verdict_hit(cands, v, i, u);
        assert(s.contains((cands[i])@));
        assert(oracle.contains((cands[i])@));
    }
    assert forall|u: Seq<char>|
        s.intersect(oracle).contains(u) implies accepted_of(cands, v).contains(u) by {
        assert(crate::pattern::listed(cands, u));
        let k = choose|k: int| 0 <= k < cands.len() && (#[trigger] cands[k])@ == u;
        assert(verdict_hit(cands, v, k, u));
    }
    assert(accepted_of(cands, v) =~= s.intersect(oracle));
}

/// Whether a set has any member.
pub open spec fn set_nonempty(s: Set<Seq<char>>) -> bool {
    exists|u: Seq<char>| s.contains(u)
}

/// What one item contributes under a fixed oracle of confirmed addresses:
/// the confirmed part of the best-ranked strategy that has one, and
/// nothing when no strategy does.
pub open spec fn cascade_spec(item: ItemView, exts: Seq<Seq<char>>, oracle: Set<Seq<char>>) -> Set<
    Seq<char>,
> {
    if set_nonempty(direct_candidates(item).intersect(oracle)) {
        direct_candidates(item).intersect(oracle)
    } else if set_nonempty(embedded_candidates(item).intersect(oracle)) {
        embedded_candidates(item).intersect(oracle)
    } else if set_nonempty(body_candidates(item, exts).intersect(oracle)) {
        body_candidates(item, exts).intersect(oracle)
    } else if set_nonempty(link_date_candidates(item, exts).intersect(oracle)) {
        link_date_candidates(item, exts).intersect(oracle)
    } else {
        Set::empty()
    }
}

/// What one page contributes: the union over its items.
pub open spec fn page_accepted(
    items: Seq<ItemView>,
    exts: Seq<Seq<char>>,
    oracle: Set<Seq<char>>,
) -> Set<Seq<char>>
    decreases items.len(),
{
    if items.len() == 0 {
        Set::empty()
    } else {
        cascade_spec(items[0], exts, oracle).union(
            page_accepted(items.drop_first(), exts, oracle),
        )
    }
}

/// What a whole crawl contributes: the union over its pages.
pub open spec fn crawl_accepted(
    pages: Seq<Seq<ItemView>>,
    exts: Seq<Seq<char>>,
    oracle: Set<Seq<char>>,
) -> Set<Seq<char>>
    decreases pages.len(),
{
    if pages.len() == 0 {
        Set::empty()
    } else {
        page_accepted(pages[0], exts, oracle).union(
            crawl_accepted(pages.drop_first(), exts, oracle),
        )
    }
}

/// Law: when no direct-source candidate is confirmed but some embedded
/// candidate is, the item contributes exactly the confirmed embedded
/// candidates — and the outcome is the same for any item that shares the
/// source and embedded fields, whatever its body, excerpt, link or date
/// hold: the lower-ranked strategies are never consulted.
pub proof fn lemma_cascade_priority(
    item: ItemView,
    other: ItemView,
    exts: Seq<Seq<char>>,
    oracle: Set<Seq<char>>,
)
    requires
        forall|u: Seq<char>| direct_candidates(item).contains(u) ==> !oracle.contains(u),
        set_nonempty(embedded_candidates(item).intersect(oracle)),
        other.source_url == item.source_url,
        other.featured_media == item.featured_media,
    ensures
        cascade_spec(item, exts, oracle) == embedded_candidates(item).intersect(oracle),
        cascade_spec(other, exts, oracle) == cascade_spec(item, exts, oracle),
{
    assert(!set_nonempty(direct_candidates(item).intersect(oracle))) by {
        assert forall|u: Seq<char>|
            !(direct_candidates(item).intersect(oracle).contains(u)) by {
            if direct_candidates(item).contains(u) && oracle.contains(u) {
                assert(false);
            }
        }
    }
    assert(direct_candidates(other) == direct_candidates(item));
    assert(embedded_candidates(other) == embedded_candidates(item)) by {
        assert(other.featured_media == item.featured_media);
    }
}

/// Law: re-running a crawl against unchanged remote state — the same pages
/// and the same set of confirmable addresses — with the same registry
/// yields the same confirmed result set.
pub proof fn lemma_crawl_idempotent(
    pages1: Seq<Seq<ItemView>>,
    pages2: Seq<Seq<ItemView>>,
    exts1: Seq<Seq<char>>,
    exts2: Seq<Seq<char>>,
    oracle1: Set<Seq<char>>,
    oracle2: Set<Seq<char>>,
)
    requires
        pages1 == pages2,
        exts1 == exts2,
        oracle1 == oracle2,
    ensures
        crawl_accepted(pages1, exts1, oracle1) == crawl_accepted(pages2, exts2, oracle2),
{
}

} // verus!
