//! The crawl itself, as a step machine.
//!
//! Network traffic is the caller's: the machine names the next request as
//! an `Action` — fetch a listing page, or probe a list of candidate
//! addresses — and consumes the answer as an `Event`.  Between the two it
//! holds every decision the crawl makes: it follows the pagination header
//! until no next page is named, walks each page's items, tries the four
//! strategies in priority order, keeps exactly the candidates whose probes
//! confirmed them, and accumulates the confirmed addresses into one
//! deduplicated result set that only ever grows.  A failed listing request
//! ends the crawl with an error; a failed probe merely leaves a candidate
//! unconfirmed.

use vstd::prelude::*;
use vstd::string::StringExecFns;

use crate::cascade::accepted_of;
use crate::cascade::filter_verified;
use crate::cascade::stage_candidates;
use crate::cascade::stage_set;
use crate::config::FinderConfig;
use crate::error::FinderError;
use crate::extract::ListingItem;
use crate::extract::distinct_strings;
use crate::extract::item_views;
use crate::extract::extend_unique;
use crate::extract::represents;
use crate::mime::MimeRegistry;
use crate::mime::ext_seqs;
use crate::num::dec_of;
use crate::num::u16_dec;
use crate::page::get_next_link_from_headers;
use crate::page::link_next;
use crate::page::page_items_of;
use crate::page::parse_page;
use crate::pattern::listed;
use crate::query::build_url_from_config;
use crate::query::query_url;
use crate::text::clone_strings;

verus! {

/// What the machine asks its caller to do next.
pub enum Action {
    /// Request this listing page and hand back the response.
    Fetch(String),
    /// Probe these candidate addresses and hand back one verdict each.
    Probe(Vec<String>),
    /// The crawl is over; these are the confirmed addresses.
    Finished(Vec<String>),
    /// The crawl is over; it failed for this reason.
    Failed(FinderError),
}

/// What the caller hands back.
pub enum Event {
    /// A listing page answered: its status, its `link` header if any, and
    /// its body.
    Response { status: u16, link: Option<String>, body: String },
    /// A listing request could not be carried out at all.
    TransportFailed(String),
    /// One verdict per probed candidate, in order: confirmed or not.
    Verdicts(Vec<bool>),
}

/// Every strategy set in the cursor range from `(fi, fs)` inclusive up to
/// `(ti, ts)` exclusive — ordered by item, then stage — is empty: nothing
/// in that range was worth probing.
pub open spec fn stages_empty_between(
    items: Seq<crate::extract::ItemView>,
    exts: Seq<Seq<char>>,
    fi: int,
    fs: int,
    ti: int,
    ts: int,
) -> bool {
    forall|j: int, t: int|
        0 <= j < items.len() && 0 <= t <= 3 && (j > fi || (j == fi && t >= fs)) && (j < ti || (j
            == ti && t < ts)) ==> !crate::cascade::set_nonempty(
            #[trigger] stage_set(items[j], exts, t),
        )
}

/// The status a response answer carries.
pub open spec fn response_status(e: Event) -> u16 {
    match e {
        Event::Response { status, .. } => status,
        _ => 0,
    }
}

/// The `link` header a response answer carries.
pub open spec fn response_link(e: Event) -> Option<String> {
    match e {
        Event::Response { link, .. } => link,
        _ => None,
    }
}

/// The body text a response answer carries.
pub open spec fn response_body(e: Event) -> Seq<char> {
    match e {
        Event::Response { body, .. } => body@,
        _ => Seq::empty(),
    }
}

/// The description a transport failure carries.
pub open spec fn transport_message(e: Event) -> Seq<char> {
    match e {
        Event::TransportFailed(m) => m@,
        _ => Seq::empty(),
    }
}

/// The verdicts an answer carries, when it is a verdict answer.
pub open spec fn verdict_payload(e: Event) -> Seq<bool> {
    match e {
        Event::Verdicts(v) => v@,
        _ => Seq::empty(),
    }
}

enum Phase {
    Fetching { url: String },
    Probing {
        next: Option<String>,
        items: Vec<ListingItem>,
        item: usize,
        stage: u8,
        cands: Vec<String>,
    },
    Done,
}

/// One crawl invocation.
pub struct Crawler {
    registry: MimeRegistry,
    phase: Phase,
    results: Vec<String>,
}

impl Crawler {
    /// The machine's internal soundness: a usable registry, a duplicate-free
    /// result set, and — while probing — a cursor inside the page whose
    /// pending candidates are exactly the current stage's candidate set.
    pub closed spec fn wf(&self) -> bool {
        &&& self.registry.wf()
        &&& distinct_strings(self.results@)
        &&& match self.phase {
            Phase::Probing { items, item, stage, cands, .. } => {
                &&& (item as int) < items@.len()
                &&& stage <= 3
                &&& cands@.len() > 0
                &&& represents(
                    cands@,
                    stage_set(items@[item as int]@, ext_seqs(self.registry@), stage as int),
                )
            },
            _ => true,
        }
    }

    /// The confirmed addresses accumulated so far.
    pub closed spec fn results(&self) -> Seq<String> {
        self.results@
    }

    /// The crawl has ended.
    pub closed spec fn is_done(&self) -> bool {
        self.phase is Done
    }

    /// A listing request is outstanding.
    pub closed spec fn in_fetch(&self) -> bool {
        self.phase is Fetching
    }

    /// A probe is outstanding.
    pub closed spec fn in_probe(&self) -> bool {
        self.phase is Probing
    }

    /// The candidates of the outstanding probe.
    pub closed spec fn probing_cands(&self) -> Seq<String> {
        match self.phase {
            Phase::Probing { cands, .. } => cands@,
            _ => Seq::empty(),
        }
    }

    /// The items of the page being walked, while probing.
    pub closed spec fn page_items(&self) -> Seq<crate::extract::ItemView> {
        match self.phase {
            Phase::Probing { items, .. } => item_views(items@),
            _ => Seq::empty(),
        }
    }

    /// Which item of the page the outstanding probe is for.
    pub closed spec fn cursor_item(&self) -> int {
        match self.phase {
            Phase::Probing { item, .. } => item as int,
            _ => 0,
        }
    }

    /// Which strategy rank the outstanding probe is for.
    pub closed spec fn cursor_stage(&self) -> int {
        match self.phase {
            Phase::Probing { stage, .. } => stage as int,
            _ => 0,
        }
    }

    /// The registry's extensions, as the strategies see them.
    pub closed spec fn exts(&self) -> Seq<Seq<char>> {
        ext_seqs(self.registry@)
    }

    /// The next-page address to follow once this page is exhausted, while
    /// probing.
    pub closed spec fn pending_next(&self) -> Option<Seq<char>> {
        match self.phase {
            Phase::Probing { next, .. } => crate::config::opt_view(next),
            _ => None,
        }
    }

    /// Starts a crawl: hands back the machine and the first listing URL to
    /// fetch, or refuses a configuration whose base address is empty —
    /// without asking for any request.
    pub fn new(config: &FinderConfig, registry: MimeRegistry) -> (r: Result<
        (Crawler, Action),
        FinderError,
    >)
        requires
            registry.wf(),
        ensures
            r is Err <==> config@.url.len() == 0,
            r matches Err(e) ==> e == FinderError::Configuration,
            r matches Ok(p) ==> {
                &&& p.0.wf()
                &&& p.0.results().len() == 0
                &&& p.0.in_fetch()
                &&& p.1 matches Action::Fetch(u) && u@ == query_url(config@)
            },
    {
        let url = match build_url_from_config(config) {
            Ok(u) => u,
            Err(e) => {
                return Err(e);
            },
        };
        let first = url.clone();
        let crawler = Crawler {
            registry,
            phase: Phase::Fetching { url },
            results: Vec::new(),
        };
        Ok((crawler, Action::Fetch(first)))
    }

    /// Moves the cursor to the next stage — from `start_item` and
    /// `start_stage` on — that yields candidates, and asks for its probe;
    /// when the page is exhausted, asks for the next page or ends the
    /// crawl.
    #[verifier::loop_isolation(false)]
    fn advance(
        &mut self,
        next: Option<String>,
        items: Vec<ListingItem>,
        start_item: usize,
        start_stage: u8,
    ) -> (a: Action)
        requires
            old(self).registry.wf(),
            distinct_strings(old(self).results@),
            start_stage <= 4,
        ensures
            final(self).wf(),
            final(self).results@ == old(self).results@,
            !(a is Failed),
            a matches Action::Fetch(u) ==> final(self).in_fetch(),
            a matches Action::Probe(cs) ==> final(self).in_probe() && cs@ == final(self).probing_cands() && cs@.len() > 0,
            a matches Action::Finished(res) ==> res@ == final(self).results@ && final(self).is_done(),
            final(self).in_probe() ==> final(self).cursor_item() > start_item || (final(self).cursor_item() == start_item && final(self).cursor_stage() >= start_stage),
            final(self).in_probe() ==> final(self).page_items() == item_views(items@)
                && final(self).exts() == ext_seqs(old(self).registry@) && stages_empty_between(
                item_views(items@),
                ext_seqs(old(self).registry@),
                start_item as int,
                start_stage as int,
                final(self).cursor_item(),
                final(self).cursor_stage(),
            ),
            a is Probe <==> !stages_empty_between(
                item_views(items@),
                ext_seqs(old(self).registry@),
                start_item as int,
                start_stage as int,
                items@.len() as int,
                0,
            ),
            a matches Action::Fetch(u) ==> (next matches Some(x) && u@ == x@),
            a is Fetch <==> (stages_empty_between(
                item_views(items@),
                ext_seqs(old(self).registry@),
                start_item as int,
                start_stage as int,
                items@.len() as int,
                0,
            ) && next is Some),
            a is Finished <==> (stages_empty_between(
                item_views(items@),
                ext_seqs(old(self).registry@),
                start_item as int,
                start_stage as int,
                items@.len() as int,
                0,
            ) && next is None),
            final(self).in_probe() ==> final(self).pending_next() == crate::config::opt_view(
                next,
            ),
    {
        let ghost ivs = item_views(items@);
        let ghost exts = ext_seqs(self.registry@);
        let mut it = start_item;
        let mut st = start_stage;
        while it < items.len()
            invariant
                st <= 4,
                self == old(self),
                it >= start_item,
                it == start_item ==> st >= start_stage,
                stages_empty_between(
                    ivs,
                    exts,
                    start_item as int,
                    start_stage as int,
                    it as int,
                    st as int,
                ),
            decreases items@.len() - it, 4 - st,
        {
            if st >= 4 {
                it += 1;
                st = 0;
                assert(stages_empty_between(
                    ivs,
                    exts,
                    start_item as int,
                    start_stage as int,
                    it as int,
                    st as int,
                ));
            } else {
                let cands = stage_candidates(&items[it], &self.registry, st);
                if cands.len() > 0 {
                    proof {
                        assert(ivs[it as int] == items@[it as int]@);
                        assert(stage_set(ivs[it as int], exts, st as int).contains(
                            (cands@[0])@,
                        ));
                        assert(crate::cascade::set_nonempty(
                            stage_set(ivs[it as int], exts, st as int),
                        ));
                        assert(!stages_empty_between(
                            ivs,
                            exts,
                            start_item as int,
                            start_stage as int,
                            items@.len() as int,
                            0,
                        ));
                    }
                    let probe = clone_strings(&cands);
                    self.phase = Phase::Probing { next, items, item: it, stage: st, cands };
                    return Action::Probe(probe);
                }
                proof {
                    assert forall|u: Seq<char>|
                        !(stage_set(ivs[it as int], exts, st as int).contains(u)) by {
                        if stage_set(ivs[it as int], exts, st as int).contains(u) {
                            assert(crate::pattern::listed(cands@, u));
                        }
                    }
                    assert(!crate::cascade::set_nonempty(stage_set(ivs[it as int], exts, st as int)));
                    assert(ivs[it as int] == items@[it as int]@);
                }
                st += 1;
                assert(stages_empty_between(
                    ivs,
                    exts,
                    start_item as int,
                    start_stage as int,
                    it as int,
                    st as int,
                ));
            }
        }
        assert(stages_empty_between(
            ivs,
            exts,
            start_item as int,
            start_stage as int,
            items@.len() as int,
            0,
        ));
        match next {
            Some(u) => {
                let target = u.clone();
                self.phase = Phase::Fetching { url: u };
                Action::Fetch(target)
            },
            None => {
                self.phase = Phase::Done;
                Action::Finished(clone_strings(&self.results))
            },
        }
    }

    /// Consumes one answer and names the next request, which the contract
    /// owes, not merely permits.  A successful listing response must lead
    /// to a probe of the page's first non-empty strategy — or, with none,
    /// to fetching the header's named next page, or to finishing when no
    /// next page is named; only an unreadable body may fail it.  A verdict
    /// answer extends the result set by exactly the confirmed candidates
    /// of the outstanding probe, never fails, and continues by the same
    /// rule — past the item when something was confirmed, at the item's
    /// next strategy rank when nothing was.  A failure status, an
    /// unreadable body or a transport failure ends the crawl with the
    /// stated message.  An answer that does not fit the outstanding
    /// request changes nothing and re-issues the pending action.
    pub fn step(&mut self, event: Event) -> (a: Action)
        requires
            old(self).wf(),
        ensures
            final(self).wf(),
            forall|u: Seq<char>|
                listed(old(self).results(), u) ==> listed(final(self).results(), u),
            event is Verdicts && old(self).in_probe() ==> (forall|u: Seq<char>|
                #![trigger listed(final(self).results(), u)]
                listed(final(self).results(), u) <==> listed(old(self).results(), u)
                    || accepted_of(old(self).probing_cands(), verdict_payload(event)).contains(u)),
            !(old(self).in_probe() && event is Verdicts) ==> final(self).results() == old(
                self,
            ).results(),
            event is Response && old(self).in_fetch() && !(200 <= response_status(event)
                && response_status(event) < 300) ==> (a matches Action::Failed(e) && e matches
            FinderError::Protocol(m) && m@ == "Failed to fetch URL, status code: "@ + dec_of(
                response_status(event) as int,
            ) && final(self).is_done()),
            event is TransportFailed && old(self).in_fetch() ==> (a matches Action::Failed(e)
                && e matches FinderError::Transport(m) && m@ == "Failed to send request: "@
                + transport_message(event) && final(self).is_done()),
            old(self).is_done() ==> final(self).is_done(),
            a matches Action::Finished(res) ==> res@ == final(self).results() && final(self).is_done(),
            a matches Action::Probe(cs) ==> final(self).in_probe() && cs@ == final(self).probing_cands() && cs@.len() > 0,
            a matches Action::Fetch(..) ==> final(self).in_fetch(),
            // once some candidate of an item is confirmed, the machine never
            // probes that item again: its lower-ranked strategies are left
            // alone
            event is Verdicts && old(self).in_probe() && final(self).in_probe()
                && crate::cascade::set_nonempty(
                accepted_of(old(self).probing_cands(), verdict_payload(event)),
            ) ==> final(self).cursor_item() > old(self).cursor_item(),
            // when none is, the same item is tried at its next strategy rank
            event is Verdicts && old(self).in_probe() && final(self).in_probe()
                && !crate::cascade::set_nonempty(
                accepted_of(old(self).probing_cands(), verdict_payload(event)),
            ) ==> final(self).cursor_item() > old(self).cursor_item() || (final(self).cursor_item()
                == old(self).cursor_item() && final(self).cursor_stage() > old(self).cursor_stage()),
            // the next probe is the first stage with candidates: everything
            // passed over on the way there was empty
            event is Verdicts && old(self).in_probe() && final(self).in_probe()
                && crate::cascade::set_nonempty(
                accepted_of(old(self).probing_cands(), verdict_payload(event)),
            ) ==> final(self).page_items() == old(self).page_items() && stages_empty_between(
                old(self).page_items(),
                old(self).exts(),
                old(self).cursor_item() + 1,
                0,
                final(self).cursor_item(),
                final(self).cursor_stage(),
            ),
            event is Verdicts && old(self).in_probe() && final(self).in_probe()
                && !crate::cascade::set_nonempty(
                accepted_of(old(self).probing_cands(), verdict_payload(event)),
            ) ==> final(self).page_items() == old(self).page_items() && stages_empty_between(
                old(self).page_items(),
                old(self).exts(),
                old(self).cursor_item(),
                old(self).cursor_stage() + 1,
                final(self).cursor_item(),
                final(self).cursor_stage(),
            ),
            event is Response && old(self).in_fetch() && final(self).in_probe()
                ==> stages_empty_between(
                final(self).page_items(),
                final(self).exts(),
                0,
                0,
                final(self).cursor_item(),
                final(self).cursor_stage(),
            ),
            // a successful listing response obliges the continuation: the
            // parsed page's first non-empty strategy is probed, an exhausted
            // page is followed to the header's named next page or ends the
            // crawl with the results, and only an unreadable body may fail
            event is Response && old(self).in_fetch() && 200 <= response_status(event)
                && response_status(event) < 300 ==> (match page_items_of(response_body(event)) {
                Some(pis) => {
                    &&& !(a is Failed)
                    &&& (a is Probe <==> !stages_empty_between(
                        pis,
                        old(self).exts(),
                        0,
                        0,
                        pis.len() as int,
                        0,
                    ))
                    &&& (a is Fetch <==> (stages_empty_between(
                        pis,
                        old(self).exts(),
                        0,
                        0,
                        pis.len() as int,
                        0,
                    ) && link_next(response_link(event)) is Some))
                    &&& (a matches Action::Fetch(u) ==> Some(u@) == link_next(response_link(event)))
                    &&& (a is Finished <==> (stages_empty_between(
                        pis,
                        old(self).exts(),
                        0,
                        0,
                        pis.len() as int,
                        0,
                    ) && link_next(response_link(event)) is None))
                    &&& (a is Probe ==> final(self).pending_next() == link_next(
                        response_link(event),
                    ))
                },
                None => (a matches Action::Failed(e) && e matches FinderError::Protocol(..)
                    && final(self).is_done()),
            }),
            // a verdict answer never fails the crawl: probe failures only
            // leave candidates unconfirmed
            event is Verdicts && old(self).in_probe() ==> !(a is Failed),
            // after a verdict the machine continues by the same rule,
            // resuming past the accepted item
            event is Verdicts && old(self).in_probe() && crate::cascade::set_nonempty(
                accepted_of(old(self).probing_cands(), verdict_payload(event)),
            ) ==> {
                &&& (a is Probe <==> !stages_empty_between(
                    old(self).page_items(),
                    old(self).exts(),
                    old(self).cursor_item() + 1,
                    0,
                    old(self).page_items().len() as int,
                    0,
                ))
                &&& (a is Fetch <==> (stages_empty_between(
                    old(self).page_items(),
                    old(self).exts(),
                    old(self).cursor_item() + 1,
                    0,
                    old(self).page_items().len() as int,
                    0,
                ) && old(self).pending_next() is Some))
                &&& (a matches Action::Fetch(u) ==> Some(u@) == old(self).pending_next())
                &&& (a is Finished <==> (stages_empty_between(
                    old(self).page_items(),
                    old(self).exts(),
                    old(self).cursor_item() + 1,
                    0,
                    old(self).page_items().len() as int,
                    0,
                ) && old(self).pending_next() is None))
                &&& (a is Probe ==> final(self).pending_next() == old(self).pending_next())
            },
            // or at the same item's next strategy rank when nothing was
            // confirmed
            event is Verdicts && old(self).in_probe() && !crate::cascade::set_nonempty(
                accepted_of(old(self).probing_cands(), verdict_payload(event)),
            ) ==> {
                &&& (a is Probe <==> !stages_empty_between(
                    old(self).page_items(),
                    old(self).exts(),
                    old(self).cursor_item(),
                    old(self).cursor_stage() + 1,
                    old(self).page_items().len() as int,
                    0,
                ))
                &&& (a is Fetch <==> (stages_empty_between(
                    old(self).page_items(),
                    old(self).exts(),
                    old(self).cursor_item(),
                    old(self).cursor_stage() + 1,
                    old(self).page_items().len() as int,
                    0,
                ) && old(self).pending_next() is Some))
                &&& (a matches Action::Fetch(u) ==> Some(u@) == old(self).pending_next())
                &&& (a is Finished <==> (stages_empty_between(
                    old(self).page_items(),
                    old(self).exts(),
                    old(self).cursor_item(),
                    old(self).cursor_stage() + 1,
                    old(self).page_items().len() as int,
                    0,
                ) && old(self).pending_next() is None))
                &&& (a is Probe ==> final(self).pending_next() == old(self).pending_next())
            },
    {
        let mut ph = Phase::Done;
        core::mem::swap(&mut ph, &mut self.phase);
        match ph {
            Phase::Fetching { url } => match event {
                Event::Response { status, link, body } => {
                    if !(200 <= status && status < 300) {
                        self.phase = Phase::Done;
                        let mut msg = "Failed to fetch URL, status code: ".to_owned();
                        let code = u16_dec(status);
                        msg.append(code.as_str());
                        Action::Failed(FinderError::Protocol(msg))
                    } else {
                        let next = get_next_link_from_headers(&link);
                        proof {
                            assert(crate::config::opt_view(next) == link_next(link));
                        }
                        match parse_page(body.as_str()) {
                            Ok(items) => {
                                proof {
                                    assert(page_items_of(body@) == Some(item_views(items@)));
                                }
                                self.advance(next, items, 0, 0)
                            },
                            Err(e) => {
                                self.phase = Phase::Done;
                                Action::Failed(e)
                            },
                        }
                    }
                },
                Event::TransportFailed(m) => {
                    self.phase = Phase::Done;
                    let mut msg = "Failed to send request: ".to_owned();
                    msg.append(m.as_str());
                    Action::Failed(FinderError::Transport(msg))
                },
                Event::Verdicts(_) => {
                    let target = url.clone();
                    self.phase = Phase::Fetching { url };
                    Action::Fetch(target)
                },
            },
            Phase::Probing { next, items, item, stage, cands } => match event {
                Event::Verdicts(v) => {
                    proof {
                        assert(item < items.len() && stage <= 3);
                        assert(old(self).pending_next() == crate::config::opt_view(next));
                        assert(old(self).page_items() == item_views(items@));
                        assert(old(self).cursor_item() == item as int);
                        assert(old(self).cursor_stage() == stage as int);
                        assert(old(self).exts() == ext_seqs(self.registry@));
                    }
                    let accepted = filter_verified(&cands, &v);
                    let ghost acc_set = accepted_of(cands@, v@);
                    if accepted.len() > 0 {
                        proof {
                            assert(acc_set.contains((accepted@[0])@));
                            assert(crate::cascade::set_nonempty(acc_set));
                        }
                        extend_unique(&mut self.results, &accepted);
                        proof {
                            assert forall|u: Seq<char>|
                                #![trigger listed(self.results@, u)]
                                listed(self.results@, u) <==> listed(old(self).results@, u)
                                    || acc_set.contains(u) by {
                                if listed(self.results@, u) {
                                    if !listed(old(self).results@, u) {
                                        assert(listed(accepted@, u));
                                        let k = choose|k: int|
                                            0 <= k < accepted@.len() && (#[trigger] accepted@[k])@
                                                == u;
                                        assert(acc_set.contains((accepted@[k])@));
                                    }
                                } else {
                                    if acc_set.contains(u) {
                                        assert(listed(accepted@, u));
                                    }
                                }
                            }
                        }
                        self.advance(next, items, item + 1, 0)
                    } else {
                        proof {
                            assert forall|u: Seq<char>| !acc_set.contains(u) by {
                                if acc_set.contains(u) {
                                    assert(listed(accepted@, u));
                                }
                            }
                            assert(!crate::cascade::set_nonempty(acc_set));
                        }
                        self.advance(next, items, item, stage + 1)
                    }
                },
                _ => {
                    let probe = clone_strings(&cands);
                    self.phase = Phase::Probing { next, items, item, stage, cands };
                    Action::Probe(probe)
                },
            },
            Phase::Done => {
                self.phase = Phase::Done;
                Action::Finished(clone_strings(&self.results))
            },
        }
    }
}

/// What an outstanding probe asks about: exactly the candidate set of the
/// strategy ranked `cursor_stage` for the item under `cursor_item`, each
/// candidate once.
pub proof fn lemma_probe_is_stage_probe(c: &Crawler)
    requires
        c.wf(),
        c.in_probe(),
    ensures
        0 <= c.cursor_item() < c.page_items().len(),
        0 <= c.cursor_stage() <= 3,
        represents(
            c.probing_cands(),
            stage_set(c.page_items()[c.cursor_item()], c.exts(), c.cursor_stage()),
        ),
{
    match c.phase {
        Phase::Probing { items, item, stage, cands, .. } => {
            assert(c.page_items()[item as int] == items@[item as int]@);
        },
        _ => {},
    }
}

} // verus!
