use vstd::prelude::*;
use crate::query::{page_url, page_url_of};
use crate::record::{before_cutoff, lex_less, PullRequest};

verus! {

/// No author is scanned past this many pages.
pub const MAX_PAGES: u64 = 99;

/// What one page request brought back.
pub enum PageEvent {
    /// The page's records, in the order the endpoint gave them (possibly none).
    Page(Vec<PullRequest>),
    /// The endpoint has no more data for this query.
    EndOfPages,
}

/// Why the scan of one author ended.
#[derive(Debug, PartialEq, Eq, Structural, Clone, Copy)]
pub enum StopReason {
    EndOfPages,
    CutoffReached,
    PageLimitReached,
}

/// The index of the first record at or after `from` that was created before the cutoff,
/// or the length of `recs` when there is none.
pub open spec fn first_before(recs: Seq<PullRequest>, cutoff: Seq<char>, from: int) -> int
    decreases recs.len() - from,
{
    if from < 0 || from >= recs.len() {
        recs.len() as int
    } else if before_cutoff(recs[from], cutoff) {
        from
    } else {
        first_before(recs, cutoff, from + 1)
    }
}

/// How many records of a page are kept: those before its first record created before the cutoff.
pub open spec fn kept_len(recs: Seq<PullRequest>, cutoff: Seq<char>) -> int {
    first_before(recs, cutoff, 0)
}

/// The records of a page event that the scan accepts.
pub open spec fn accepted(ev: PageEvent, cutoff: Seq<char>) -> Seq<PullRequest> {
    match ev {
        PageEvent::Page(recs) => recs@.take(kept_len(recs@, cutoff)),
        PageEvent::EndOfPages => Seq::empty(),
    }
}

/// Whether and why the scan stops after receiving `ev` for page `page`.
pub open spec fn stop_after(page: nat, ev: PageEvent, cutoff: Seq<char>) -> Option<StopReason> {
    match ev {
        PageEvent::EndOfPages => Some(StopReason::EndOfPages),
        PageEvent::Page(recs) => if kept_len(recs@, cutoff) < recs@.len() {
            Some(StopReason::CutoffReached)
        } else if page >= MAX_PAGES {
            Some(StopReason::PageLimitReached)
        } else {
            None
        },
    }
}

proof fn lemma_first_before(recs: Seq<PullRequest>, cutoff: Seq<char>, from: int)
    requires
        0 <= from <= recs.len(),
    ensures
        from <= first_before(recs, cutoff, from) <= recs.len(),
        forall|i: int|
            from <= i < first_before(recs, cutoff, from) ==> !before_cutoff(
                #[trigger] recs[i],
                cutoff,
            ),
        first_before(recs, cutoff, from) < recs.len() ==> before_cutoff(
            recs[first_before(recs, cutoff, from)],
            cutoff,
        ),
    decreases recs.len() - from,
{
    if from < recs.len() && !before_cutoff(recs[from], cutoff) {
        lemma_first_before(recs, cutoff, from + 1);
    }
}

/// The records kept from a page are exactly its longest prefix with no record created
/// before the cutoff.
pub proof fn lemma_kept_prefix(recs: Seq<PullRequest>, cutoff: Seq<char>)
    ensures
        0 <= kept_len(recs, cutoff) <= recs.len(),
        forall|i: int| 0 <= i < kept_len(recs, cutoff) ==> !before_cutoff(#[trigger] recs[i], cutoff),
        kept_len(recs, cutoff) < recs.len() ==> before_cutoff(recs[kept_len(recs, cutoff)], cutoff),
{
    lemma_first_before(recs, cutoff, 0);
}

/// The scan of one author's pages, one page request at a time.
pub struct AuthorScan {
    /// The author's query, without a page parameter.
    pub base_url: String,
    /// Records created before this timestamp end the scan.
    pub cutoff: String,
    /// The page requested next, counted from 1.
    pub page: u64,
    /// Set once the scan has ended.
    pub stopped: Option<StopReason>,
}

impl AuthorScan {
    pub open spec fn wf(&self) -> bool {
        1 <= self.page <= MAX_PAGES
    }

    /// A scan that will request page 1 of `base_url` first.
    pub fn new(base_url: String, cutoff: String) -> (r: AuthorScan)
        ensures
            r.wf(),
            r.base_url == base_url,
            r.cutoff == cutoff,
            r.page == 1,
            r.stopped.is_none(),
    {
        AuthorScan { base_url, cutoff, page: 1, stopped: None }
    }

    /// The address of the next page to request, or `None` once the scan has ended.
    pub fn next_page_url(&self) -> (r: Option<String>)
        ensures
            r is None <==> self.stopped is Some,
            r matches Some(u) ==> u@ == page_url(self.base_url@, self.page as nat),
    {
        if self.stopped.is_some() {
            None
        } else {
            Some(page_url_of(self.base_url.as_str(), self.page))
        }
    }

    /// Takes in the answer to the latest page request and returns the records accepted from it.
    /// A record created before the cutoff ends the scan and drops the rest of its page; the end
    /// marker ends it; so does a full page at the page limit. Otherwise the next page is due.
    pub fn take_page(&mut self, ev: PageEvent) -> (r: Vec<PullRequest>)
        requires
            old(self).wf(),
            old(self).stopped is None,
        ensures
            final(self).wf(),
            final(self).base_url == old(self).base_url,
            final(self).cutoff == old(self).cutoff,
            final(self).stopped == stop_after(old(self).page as nat, ev, old(self).cutoff@),
            final(self).page == if final(self).stopped is None {
                old(self).page + 1
            } else {
                old(self).page as int
            },
            r@ == accepted(ev, old(self).cutoff@),
    {
        match ev {
            PageEvent::EndOfPages => {
                self.stopped = Some(StopReason::EndOfPages);
                let none: Vec<PullRequest> = Vec::new();
                assert(none@ =~= accepted(ev, self.cutoff@));
                none
            },
            PageEvent::Page(recs) => {
                let ghost cutoff = self.cutoff@;
                proof {
                    lemma_kept_prefix(recs@, cutoff);
                }
                let n = recs.len();
                let mut i: usize = 0;
                while i < n
                    invariant
                        n == recs@.len(),
                        cutoff == self.cutoff@,
                        i <= kept_len(recs@, cutoff),
                        first_before(recs@, cutoff, i as int) == kept_len(recs@, cutoff),
                    ensures
                        i == kept_len(recs@, cutoff),
                    decreases n - i,
                {
                    if lex_less(recs[i].created_at.as_str(), self.cutoff.as_str()) {
                        break;
                    }
                    proof {
                        lemma_first_before(recs@, cutoff, i + 1);
                    }
                    i = i + 1;
                }
                let cut = i < n;
                let mut kept = recs;
                kept.truncate(i);
                assert(kept@ =~= recs@.take(i as int));
                if cut {
                    self.stopped = Some(StopReason::CutoffReached);
                } else if self.page >= MAX_PAGES {
                    self.stopped = Some(StopReason::PageLimitReached);
                } else {
                    self.page = self.page + 1;
                }
                kept
            },
        }
    }
}

/// Scanning one author from page `page` on, against an endpoint that answers a request for
/// page `p` with `api(p)`: how many pages were requested, the records accepted in order, and
/// why the scan ended. Each step is what `next_page_url` and `take_page` do.
pub open spec fn scan_from(page: nat, cutoff: Seq<char>, api: spec_fn(nat) -> PageEvent) -> (
    nat,
    Seq<PullRequest>,
    StopReason,
)
    decreases MAX_PAGES - page,
{
    let ev = api(page);
    match stop_after(page, ev, cutoff) {
        Some(why) => (1, accepted(ev, cutoff), why),
        None => if page < MAX_PAGES {
            let rest = scan_from(page + 1, cutoff, api);
            (rest.0 + 1, accepted(ev, cutoff) + rest.1, rest.2)
        } else {
            (1, accepted(ev, cutoff), StopReason::PageLimitReached)
        },
    }
}

/// No record accepted while scanning an author was created before the cutoff.
pub proof fn law_nothing_before_cutoff(page: nat, cutoff: Seq<char>, api: spec_fn(nat) -> PageEvent)
    ensures
        forall|i: int|
            0 <= i < scan_from(page, cutoff, api).1.len() ==> !before_cutoff(
                #[trigger] scan_from(page, cutoff, api).1[i],
                cutoff,
            ),
    decreases MAX_PAGES - page,
{
    let ev = api(page);
    let here = accepted(ev, cutoff);
    assert forall|i: int| 0 <= i < here.len() implies !before_cutoff(#[trigger] here[i], cutoff) by {
        if let PageEvent::Page(recs) = ev {
            lemma_kept_prefix(recs@, cutoff);
            assert(here[i] == recs@[i]);
        }
    }
    if stop_after(page, ev, cutoff) is None && page < MAX_PAGES {
        law_nothing_before_cutoff(page + 1, cutoff, api);
        let all = scan_from(page, cutoff, api).1;
        let rest = scan_from(page + 1, cutoff, api).1;
        assert(all == here + rest);
        assert forall|i: int| 0 <= i < all.len() implies !before_cutoff(#[trigger] all[i], cutoff) by {
            if i >= here.len() {
                assert(all[i] == rest[i - here.len()]);
            }
        }
    }
}

/// However the endpoint answers, an author's scan makes at least one and at most
/// `MAX_PAGES + 1 - page` page requests from page `page` on: at most `MAX_PAGES` from page 1.
pub proof fn law_page_limit(page: nat, cutoff: Seq<char>, api: spec_fn(nat) -> PageEvent)
    requires
        1 <= page <= MAX_PAGES,
    ensures
        1 <= scan_from(page, cutoff, api).0 <= MAX_PAGES + 1 - page,
    decreases MAX_PAGES - page,
{
    if stop_after(page, api(page), cutoff) is None && page < MAX_PAGES {
        law_page_limit(page + 1, cutoff, api);
    }
}

/// A page holding no record created before the cutoff.
pub open spec fn full_page(ev: PageEvent, cutoff: Seq<char>) -> bool {
    &&& ev is Page
    &&& forall|i: int|
        0 <= i < ev->Page_0@.len() ==> !before_cutoff(#[trigger] ev->Page_0@[i], cutoff)
}

proof fn lemma_full_page_kept(ev: PageEvent, cutoff: Seq<char>)
    requires
        full_page(ev, cutoff),
    ensures
        kept_len(ev->Page_0@, cutoff) == ev->Page_0@.len(),
        accepted(ev, cutoff) == ev->Page_0@,
{
    let recs = ev->Page_0@;
    lemma_kept_prefix(recs, cutoff);
    if kept_len(recs, cutoff) < recs.len() {
        assert(!before_cutoff(recs[kept_len(recs, cutoff)], cutoff));
    }
    assert(recs.take(recs.len() as int) =~= recs);
}

/// The records of pages `from` to `last`, page after page.
pub open spec fn flat_pages(from: nat, last: nat, api: spec_fn(nat) -> PageEvent) -> Seq<PullRequest>
    decreases last + 1 - from,
{
    if from > last {
        Seq::empty()
    } else {
        api(from)->Page_0@ + flat_pages(from + 1, last, api)
    }
}

/// Where pages `page` to `last` are full pages and the page after `last` is the end marker,
/// the scan requests every one of them and the end marker, accepts every record of those pages in
/// order, and then stops at the end marker.
pub proof fn law_pages_then_end(page: nat, last: nat, cutoff: Seq<char>, api: spec_fn(nat) -> PageEvent)
    requires
        1 <= page <= last + 1,
        last < MAX_PAGES,
        forall|p: nat| page <= p <= last ==> full_page(#[trigger] api(p), cutoff),
        api(last + 1) is EndOfPages,
    ensures
        scan_from(page, cutoff, api).0 == last + 2 - page,
        scan_from(page, cutoff, api).1 == flat_pages(page, last, api),
        scan_from(page, cutoff, api).2 == StopReason::EndOfPages,
    decreases last + 1 - page,
{
    if page <= last {
        assert(full_page(api(page), cutoff));
        lemma_full_page_kept(api(page), cutoff);
        law_pages_then_end(page + 1, last, cutoff, api);
    }
}

/// Where the page requested holds a record created before the cutoff, the scan keeps the records
/// in front of the first such record, drops it and the rest of the page, and requests nothing more.
pub proof fn law_cut_page(page: nat, cutoff: Seq<char>, api: spec_fn(nat) -> PageEvent, j: int)
    requires
        api(page) is Page,
        0 <= j < api(page)->Page_0@.len(),
        before_cutoff(api(page)->Page_0@[j], cutoff),
    ensures
        ({
            let recs = api(page)->Page_0@;
            let (n, acc, why) = scan_from(page, cutoff, api);
            &&& n == 1
            &&& why == StopReason::CutoffReached
            &&& acc.len() <= j
            &&& acc == recs.take(acc.len() as int)
            &&& before_cutoff(recs[acc.len() as int], cutoff)
            &&& forall|i: int| 0 <= i < acc.len() ==> !before_cutoff(#[trigger] recs[i], cutoff)
        }),
{
    let recs = api(page)->Page_0@;
    lemma_kept_prefix(recs, cutoff);
}

proof fn lemma_same_up_to_cut(r1: Seq<PullRequest>, r2: Seq<PullRequest>, cutoff: Seq<char>, j: int, from: int)
    requires
        0 <= from <= j,
        j < r1.len(),
        j < r2.len(),
        before_cutoff(r1[j], cutoff),
        r1.take(j + 1) == r2.take(j + 1),
    ensures
        first_before(r1, cutoff, from) == first_before(r2, cutoff, from),
        first_before(r1, cutoff, from) <= j,
    decreases j - from,
{
    assert(r1[from] == r1.take(j + 1)[from]);
    assert(r2[from] == r2.take(j + 1)[from]);
    if from < j {
        lemma_same_up_to_cut(r1, r2, cutoff, j, from + 1);
    }
}

/// Two pages that agree up to and including a record created before the cutoff are taken alike,
/// whatever follows that record on either of them.
pub proof fn law_page_rest_ignored(
    v1: Vec<PullRequest>,
    v2: Vec<PullRequest>,
    cutoff: Seq<char>,
    j: int,
    page: nat,
)
    requires
        0 <= j < v1@.len(),
        j < v2@.len(),
        before_cutoff(v1@[j], cutoff),
        v1@.take(j + 1) == v2@.take(j + 1),
    ensures
        accepted(PageEvent::Page(v1), cutoff) == accepted(PageEvent::Page(v2), cutoff),
        stop_after(page, PageEvent::Page(v1), cutoff) == stop_after(page, PageEvent::Page(v2), cutoff),
        stop_after(page, PageEvent::Page(v1), cutoff) == Some(StopReason::CutoffReached),
{
    let (r1, r2) = (v1@, v2@);
    lemma_same_up_to_cut(r1, r2, cutoff, j, 0);
    lemma_kept_prefix(r1, cutoff);
    lemma_kept_prefix(r2, cutoff);
    let k = kept_len(r1, cutoff);
    assert(r1.take(k) =~= r1.take(j + 1).take(k));
    assert(r2.take(k) =~= r2.take(j + 1).take(k));
}

/// Two endpoints that answer alike but for one page, whose answers agree up to and including a
/// record created before the cutoff, give the same scan: the rest of that page is never read.
pub proof fn law_scan_ignores_page_rest(
    page: nat,
    cutoff: Seq<char>,
    api1: spec_fn(nat) -> PageEvent,
    api2: spec_fn(nat) -> PageEvent,
    p: nat,
    j: int,
)
    requires
        forall|q: nat| q != p ==> #[trigger] api1(q) == api2(q),
        api1(p) is Page,
        api2(p) is Page,
        0 <= j < api1(p)->Page_0@.len(),
        j < api2(p)->Page_0@.len(),
        before_cutoff(api1(p)->Page_0@[j], cutoff),
        api1(p)->Page_0@.take(j + 1) == api2(p)->Page_0@.take(j + 1),
    ensures
        scan_from(page, cutoff, api1) == scan_from(page, cutoff, api2),
    decreases MAX_PAGES - page,
{
    if page == p {
        law_page_rest_ignored(api1(p)->Page_0, api2(p)->Page_0, cutoff, j, page);
        assert(api1(p) == PageEvent::Page(api1(p)->Page_0));
        assert(api2(p) == PageEvent::Page(api2(p)->Page_0));
    } else {
        assert(api1(page) == api2(page));
        if stop_after(page, api1(page), cutoff) is None && page < MAX_PAGES {
            law_scan_ignores_page_rest(page + 1, cutoff, api1, api2, p, j);
        }
    }
}

/// The records a run has accepted so far, over all its authors, in the order they came.
pub struct Harvest {
    /// Records created before this timestamp are never held.
    pub cutoff: String,
    pub records: Vec<PullRequest>,
}

/// Records that may be held against this cutoff.
pub open spec fn holdable(cutoff: Seq<char>) -> spec_fn(PullRequest) -> bool {
    |r: PullRequest| !before_cutoff(r, cutoff)
}

impl Harvest {
    /// Every record held was created at or after the cutoff.
    pub open spec fn wf(&self) -> bool {
        forall|i: int|
            0 <= i < self.records@.len() ==> !before_cutoff(#[trigger] self.records@[i], self.cutoff@)
    }

    /// An empty harvest for one run.
    pub fn new(cutoff: String) -> (r: Harvest)
        ensures
            r.wf(),
            r.cutoff == cutoff,
            r.records@.len() == 0,
    {
        Harvest { cutoff, records: Vec::new() }
    }

    /// A scan of one author against this harvest's cutoff.
    pub fn start_author(&self, base_url: String) -> (r: AuthorScan)
        ensures
            r.wf(),
            r.base_url == base_url,
            r.cutoff == self.cutoff,
            r.page == 1,
            r.stopped is None,
    {
        AuthorScan::new(base_url, self.cutoff.clone())
    }

    /// Appends, in order, those of `recs` that were not created before the cutoff: with records
    /// that a scan against the same cutoff accepted, all of them.
    pub fn absorb(&mut self, recs: Vec<PullRequest>)
        requires
            old(self).wf(),
        ensures
            final(self).wf(),
            final(self).cutoff == old(self).cutoff,
            final(self).records@ == old(self).records@ + recs@.filter(holdable(old(self).cutoff@)),
            (forall|i: int| 0 <= i < recs@.len() ==> !before_cutoff(#[trigger] recs@[i], old(self).cutoff@))
                ==> final(self).records@ == old(self).records@ + recs@,
    {
        let ghost start = self.records@;
        let ghost keep = holdable(self.cutoff@);
        let n = recs.len();
        let mut i: usize = 0;
        proof {
            reveal(Seq::filter);
            assert(recs@.take(0) =~= Seq::<PullRequest>::empty());
            assert(start + recs@.take(0).filter(keep) =~= start);
        }
        while i < n
            invariant
                n == recs@.len(),
                i <= n,
                self.wf(),
                keep == holdable(self.cutoff@),
                self.cutoff == old(self).cutoff,
                self.records@ == start + recs@.take(i as int).filter(keep),
                (forall|k: int| 0 <= k < recs@.len() ==> !before_cutoff(#[trigger] recs@[k], self.cutoff@))
                    ==> recs@.take(i as int).filter(keep) == recs@.take(i as int),
            decreases n - i,
        {
            proof {
                reveal(Seq::filter);
            }
            assert(recs@.take(i + 1).drop_last() =~= recs@.take(i as int));
            assert(recs@.take(i + 1).last() == recs@[i as int]);
            if !lex_less(recs[i].created_at.as_str(), self.cutoff.as_str()) {
                self.records.push(recs[i].duplicate());
                assert(self.records@ =~= start + recs@.take(i + 1).filter(keep));
            } else {
                assert(self.records@ =~= start + recs@.take(i + 1).filter(keep));
            }
            i = i + 1;
        }
        assert(recs@.take(n as int) =~= recs@);
    }
}

} // verus!
