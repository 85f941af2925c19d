//! The crawl state machine. It owns every decision of the crawl — paging,
//! link dedupe, failure handling — while the caller performs the outside
//! work (fetching, parsing HTML, extracting text) and hands the outcomes
//! back as events. One listing round is: `on_listing` (or
//! `on_listing_error`), one `on_detail` per scheduled link, then
//! `page_done`.
use vstd::prelude::*;

verus! {

use crate::collector::ResultCollector;
use crate::fetch::FetchError;
use crate::pagination::{parse_current_page, page_counts_readable, total_count};
use crate::query_builder::IndeedQuery;
use crate::records::{Company, Job};

/// Where the crawl stands.
#[derive(Clone, Copy, PartialEq, Eq, Structural, Debug)]
pub enum Phase {
    /// The next listing page should be fetched.
    FetchListing,
    /// The current page's detail fetches are outstanding.
    FetchDetails,
    /// Every page was processed, or the crawl was cancelled.
    Done,
    /// A listing-level failure ended the crawl early.
    Failed,
}

/// One recorded failure. No failure is dropped: each becomes an entry here
/// or ends the crawl as `Failed` with its entry.
#[derive(Debug)]
pub enum CrawlError {
    /// A listing page could not be fetched.
    Listing(FetchError),
    /// The page-count indicator of the first page could not be read.
    Pagination,
    /// A job link did not parse as a URL.
    BadLink(String),
    /// One detail page failed; the crawl went on without it.
    Detail(String, FetchError),
}

/// What the caller extracted from a fetched listing page.
pub struct ListingPage {
    /// The text of the page-count indicator element, if present.
    pub page_info_text: Option<String>,
    /// The raw link text of every job link on the page.
    pub links: Vec<String>,
}

/// The canonical text of a URL, if the text parses as one.
pub uninterp spec fn canon_of(s: Seq<char>) -> Option<Seq<char>>;

/// Relies on `url::Url::parse`: it either rejects the text or yields a URL
/// value, deterministically from the text alone; the `From<Url> for String`
/// impl then reads back that URL's canonical serialization.
#[verifier::external_body]
fn canonicalize(link: &str) -> (r: Option<String>)
    ensures
        r is Some <==> canon_of(link@) is Some,
        r matches Some(c) ==> Some(c@) == canon_of(link@),
{
    match url::Url::parse(link) {
        Ok(u) => Some(String::from(u)),
        Err(_) => None,
    }
}

/// A string of this exact text stands somewhere in the list.
pub open spec fn holds_str(v: Seq<String>, k: Seq<char>) -> bool {
    exists|i: int| 0 <= i < v.len() && v[i]@ == k
}

/// Linear membership scan by text.
fn has_str(v: &Vec<String>, k: &String) -> (r: bool)
    ensures
        r == holds_str(v@, k@),
{
    let mut i: usize = 0;
    while i < v.len()
        invariant
            i <= v@.len(),
            forall|j: int| 0 <= j < i ==> v@[j]@ != k@,
        decreases v@.len() - i,
    {
        if v[i].eq(k) {
            assert(v@[i as int]@ == k@);
            return true;
        }
        i += 1;
    }
    false
}

/// The whole crawl state, owned by one orchestration flow.
pub struct CrawlOrchestrator {
    pub phase: Phase,
    pub current_page: u32,
    pub total_pages: u32,
    pub bootstrapped: bool,
    /// Treat an unreadable page count as a single-page crawl instead of
    /// failing.
    pub fallback_single_page: bool,
    pub listing_fetches: u32,
    /// Canonical URLs scheduled for the current page, each new to the crawl.
    pub pending: Vec<String>,
    /// Every canonical URL ever scheduled.
    pub visited: Vec<String>,
    /// Scheduled items of the current page not yet reported back.
    pub outstanding: usize,
    pub collector: ResultCollector,
    pub errors: Vec<CrawlError>,
    pub query: IndeedQuery,
    pub cancelled: bool,
}

impl CrawlOrchestrator {
    pub open spec fn wf(self) -> bool {
        &&& self.collector.wf()
        &&& self.current_page >= 1
    }

    /// The first page's count indicator can be read from this event.
    pub open spec fn info_readable(page: ListingPage) -> bool {
        page.page_info_text matches Some(t) && page_counts_readable(t@)
    }

    /// The total that `on_listing` adopts on the first page.
    pub open spec fn adopted_total(self, page: ListingPage) -> int {
        if self.bootstrapped {
            self.total_pages as int
        } else if Self::info_readable(page) {
            total_count(page.page_info_text.unwrap()@)
        } else {
            1
        }
    }

    /// The first-page count cannot be read and no fallback is configured:
    /// the crawl must fail.
    pub open spec fn must_fail(self, page: ListingPage) -> bool {
        !self.bootstrapped && !Self::info_readable(page) && !self.fallback_single_page
    }

    /// A fresh crawl over the given query, about to fetch page 1.
    pub fn start(query: IndeedQuery, fallback_single_page: bool) -> (r: CrawlOrchestrator)
        ensures
            r.wf(),
            r.phase == Phase::FetchListing,
            r.current_page == 1,
            !r.bootstrapped,
            r.fallback_single_page == fallback_single_page,
            r.listing_fetches == 0,
            r.pending@.len() == 0,
            r.visited@.len() == 0,
            r.outstanding == 0,
            r.collector.entries@.len() == 0,
            r.errors@.len() == 0,
            r.query == query,
            !r.cancelled,
    {
        CrawlOrchestrator {
            phase: Phase::FetchListing,
            current_page: 1,
            total_pages: 0,
            bootstrapped: false,
            fallback_single_page,
            listing_fetches: 0,
            pending: Vec::new(),
            visited: Vec::new(),
            outstanding: 0,
            collector: ResultCollector::new(),
            errors: Vec::new(),
            query: query,
            cancelled: false,
        }
    }

    /// The query for the page about to be fetched: the base query with
    /// `start` at `(current_page - 1) * limit`. `None` exactly when that
    /// offset does not fit the offset field.
    pub fn page_query(&self) -> (r: Option<IndeedQuery>)
        requires
            self.wf(),
        ensures
            r is Some <==> (self.current_page - 1) * self.query.limit <= u32::MAX,
            r matches Some(q) ==> {
                &&& q.start == (self.current_page - 1) * self.query.limit
                &&& q.limit == self.query.limit
                &&& q.city == self.query.city
                &&& q.sort == self.query.sort
                &&& q.radius == self.query.radius
                &&& q.level == self.query.level
                &&& q.max_age == self.query.max_age
                &&& q.job_type == self.query.job_type
                &&& q.min_salary == self.query.min_salary
                &&& q.contains_all_words@ == self.query.contains_all_words@
                &&& q.has_exact_phrase == self.query.has_exact_phrase
                &&& q.has_any_words@ == self.query.has_any_words@
                &&& q.excludes_all_words@ == self.query.excludes_all_words@
                &&& q.has_words_in_title@ == self.query.has_words_in_title@
                &&& q.company == self.query.company
                &&& q.exclude_staffing_agencies == self.query.exclude_staffing_agencies
                &&& q.show_jobs_from == self.query.show_jobs_from
            },
    {
        let p1: u64 = (self.current_page - 1) as u64;
        let lim: u64 = self.query.limit as u64;
        proof {
            assert(p1 * lim <= 0xffff_ffffu64 * 0xffff_ffffu64) by (nonlinear_arith)
                requires
                    p1 <= 0xffff_ffffu64,
                    lim <= 0xffff_ffffu64,
            ;
        }
        let off: u64 = p1 * lim;
        if off > u32::MAX as u64 {
            return None;
        }
        let mut q = self.query.clone_query();
        q.start = off as u32;
        Some(q)
    }

    /// Orders the crawl to stop: no new work is scheduled after this, while
    /// already collected results stay available.
    pub fn cancel(&mut self)
        ensures
            *final(self) == (CrawlOrchestrator { cancelled: true, ..*old(self) }),
    {
        self.cancelled = true;
    }

    /// The listing fetch for the current page failed for good. The crawl
    /// ends `Failed`, keeps everything collected so far, and records the
    /// failure.
    pub fn on_listing_error(&mut self, e: FetchError)
        requires
            old(self).wf(),
        ensures
            final(self).wf(),
            *final(self) == (CrawlOrchestrator {
                phase: Phase::Failed,
                listing_fetches: final(self).listing_fetches,
                errors: final(self).errors,
                ..*old(self)
            }),
            final(self).errors@ == old(self).errors@.push(CrawlError::Listing(e)),
            final(self).listing_fetches == if old(self).listing_fetches < u32::MAX {
                old(self).listing_fetches + 1
            } else {
                u32::MAX as int
            },
    {
        self.phase = Phase::Failed;
        if self.listing_fetches < u32::MAX {
            self.listing_fetches = self.listing_fetches + 1;
        }
        self.errors.push(CrawlError::Listing(e));
    }

    /// A listing page arrived. On the first page the page count is adopted
    /// (or the crawl fails, or falls back to a single page). Every job link
    /// that parses to a canonical URL not seen before is scheduled exactly
    /// once; links that do not parse are recorded. Cancellation ends the
    /// crawl instead.
    pub fn on_listing(&mut self, page: ListingPage)
        requires
            old(self).wf(),
            old(self).phase == Phase::FetchListing,
        ensures
            final(self).wf(),
            final(self).current_page == old(self).current_page,
            final(self).collector.entries@ == old(self).collector.entries@,
            final(self).query == old(self).query,
            final(self).cancelled == old(self).cancelled,
            old(self).cancelled ==> *final(self) == (CrawlOrchestrator {
                phase: Phase::Done,
                ..*old(self)
            }),
            !old(self).cancelled ==> final(self).listing_fetches == if old(self).listing_fetches
                < u32::MAX {
                old(self).listing_fetches + 1
            } else {
                u32::MAX as int
            },
            !old(self).cancelled && old(self).must_fail(page) ==> final(self).phase == Phase::Failed
                && final(self).errors@ == old(self).errors@.push(CrawlError::Pagination) && final(self).pending@ == old(self).pending@ && final(self).visited@ == old(self).visited@,
            !old(self).cancelled && !old(self).must_fail(page) ==> {
                &&& final(self).phase == Phase::FetchDetails
                &&& final(self).bootstrapped
                &&& final(self).total_pages == old(self).adopted_total(page)
                &&& final(self).outstanding == final(self).pending@.len()
                &&& forall|a: int, b: int|
                    0 <= a < b < final(self).pending@.len() ==> final(self).pending@[a]@ != final(self).pending@[b]@
                &&& forall|k: Seq<char>|
                    #[trigger] holds_str(final(self).pending@, k) <==> ((exists|j: int|
                        0 <= j < page.links@.len() && canon_of(#[trigger] page.links@[j]@) == Some(
                            k,
                        )) && !holds_str(old(self).visited@, k))
                &&& forall|k: Seq<char>|
                    #[trigger] holds_str(final(self).visited@, k) <==> (holds_str(
                        old(self).visited@,
                        k,
                    ) || holds_str(final(self).pending@, k))
                &&& forall|j: int|
                    0 <= j < page.links@.len() && canon_of(#[trigger] page.links@[j]@) is None
                        ==> (exists|x: int|
                        0 <= x < final(self).errors@.len() && (#[trigger] final(self).errors@[x] matches CrawlError::BadLink(s) && s@ == page.links@[j]@))
                &&& forall|x: int|
                    0 <= x < final(self).errors@.len() ==> (x < old(self).errors@.len() && final(self).errors@[x] == old(self).errors@[x] || (#[trigger] final(self).errors@[x] matches CrawlError::BadLink(s) && canon_of(s@) is None && exists|
                        j: int,
                    |
                        0 <= j < page.links@.len() && page.links@[j]@ == s@))
            },
    {
        if self.cancelled {
            self.phase = Phase::Done;
            return;
        }
        if self.listing_fetches < u32::MAX {
            self.listing_fetches = self.listing_fetches + 1;
        }
        if !self.bootstrapped {
            let mut total: u32 = 1;
            let mut readable = false;
            match &self.page_info_text_of(&page) {
                Some(text) => {
                    match parse_current_page(text.as_str()) {
                        Ok((_, t)) => {
                            total = t;
                            readable = true;
                        },
                        Err(_) => {},
                    }
                },
                None => {},
            }
            if !readable && !self.fallback_single_page {
                self.phase = Phase::Failed;
                self.errors.push(CrawlError::Pagination);
                return;
            }
            self.total_pages = total;
            self.bootstrapped = true;
        }
        self.pending = Vec::new();
        self.schedule_links(&page);
        self.outstanding = self.pending.len();
        self.phase = Phase::FetchDetails;
    }

    /// The count element's text of the event, borrowed.
    fn page_info_text_of<'a>(&self, page: &'a ListingPage) -> (r: &'a Option<String>)
        ensures
            *r == page.page_info_text,
    {
        &page.page_info_text
    }

    /// Schedules every new canonical link of the page and records bad links.
    fn schedule_links(&mut self, page: &ListingPage)
        requires
            old(self).wf(),
            old(self).pending@.len() == 0,
        ensures
            final(self).wf(),
            *final(self) == (CrawlOrchestrator {
                pending: final(self).pending,
                visited: final(self).visited,
                errors: final(self).errors,
                ..*old(self)
            }),
            forall|a: int, b: int|
                0 <= a < b < final(self).pending@.len() ==> final(self).pending@[a]@ != final(self).pending@[b]@,
            forall|k: Seq<char>|
                #[trigger] holds_str(final(self).pending@, k) <==> ((exists|j: int|
                    0 <= j < page.links@.len() && canon_of(#[trigger] page.links@[j]@) == Some(k))
                    && !holds_str(old(self).visited@, k)),
            forall|k: Seq<char>|
                #[trigger] holds_str(final(self).visited@, k) <==> (holds_str(old(self).visited@, k)
                    || holds_str(final(self).pending@, k)),
            forall|j: int|
                0 <= j < page.links@.len() && canon_of(#[trigger] page.links@[j]@) is None ==> (
                exists|x: int|
                    0 <= x < final(self).errors@.len() && (#[trigger] final(self).errors@[x] matches CrawlError::BadLink(s) && s@ == page.links@[j]@)),
            forall|x: int|
                0 <= x < final(self).errors@.len() ==> (x < old(self).errors@.len() && final(self).errors@[x] == old(self).errors@[x] || (#[trigger] final(self).errors@[x] matches CrawlError::BadLink(s) && canon_of(s@) is None && exists|j: int|
                    0 <= j < page.links@.len() && page.links@[j]@ == s@)),
    {
        let ghost vis0 = old(self).visited@;
        let ghost errs0 = old(self).errors@;
        let mut j: usize = 0;
        while j < page.links.len()
            invariant
                self.wf(),
                *self == (CrawlOrchestrator {
                    pending: self.pending,
                    visited: self.visited,
                    errors: self.errors,
                    ..*old(self)
                }),
                j <= page.links@.len(),
                forall|a: int, b: int|
                    0 <= a < b < self.pending@.len() ==> self.pending@[a]@ != self.pending@[b]@,
                forall|k: Seq<char>|
                    #[trigger] holds_str(self.pending@, k) <==> ((exists|l: int|
                        0 <= l < j && canon_of(#[trigger] page.links@[l]@) == Some(k))
                        && !holds_str(vis0, k)),
                forall|k: Seq<char>|
                    #[trigger] holds_str(self.visited@, k) <==> (holds_str(vis0, k) || holds_str(
                        self.pending@,
                        k,
                    )),
                forall|l: int|
                    0 <= l < j && canon_of(#[trigger] page.links@[l]@) is None ==> (exists|x: int|
                        0 <= x < self.errors@.len() && (#[trigger] self.errors@[x] matches
                            CrawlError::BadLink(s) && s@ == page.links@[l]@)),
                forall|x: int|
                    0 <= x < self.errors@.len() ==> (x < errs0.len() && self.errors@[x] == errs0[x]
                        || (#[trigger] self.errors@[x] matches CrawlError::BadLink(s) && canon_of(
                        s@,
                    ) is None && exists|l: int|
                        0 <= l < page.links@.len() && page.links@[l]@ == s@)),
            decreases page.links@.len() - j,
        {
            let link: &String = &page.links[j];
            match canonicalize(link.as_str()) {
                Some(c) => {
                    if !has_str(&self.visited, &c) {
                        let ghost pend0 = self.pending@;
                        let ghost visg = self.visited@;
                        self.pending.push(c.clone());
                        self.visited.push(c);
                        proof {
                            assert forall|k: Seq<char>| #[trigger]
                                holds_str(self.pending@, k) <==> ((exists|l: int|
                                    0 <= l < j + 1 && canon_of(#[trigger] page.links@[l]@) == Some(
                                        k,
                                    )) && !holds_str(vis0, k)) by {
                                if holds_str(self.pending@, k) {
                                    let i = choose|i: int|
                                        0 <= i < self.pending@.len() && self.pending@[i]@ == k;
                                    if i < pend0.len() {
                                        assert(holds_str(pend0, k));
                                    } else {
                                        assert(canon_of(page.links@[j as int]@) == Some(k));
                                    }
                                }
                                if (exists|l: int|
                                    0 <= l < j + 1 && canon_of(#[trigger] page.links@[l]@) == Some(
                                        k,
                                    )) && !holds_str(vis0, k) {
                                    let l = choose|l: int|
                                        0 <= l < j + 1 && canon_of(
                                            #[trigger] page.links@[l]@,
                                        ) == Some(k);
                                    if l < j {
                                        assert(holds_str(pend0, k));
                                        let i = choose|i: int|
                                            0 <= i < pend0.len() && pend0[i]@ == k;
                                        assert(self.pending@[i]@ == k);
                                    } else {
                                        assert(self.pending@.last()@ == k);
                                    }
                                }
                            }
                            assert forall|k: Seq<char>| #[trigger]
                                holds_str(self.visited@, k) <==> (holds_str(vis0, k) || holds_str(
                                    self.pending@,
                                    k,
                                )) by {
                                if holds_str(self.visited@, k) {
                                    let i = choose|i: int|
                                        0 <= i < self.visited@.len() && self.visited@[i]@ == k;
                                    if i < visg.len() {
                                        assert(visg[i]@ == k);
                                        assert(holds_str(visg, k));
                                        if holds_str(pend0, k) {
                                            let x = choose|x: int|
                                                0 <= x < pend0.len() && pend0[x]@ == k;
                                            assert(self.pending@[x]@ == k);
                                            assert(holds_str(self.pending@, k));
                                        }
                                    } else {
                                        assert(self.pending@.last()@ == k);
                                        assert(holds_str(self.pending@, k));
                                    }
                                }
                                if holds_str(vis0, k) {
                                    assert(holds_str(visg, k));
                                    let i = choose|i: int| 0 <= i < visg.len() && visg[i]@ == k;
                                    assert(self.visited@[i]@ == k);
                                    assert(holds_str(self.visited@, k));
                                }
                                if holds_str(self.pending@, k) {
                                    let i = choose|i: int|
                                        0 <= i < self.pending@.len() && self.pending@[i]@ == k;
                                    if i < pend0.len() {
                                        assert(pend0[i]@ == k);
                                        assert(holds_str(pend0, k));
                                        assert(holds_str(visg, k));
                                        let x = choose|x: int| 0 <= x < visg.len() && visg[x]@ == k;
                                        assert(self.visited@[x]@ == k);
                                    } else {
                                        assert(self.visited@[visg.len() as int]@ == k);
                                    }
                                    assert(holds_str(self.visited@, k));
                                }
                            }
                        }
                    } else {
                        proof {
                            assert forall|k: Seq<char>| #[trigger]
                                holds_str(self.pending@, k) <==> ((exists|l: int|
                                    0 <= l < j + 1 && canon_of(#[trigger] page.links@[l]@) == Some(
                                        k,
                                    )) && !holds_str(vis0, k)) by {
                                if (exists|l: int|
                                    0 <= l < j + 1 && canon_of(#[trigger] page.links@[l]@) == Some(
                                        k,
                                    )) && !holds_str(vis0, k) {
                                    let l = choose|l: int|
                                        0 <= l < j + 1 && canon_of(
                                            #[trigger] page.links@[l]@,
                                        ) == Some(k);
                                    if l == j {
                                        assert(holds_str(self.visited@, k));
                                        assert(holds_str(self.pending@, k));
                                    }
                                }
                            }
                        }
                    }
                },
                None => {
                    let ghost errsg = self.errors@;
                    self.errors.push(CrawlError::BadLink(link.clone()));
                    proof {
                        assert(self.errors@.last() matches CrawlError::BadLink(s) && s@
                            == page.links@[j as int]@);
                        assert forall|l: int|
                            0 <= l < j + 1 && canon_of(#[trigger] page.links@[l]@) is None implies (
                        exists|x: int|
                            0 <= x < self.errors@.len() && (#[trigger] self.errors@[x] matches
                                CrawlError::BadLink(s) && s@ == page.links@[l]@)) by {
                            if l < j {
                                let x = choose|x: int|
                                    0 <= x < errsg.len() && (#[trigger] errsg[x] matches
                                        CrawlError::BadLink(s) && s@ == page.links@[l]@);
                                assert(self.errors@[x] == errsg[x]);
                            } else {
                                assert(self.errors@[self.errors@.len() - 1] matches
                                    CrawlError::BadLink(s) && s@ == page.links@[l]@);
                            }
                        }
                    }
                },
            }
            j += 1;
        }
    }

    /// One scheduled detail item finished: a record is folded in under its
    /// canonical URL (inserting an already-held key changes nothing), or the
    /// item's failure is recorded. With nothing outstanding the call changes
    /// nothing.
    pub fn on_detail(&mut self, url: String, outcome: Result<(Company, Job), FetchError>)
        requires
            old(self).wf(),
        ensures
            final(self).wf(),
            old(self).outstanding == 0 ==> *final(self) == *old(self),
            old(self).outstanding > 0 ==> {
                &&& final(self).outstanding == old(self).outstanding - 1
                &&& *final(self) == (CrawlOrchestrator {
                    outstanding: final(self).outstanding,
                    collector: final(self).collector,
                    errors: final(self).errors,
                    ..*old(self)
                })
            },
            outcome matches Ok(cj) ==> old(self).outstanding > 0 ==> {
                &&& final(self).errors@ == old(self).errors@
                &&& final(self).collector.contains_key(url@)
                &&& forall|k: Seq<char>|
                    #[trigger] final(self).collector.contains_key(k) == (old(self).collector.contains_key(k) || k == url@)
                &&& (old(self).collector.contains_key(url@) ==> final(self).collector.entries@
                    == old(self).collector.entries@)
                &&& (!old(self).collector.contains_key(url@) ==> final(self).collector.entries@.len()
                    == old(self).collector.entries@.len() + 1 && final(self).collector.entries@.last().company == cj.0 && final(self).collector.entries@.last().job == cj.1 && final(self).collector.entries@.drop_last() == old(self).collector.entries@)
            },
            outcome matches Err(e) ==> old(self).outstanding > 0 ==> {
                &&& final(self).collector.entries@ == old(self).collector.entries@
                &&& final(self).errors@ == old(self).errors@.push(CrawlError::Detail(url, e))
            },
    {
        if self.outstanding == 0 {
            return;
        }
        self.outstanding = self.outstanding - 1;
        match outcome {
            Ok((company, job)) => {
                self.collector.insert(url, company, job);
            },
            Err(e) => {
                self.errors.push(CrawlError::Detail(url, e));
            },
        }
    }

    /// The join barrier after a page's fan-out: with every item reported,
    /// the crawl moves to the next page or finishes; after cancellation it
    /// finishes at once. With items still outstanding the call changes
    /// nothing.
    pub fn page_done(&mut self)
        requires
            old(self).wf(),
        ensures
            final(self).wf(),
            old(self).phase != Phase::FetchDetails || old(self).outstanding != 0 ==> *final(self)
                == *old(self),
            old(self).phase == Phase::FetchDetails && old(self).outstanding == 0 && old(self).cancelled ==> *final(self) == (CrawlOrchestrator { phase: Phase::Done, ..*old(self) }),
            old(self).phase == Phase::FetchDetails && old(self).outstanding == 0 && !old(self).cancelled ==> {
                &&& *final(self) == (CrawlOrchestrator {
                    phase: final(self).phase,
                    current_page: final(self).current_page,
                    pending: final(self).pending,
                    ..*old(self)
                })
                &&& final(self).pending@.len() == 0
                &&& (old(self).current_page < old(self).total_pages ==> final(self).phase
                    == Phase::FetchListing && final(self).current_page == old(self).current_page
                    + 1)
                &&& (old(self).current_page >= old(self).total_pages ==> final(self).phase
                    == Phase::Done && final(self).current_page == old(self).current_page)
            },
    {
        if !(matches!(self.phase, Phase::FetchDetails)) || self.outstanding != 0 {
            return;
        }
        if self.cancelled {
            self.phase = Phase::Done;
            return;
        }
        self.pending = Vec::new();
        if self.current_page < self.total_pages {
            self.current_page = self.current_page + 1;
            self.phase = Phase::FetchListing;
        } else {
            self.phase = Phase::Done;
        }
    }
}

/// The page-level effect of error-free listing rounds, as the contracts of
/// `on_listing` and `page_done` state it. One round is one `on_listing`
/// (which counts one listing fetch), the page's `on_detail`s, and one
/// `page_done` (which either advances `current_page` by one or ends the
/// crawl `Done`). `run_rounds(p, t, f, k)` plays `k` such rounds from page
/// `p` of `t` with `f` fetches already made, and yields the page, the fetch
/// count and the phase reached.
pub open spec fn run_rounds(p: u32, t: u32, f: nat, k: nat) -> (u32, nat, Phase)
    decreases k,
{
    if k == 0 {
        (p, f, Phase::FetchListing)
    } else if p < t {
        run_rounds((p + 1) as u32, t, f + 1, (k - 1) as nat)
    } else {
        (p, f + 1, Phase::Done)
    }
}

/// Law: a crawl over `t` pages that starts at page 1 and sees no fetch or
/// parse error ends `Done` after exactly `t` rounds — so it issues exactly
/// `t` listing fetches, one per round — and is still running after any
/// fewer.
pub proof fn lemma_listing_rounds(p: u32, t: u32, f: nat)
    requires
        1 <= p <= t,
    ensures
        run_rounds(p, t, f, (t - p + 1) as nat) == (t, (f + t - p + 1) as nat, Phase::Done),
        forall|k: nat| k < t - p + 1 ==> (#[trigger] run_rounds(p, t, f, k)).2 == Phase::FetchListing,
    decreases t - p,
{
    if p < t {
        lemma_listing_rounds((p + 1) as u32, t, f + 1);
        assert forall|k: nat| k < t - p + 1 implies (#[trigger] run_rounds(p, t, f, k)).2
            == Phase::FetchListing by {
            if k > 0 {
                assert(run_rounds(p, t, f, k) == run_rounds((p + 1) as u32, t, f + 1, (k - 1) as nat));
            }
        }
    }
}

} // verus!
