use job_scraper::crawl::{CrawlError, CrawlOrchestrator, ListingPage, Phase};
use job_scraper::extract::{DetailFields, extract_fields};
use job_scraper::fetch::FetchError;
use job_scraper::query_builder::{IndeedQuery, Level};

fn base_query() -> IndeedQuery {
    IndeedQuery::with_defaults("Boston, MA".to_string(), Level::entry_level)
}

fn detail_ok(url: &str) -> (job_scraper::records::Company, job_scraper::records::Job) {
    let fields = DetailFields {
        job_title: Some("Engineer".to_string()),
        company_name: Some("Acme".to_string()),
        location: Some("Boston, MA".to_string()),
        salary_text: Some("$95,000 a year".to_string()),
        homepage: None,
        rating: None,
    };
    extract_fields(fields, url.to_string(), 1_700_000_000)
}

#[test]
fn single_page_crawl_collects_both_jobs() {
    // Listing reports one page of one, with two job links; both details
    // succeed: the crawl ends Done with two records and no error.
    let mut o = CrawlOrchestrator::start(base_query(), false);
    assert!(matches!(o.phase, Phase::FetchListing));
    o.on_listing(ListingPage {
        page_info_text: Some("Page 1 of 1 jobs".to_string()),
        links: vec![
            "https://example.com/job/1".to_string(),
            "https://example.com/job/2".to_string(),
        ],
    });
    assert!(matches!(o.phase, Phase::FetchDetails));
    assert_eq!(o.total_pages, 1);
    assert_eq!(o.pending.len(), 2);
    let pending: Vec<String> = o.pending.clone();
    for url in pending {
        let (company, job) = detail_ok(&url);
        o.on_detail(url, Ok((company, job)));
    }
    o.page_done();
    assert!(matches!(o.phase, Phase::Done));
    assert_eq!(o.collector.len(), 2);
    assert_eq!(o.errors.len(), 0);
    assert_eq!(o.listing_fetches, 1);
}

#[test]
fn terminal_listing_failure_fails_the_crawl_with_its_error() {
    // The first listing fetch fails for good: the crawl ends Failed, the
    // collector is empty, and the error list holds that one failure.
    let mut o = CrawlOrchestrator::start(base_query(), false);
    o.on_listing_error(FetchError::Terminal);
    assert!(matches!(o.phase, Phase::Failed));
    assert_eq!(o.collector.len(), 0);
    assert_eq!(o.errors.len(), 1);
    assert!(matches!(o.errors[0], CrawlError::Listing(FetchError::Terminal)));
}

#[test]
fn duplicate_links_are_scheduled_once() {
    // Two spellings of one URL canonicalize to the same text and are
    // scheduled once; a repeat on a later page is not scheduled again.
    let mut o = CrawlOrchestrator::start(base_query(), false);
    o.on_listing(ListingPage {
        page_info_text: Some("Page 1 of 2 jobs".to_string()),
        links: vec![
            "https://EXAMPLE.com/job/1".to_string(),
            "https://example.com/job/1".to_string(),
        ],
    });
    assert_eq!(o.pending.len(), 1);
    let url = o.pending[0].clone();
    let (company, job) = detail_ok(&url);
    o.on_detail(url.clone(), Ok((company, job)));
    o.page_done();
    assert!(matches!(o.phase, Phase::FetchListing));
    assert_eq!(o.current_page, 2);
    o.on_listing(ListingPage {
        page_info_text: None,
        links: vec!["https://example.com/job/1".to_string()],
    });
    assert_eq!(o.pending.len(), 0);
    o.page_done();
    assert!(matches!(o.phase, Phase::Done));
    assert_eq!(o.collector.len(), 1);
    assert_eq!(o.listing_fetches, 2);
}

#[test]
fn a_link_that_is_no_url_is_recorded_not_fatal() {
    let mut o = CrawlOrchestrator::start(base_query(), false);
    o.on_listing(ListingPage {
        page_info_text: Some("Page 1 of 1 jobs".to_string()),
        links: vec!["not a url at all".to_string()],
    });
    assert!(matches!(o.phase, Phase::FetchDetails));
    assert_eq!(o.pending.len(), 0);
    assert_eq!(o.errors.len(), 1);
    assert!(matches!(o.errors[0], CrawlError::BadLink(_)));
}

#[test]
fn unreadable_page_count_fails_without_fallback() {
    let mut o = CrawlOrchestrator::start(base_query(), false);
    o.on_listing(ListingPage { page_info_text: None, links: vec![] });
    assert!(matches!(o.phase, Phase::Failed));
    assert_eq!(o.errors.len(), 1);
    assert!(matches!(o.errors[0], CrawlError::Pagination));
}

#[test]
fn unreadable_page_count_falls_back_to_a_single_page_when_configured() {
    let mut o = CrawlOrchestrator::start(base_query(), true);
    o.on_listing(ListingPage { page_info_text: None, links: vec![] });
    assert!(matches!(o.phase, Phase::FetchDetails));
    assert_eq!(o.total_pages, 1);
    o.page_done();
    assert!(matches!(o.phase, Phase::Done));
}

#[test]
fn a_failed_detail_is_recorded_and_the_page_still_completes() {
    let mut o = CrawlOrchestrator::start(base_query(), false);
    o.on_listing(ListingPage {
        page_info_text: Some("Page 1 of 1 jobs".to_string()),
        links: vec![
            "https://example.com/job/1".to_string(),
            "https://example.com/job/2".to_string(),
        ],
    });
    let first = o.pending[0].clone();
    let second = o.pending[1].clone();
    let (company, job) = detail_ok(&first);
    o.on_detail(first, Ok((company, job)));
    o.on_detail(second, Err(FetchError::HttpStatus(404)));
    o.page_done();
    assert!(matches!(o.phase, Phase::Done));
    assert_eq!(o.collector.len(), 1);
    assert_eq!(o.errors.len(), 1);
    assert!(matches!(o.errors[0], CrawlError::Detail(_, FetchError::HttpStatus(404))));
}

#[test]
fn cancellation_stops_new_work_and_keeps_results() {
    let mut o = CrawlOrchestrator::start(base_query(), false);
    o.on_listing(ListingPage {
        page_info_text: Some("Page 1 of 3 jobs".to_string()),
        links: vec!["https://example.com/job/1".to_string()],
    });
    let url = o.pending[0].clone();
    let (company, job) = detail_ok(&url);
    o.on_detail(url, Ok((company, job)));
    o.cancel();
    o.page_done();
    assert!(matches!(o.phase, Phase::Done));
    assert_eq!(o.collector.len(), 1);
}

#[test]
fn page_query_offsets_grow_by_limit() {
    let mut o = CrawlOrchestrator::start(base_query(), false);
    let q1 = o.page_query().unwrap();
    assert_eq!(q1.start, 0);
    o.on_listing(ListingPage {
        page_info_text: Some("Page 1 of 2 jobs".to_string()),
        links: vec![],
    });
    o.page_done();
    let q2 = o.page_query().unwrap();
    assert_eq!(q2.start, 50);
}
