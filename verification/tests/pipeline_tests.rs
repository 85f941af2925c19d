use job_scraper::collector::ResultCollector;
use job_scraper::extract::{parse_salary, DetailFields, extract_fields};
use job_scraper::fetch::{FetchError, RetryDecision, RetryPolicy};
use job_scraper::limiter::RateLimiter;
use job_scraper::pagination::parse_current_page;
use job_scraper::records::{Company, Job, Salary};

fn record(url: &str) -> (Company, Job) {
    let company = Company {
        name: "Acme".to_string(),
        location: "Boston, MA".to_string(),
        homepage: "https://acme.example/".to_string(),
        rating: 450,
    };
    let job = Job {
        job_title: "Engineer".to_string(),
        location: "Boston, MA".to_string(),
        annual_salary: Some(90000),
        salary: Salary::AnnualFixed(90000),
        date_posted: 1_700_000_000,
        url: url.to_string(),
    };
    (company, job)
}

#[test]
fn pagination_reads_the_two_counts() {
    assert_eq!(parse_current_page("Page 1 of 10 jobs"), Ok((1, 10)));
    assert_eq!(parse_current_page("Showing page 3 of 12 results"), Ok((3, 12)));
}

#[test]
fn pagination_rejects_short_or_unnumbered_text() {
    assert!(parse_current_page("").is_err());
    assert!(parse_current_page("Page 1 of 10").is_err());
    assert!(parse_current_page("no counts here at all").is_err());
}

#[test]
fn pagination_rejects_a_count_past_u32() {
    assert!(parse_current_page("Page 1 of 99999999999 jobs").is_err());
}

#[test]
fn salary_annual_with_commas() {
    assert!(matches!(parse_salary("$85,000 a year"), Salary::AnnualFixed(85000)));
}

#[test]
fn salary_hourly_is_held_in_cents() {
    assert!(matches!(parse_salary("$17.50 an hour"), Salary::HourlyFixed(1700)));
}

#[test]
fn salary_without_digits_is_unspecified() {
    assert!(matches!(parse_salary("Competitive"), Salary::Unspecified));
}

#[test]
fn salary_too_large_to_hold_is_unspecified() {
    assert!(matches!(parse_salary("$99999999999999 a year"), Salary::Unspecified));
    // Fits as a figure, but not once held in cents.
    assert!(matches!(parse_salary("$4294967295 an hour"), Salary::Unspecified));
}

#[test]
fn missing_salary_element_yields_no_salary_not_an_error() {
    let fields = DetailFields {
        job_title: Some("Engineer".to_string()),
        company_name: Some("Acme".to_string()),
        location: None,
        salary_text: None,
        homepage: None,
        rating: None,
    };
    let (company, job) = extract_fields(fields, "https://example.com/j/1".to_string(), 0);
    assert_eq!(job.annual_salary, None);
    assert!(matches!(job.salary, Salary::Unspecified));
    assert_eq!(company.name, "Acme");
    assert_eq!(job.location, "");
    assert_eq!(company.rating, 0);
}

#[test]
fn extract_fills_the_fields_it_was_given() {
    let fields = DetailFields {
        job_title: Some("Developer".to_string()),
        company_name: Some("Acme".to_string()),
        location: Some("Boston, MA".to_string()),
        salary_text: Some("$85,000 a year".to_string()),
        homepage: Some("https://acme.example/".to_string()),
        rating: Some(420),
    };
    let (company, job) = extract_fields(fields, "https://example.com/j/2".to_string(), 123);
    assert_eq!(job.annual_salary, Some(85000));
    assert!(matches!(job.salary, Salary::AnnualFixed(85000)));
    assert_eq!(job.job_title, "Developer");
    assert_eq!(job.date_posted, 123);
    assert_eq!(company.location, "Boston, MA");
    assert_eq!(company.rating, 420);
}

#[test]
fn collector_insertion_is_idempotent() {
    let mut c = ResultCollector::new();
    let (company, job) = record("https://example.com/j/1");
    c.insert("https://example.com/j/1".to_string(), company, job);
    assert_eq!(c.len(), 1);
    let (company, job) = record("https://example.com/j/1");
    c.insert("https://example.com/j/1".to_string(), company, job);
    assert_eq!(c.len(), 1);
    let (company, job) = record("https://example.com/j/2");
    c.insert("https://example.com/j/2".to_string(), company, job);
    assert_eq!(c.len(), 2);
    assert!(c.has_key(&"https://example.com/j/1".to_string()));
    assert!(c.has_key(&"https://example.com/j/2".to_string()));
}

#[test]
fn limiter_grants_at_most_capacity_per_window() {
    let mut l = RateLimiter::new(3, 1000);
    assert!(l.try_acquire(0, 0));
    assert!(l.try_acquire(0, 10));
    assert!(l.try_acquire(0, 20));
    assert!(!l.try_acquire(0, 30));
    assert!(!l.try_acquire(0, 999));
    // The next window opens with a full bucket.
    assert!(l.try_acquire(0, 1000));
    // Another host is not affected.
    assert!(l.try_acquire(1, 30));
}

#[test]
fn retry_policy_orders_backoff_for_retryable_failures_only() {
    let p = RetryPolicy::new_default();
    assert!(matches!(p.next_action(0, &FetchError::Network), RetryDecision::RetryAfter(500)));
    assert!(matches!(
        p.next_action(1, &FetchError::HttpStatus(500)),
        RetryDecision::RetryAfter(1000)
    ));
    assert!(matches!(
        p.next_action(0, &FetchError::HttpStatus(429)),
        RetryDecision::RetryAfter(500)
    ));
    // The budget of three attempts is spent.
    assert!(matches!(p.next_action(2, &FetchError::Network), RetryDecision::GiveUp));
    // A client error other than 429 is terminal.
    assert!(matches!(p.next_action(0, &FetchError::HttpStatus(404)), RetryDecision::GiveUp));
    assert!(matches!(p.next_action(0, &FetchError::Terminal), RetryDecision::GiveUp));
}
