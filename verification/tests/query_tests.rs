use job_scraper::query_builder::{IndeedQuery, JobType, Level, ShowJobsFrom, Sort};

fn words(ws: &[&str]) -> Vec<String> {
    ws.iter().map(|w| w.to_string()).collect()
}

fn sample_query() -> IndeedQuery {
    let mut q = IndeedQuery::with_defaults("San Fransisco, CA".to_string(), Level::entry_level);
    q.has_words_in_title = words(&["Developer", "Engineer"]);
    q.excludes_all_words = words(&["C#", ".NET", "Azure", "Unpaid"]);
    q.exclude_staffing_agencies = true;
    q.has_any_words = words(&[
        "Linux",
        "Unix",
        "Full-Stack",
        "Full",
        "Stack",
        "Web",
        "Embedded",
    ]);
    q.min_salary = 85000 as u32;
    q.radius = 40 as u32;
    q.job_type = JobType::fulltime;
    q.sort = Sort::date;
    q.max_age = 14 as u32;
    q
}

#[test]
fn build_url_test() {
    let query = sample_query();
    assert_eq!(
        query.build_url().unwrap(),
        "https://www.indeed.com/jobs?as_and=&as_phr=&as_any=Linux+Unix+Full-Stack+Full+Stack+Web+Embedded&as_not=C%23+.NET+Azure+Unpaid&as_ttl=Developer+Engineer&as_cmp=&jt=fulltime&st=all&sr=directhire&salary=85000&radius=40&l=San+Fransisco%2C+CA&fromage=14&limit=50&sort=date&psf=advsrch&from=advancedsearch"
    );
}

#[test]
fn build_url_is_deterministic() {
    let query = sample_query();
    assert_eq!(query.build_url().unwrap(), query.build_url().unwrap());
}

#[test]
fn defaults_are_the_sites() {
    let q = IndeedQuery::with_defaults("Boston, MA".to_string(), Level::mid_level);
    assert_eq!(q.radius, 0);
    assert_eq!(q.max_age, 14);
    assert!(matches!(q.sort, Sort::relevance));
    assert!(matches!(q.job_type, JobType::fulltime));
    assert!(matches!(q.show_jobs_from, ShowJobsFrom::all));
    assert_eq!(q.min_salary, 0);
    assert!(q.exclude_staffing_agencies);
    assert_eq!(q.limit, 50);
    assert_eq!(q.start, 0);
}

#[test]
fn increment_page_advances_offset_and_keeps_the_url() {
    let q = sample_query();
    let next = q.increment_page();
    assert_eq!(next.start, q.start + q.limit);
    assert_eq!(next.limit, q.limit);
    // The receiver is untouched.
    assert_eq!(q.start, 0);
    // The offset is carried by the crawl loop, not by the URL text.
    assert_eq!(q.build_url().unwrap(), next.build_url().unwrap());
    let third = next.increment_page();
    assert_eq!(third.start, 100);
}

#[test]
fn city_text_outside_ascii_is_percent_encoded_bytewise() {
    let q = IndeedQuery::with_defaults("M\u{fc}nchen".to_string(), Level::entry_level);
    let url = q.build_url().unwrap();
    assert!(url.contains("l=M%C3%BCnchen"));
}

#[test]
fn enum_tokens_are_exhaustive_tables() {
    assert_eq!(Sort::relevance.as_str(), "relevance");
    assert_eq!(Sort::date.as_str(), "date");
    assert_eq!(ShowJobsFrom::jobsite.as_str(), "jobsite");
    assert_eq!(ShowJobsFrom::employer.as_str(), "employer");
    assert_eq!(JobType::contract.as_str(), "contract");
    assert_eq!(JobType::internship.as_str(), "internship");
    assert_eq!(Level::senior_level.as_str(), "senior_level");
}

#[test]
fn empty_query_still_renders_every_parameter() {
    let mut q = IndeedQuery::with_defaults(String::new(), Level::entry_level);
    q.exclude_staffing_agencies = false;
    assert_eq!(
        q.build_url().unwrap(),
        "https://www.indeed.com/jobs?as_and=&as_phr=&as_any=&as_not=&as_ttl=&as_cmp=&jt=fulltime&st=all&sr=&salary=0&radius=0&l=&fromage=14&limit=50&sort=relevance&psf=advsrch&from=advancedsearch"
    );
}
