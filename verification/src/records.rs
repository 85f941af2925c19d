//! The extracted records: a company, a job posting, and its salary.
//!
//! Money is held in whole units as integers: annual amounts in whole dollars,
//! hourly amounts in cents. Timestamps are Unix seconds. URLs are held as
//! their text.
use vstd::prelude::*;

verus! {

/// A job's pay, as printed on its detail page.
#[derive(Clone, Copy, PartialEq, Eq, Structural, Debug)]
pub enum Salary {
    /// A single annual figure, whole dollars.
    AnnualFixed(u32),
    /// An annual range, whole dollars, low then high.
    AnnualRange(u32, u32),
    /// A single hourly figure, cents.
    HourlyFixed(u32),
    /// An hourly range, cents, low then high.
    HourlyRange(u32, u32),
    /// The detail page shows no salary.
    Unspecified,
}

/// The company behind a posting. Its identity is `(name, location)`.
/// `rating` holds hundredths of a star.
pub struct Company {
    pub name: String,
    pub location: String,
    pub homepage: String,
    pub rating: u32,
}

/// One job posting. Its identity is the canonical text of `url`.
pub struct Job {
    pub job_title: String,
    pub location: String,
    pub annual_salary: Option<u32>,
    pub salary: Salary,
    pub date_posted: i64,
    pub url: String,
}

} // verus!
