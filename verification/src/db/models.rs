//! The records that a scrape run reads and writes.
use vstd::prelude::*;

verus! {

/// A calendar date and a time of day, without a time zone, as the scraped
/// `Date` header gives it.  The fields are those of `chrono::NaiveDateTime`:
/// `nanosecond` is at least one billion only for a leap second.
#[derive(Debug, Clone, Copy, PartialEq, Eq, Structural)]
pub struct ScrapeDate {
    pub year: i32,
    pub month: u32,
    pub day: u32,
    pub hour: u32,
    pub minute: u32,
    pub second: u32,
    pub nanosecond: u32,
}

/// One recorded job-post count: which search it was, when the page was
/// scraped, and how many posts the page announced.
#[derive(Debug, Clone, PartialEq, Eq)]
pub struct Result {
    pub id: i32,
    pub url: String,
    pub job_title: String,
    pub job_location: String,
    pub scrape_date: ScrapeDate,
    pub count: i32,
}

/// A search page to scrape, with the job title and location that its page
/// title must mention.
#[derive(Debug, Clone, PartialEq, Eq)]
pub struct Target {
    pub id: i32,
    pub url: String,
    pub job_title: String,
    pub job_location: String,
}

/// The database credentials kept in the secrets store.
#[derive(Debug, Clone, PartialEq, Eq)]
pub struct DbSecrets {
    pub username: String,
    pub password: String,
}

} // verus!
