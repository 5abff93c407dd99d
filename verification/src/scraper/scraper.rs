//! The scrape service: what a request to it holds, and what a scrape yields.
use vstd::prelude::*;

verus! {

/// What one scrape of a page yields: when it was scraped (an HTTP `Date`
/// header) and the page's HTML.
pub struct ScrapedResult {
    pub scraped_date: String,
    pub scraped_html: String,
}

/// How a request to the scrape service ended, as far as the scrape result
/// depends on it.
pub enum FetchOutcome {
    /// The service answered with a success status: the text of its `Date`
    /// header (empty when the header is not visible ASCII), if it sent one,
    /// and the body.
    Answered { date_header: Option<String>, body: String },
    /// The request did not complete in time.
    TimedOut,
}

impl ScrapedResult {
    /// The scrape result of a request: an answer gives its body, dated by its
    /// `Date` header or, lacking one, by `now`; a request that timed out
    /// gives an empty page dated `now`.  `now` is the current time written as
    /// in RFC 2822.
    pub fn from_fetch(outcome: FetchOutcome, now: String) -> (res: ScrapedResult)
        ensures
            match outcome {
                FetchOutcome::Answered { date_header, body } => {
                    &&& res.scraped_html@ == body@
                    &&& res.scraped_date@ == match date_header {
                        Some(d) => d@,
                        None => now@,
                    }
                },
                FetchOutcome::TimedOut => res.scraped_date@ == now@ && res.scraped_html@.len() == 0,
            },
    {
        match outcome {
            FetchOutcome::Answered { date_header, body } => {
                let scraped_date = match date_header {
                    Some(d) => d,
                    None => now,
                };
                ScrapedResult { scraped_date, scraped_html: body }
            },
            FetchOutcome::TimedOut => ScrapedResult { scraped_date: now, scraped_html: String::new() },
        }
    }
}

/// A client of the scrape service: its endpoint and API key.
pub struct Scraper {
    scrape_service_endpoint_url: String,
    scrape_service_api_key: String,
}

impl Scraper {
    pub closed spec fn endpoint(&self) -> Seq<char> {
        self.scrape_service_endpoint_url@
    }

    pub closed spec fn api_key(&self) -> Seq<char> {
        self.scrape_service_api_key@
    }

    pub fn new(scrape_service_endpoint_url: &str, scrape_service_api_key: &str) -> (res: Self)
        ensures
            res.endpoint() == scrape_service_endpoint_url@,
            res.api_key() == scrape_service_api_key@,
    {
        Scraper {
            scrape_service_endpoint_url: scrape_service_endpoint_url.to_owned(),
            scrape_service_api_key: scrape_service_api_key.to_owned(),
        }
    }

    /// The URL that scrape requests go to.
    pub fn endpoint_url(&self) -> (res: &str)
        ensures
            res@ == self.endpoint(),
    {
        self.scrape_service_endpoint_url.as_str()
    }

    /// The query of the request that scrapes `target_url`: the API key, then
    /// the target URL.
    pub fn request_query(&self, target_url: &str) -> (res: Vec<(String, String)>)
        ensures
            res@.len() == 2,
            res@[0].0@ == "api_key"@,
            res@[0].1@ == self.api_key(),
            res@[1].0@ == "url"@,
            res@[1].1@ == target_url@,
    {
        let mut query: Vec<(String, String)> = Vec::new();
        query.push(("api_key".to_owned(), self.scrape_service_api_key.clone()));
        query.push(("url".to_owned(), target_url.to_owned()));
        query
    }
}

} // verus!
