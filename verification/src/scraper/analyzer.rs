//! Reading the job-post count and the scrape date out of a scraped page.
use crate::db::models::ScrapeDate;
use crate::text::{
    self, chars_of, contains_chars, first_word_bounds, parse_i32, remove_commas, to_lowercase,
};
use chrono::{Datelike, Timelike};
use vstd::prelude::*;

verus! {

// ---------------------------------------------------------------------------
// Errors
// ---------------------------------------------------------------------------

/// Why no count could be read from a page, or no analyzer chosen for a URL.
#[derive(Debug, Clone, PartialEq, Eq)]
pub enum AnalyzerError {
    /// The page has no `<title>` element.
    NoTitleElement,
    /// The page title holds only white space.
    TitleFormatInvalid,
    /// The first word of the page title, without commas, is not an `i32`.
    CountNotFound,
    /// The page title does not mention the job title.
    JobTitleNotFound,
    /// The page title does not mention the job location.
    JobLocationNotFound,
    /// The target URL does not parse; the text is the URL parser's message.
    InvalidUrl(String),
    /// The target URL has no host.
    NoHost,
    /// No analyzer knows the target URL's site.
    NoAnalyzer,
}

impl AnalyzerError {
    /// The text that describes the error.
    pub open spec fn message_spec(&self) -> Seq<char> {
        match self {
            AnalyzerError::NoTitleElement => "No title element found in HTML"@,
            AnalyzerError::TitleFormatInvalid => "Title format invalid"@,
            AnalyzerError::CountNotFound => "Count not found in title"@,
            AnalyzerError::JobTitleNotFound => "Job title not found in page title"@,
            AnalyzerError::JobLocationNotFound => "Job location not found in page title"@,
            AnalyzerError::InvalidUrl(m) => m@,
            AnalyzerError::NoHost => "No host in URL"@,
            AnalyzerError::NoAnalyzer => "No analyzer available for this URL"@,
        }
    }

    /// The text that describes the error.
    pub fn message(&self) -> (res: String)
        ensures
            res@ == self.message_spec(),
    {
        match self {
            AnalyzerError::NoTitleElement => "No title element found in HTML".to_owned(),
            AnalyzerError::TitleFormatInvalid => "Title format invalid".to_owned(),
            AnalyzerError::CountNotFound => "Count not found in title".to_owned(),
            AnalyzerError::JobTitleNotFound => "Job title not found in page title".to_owned(),
            AnalyzerError::JobLocationNotFound => "Job location not found in page title".to_owned(),
            AnalyzerError::InvalidUrl(m) => m.clone(),
            AnalyzerError::NoHost => "No host in URL".to_owned(),
            AnalyzerError::NoAnalyzer => "No analyzer available for this URL".to_owned(),
        }
    }
}

// ---------------------------------------------------------------------------
// Calls into the HTML, date and URL parsers
// ---------------------------------------------------------------------------

/// The text of the first element of the HTML document `html` that the CSS
/// selector `selector` matches, as `scraper` parses the document (`None` when
/// nothing matches or the selector does not parse).
pub uninterp spec fn first_selected_text(html: Seq<char>, selector: Seq<char>) -> Option<Seq<char>>;

/// Parses `html` with `scraper::Html::parse_document`, parses `selector` with
/// `scraper::Selector::parse`, and concatenates the text nodes of the first
/// element that `Html::select` yields.  The result depends on the two strings
/// alone; the contract names it and states nothing of HTML parsing itself.
#[verifier::external_body]
fn select_first_text(html: &str, selector: &str) -> (res: Option<String>)
    ensures
        text::string_option_view(res) == first_selected_text(html@, selector@),
{
    let document = ::scraper::Html::parse_document(html);
    let selector = ::scraper::Selector::parse(selector).ok()?;
    let element = document.select(&selector).next()?;
    Some(element.text().collect::<String>())
}

/// What `chrono::NaiveDateTime::parse_from_str(input, format)` gives: the date
/// and time, or the text of the parse error.
pub uninterp spec fn naive_date_time_parse(input: Seq<char>, format: Seq<char>) -> core::result::Result<ScrapeDate, Seq<char>>;

/// Calls `chrono::NaiveDateTime::parse_from_str`, hands back the fields of the
/// date and time it parsed, or the `Display` text of its `ParseError`.  The
/// result depends on the two strings alone; the contract names it and states
/// nothing of chrono's format language.
#[verifier::external_body]
fn parse_naive_date_time(input: &str, format: &str) -> (res: core::result::Result<ScrapeDate, String>)
    ensures
        string_error_view(res) == naive_date_time_parse(input@, format@),
{
    match chrono::NaiveDateTime::parse_from_str(input, format) {
        Ok(t) => Ok(ScrapeDate {
            year: t.year(), month: t.month(), day: t.day(), hour: t.hour(),
            minute: t.minute(), second: t.second(), nanosecond: t.nanosecond(),
        }),
        Err(e) => Err(e.to_string()),
    }
}

/// What `url::Url::parse(input)` and then `Url::host_str` give: the host of
/// the URL (`None` when it has none), or the text of the parse error.
pub uninterp spec fn url_host(input: Seq<char>) -> core::result::Result<Option<Seq<char>>, Seq<char>>;

/// Calls `url::Url::parse` and, on success, `Url::host_str`; an error comes
/// back as the `Display` text of `url::ParseError`.  The result depends on the
/// string alone; the contract names it and states nothing of URL syntax.
#[verifier::external_body]
fn parse_url_host(input: &str) -> (res: core::result::Result<Option<String>, String>)
    ensures
        host_result_view(res) == url_host(input@),
{
    match url::Url::parse(input) {
        Ok(parsed) => Ok(parsed.host_str().map(str::to_owned)),
        Err(e) => Err(e.to_string()),
    }
}

/// A result whose error text is taken by its characters.
pub open spec fn string_error_view<T>(r: core::result::Result<T, String>) -> core::result::Result<T, Seq<char>> {
    match r {
        Ok(v) => Ok(v),
        Err(e) => Err(e@),
    }
}

/// A host lookup result whose strings are taken by their characters.
pub open spec fn host_result_view(r: core::result::Result<Option<String>, String>) -> core::result::Result<Option<Seq<char>>, Seq<char>> {
    match r {
        Ok(h) => Ok(text::string_option_view(h)),
        Err(e) => Err(e@),
    }
}

// ---------------------------------------------------------------------------
// The analyzer interface
// ---------------------------------------------------------------------------

/// The format of an HTTP `Date` header, as `chrono` writes formats.
pub open spec fn scrape_date_format() -> Seq<char> {
    "%a, %d %b %Y %H:%M:%S GMT"@
}

/// Reads what a scrape run records out of a scraped page.
pub trait ScrapeResultAnalyzer {
    /// What `retrieve_count` gives for a page, a job title and a location.
    spec fn count_spec(&self, html: Seq<char>, job_title: Seq<char>, job_location: Seq<char>) -> core::result::Result<i32, AnalyzerError>;

    /// Converts the scraped date string, an HTTP `Date` header such as
    /// `Tue, 01 Oct 2024 12:34:56 GMT`, into a date and time.
    fn convert_scrape_date(&self, date_str: &str) -> (res: core::result::Result<ScrapeDate, String>)
        ensures
            string_error_view(res) == naive_date_time_parse(date_str@, scrape_date_format()),
    {
        parse_naive_date_time(date_str, "%a, %d %b %Y %H:%M:%S GMT")
    }

    /// Retrieves the job count from the scraped HTML.
    fn retrieve_count(&self, html: &str, job_title: &str, job_location: &str) -> (res: core::result::Result<i32, AnalyzerError>)
        ensures
            res == self.count_spec(html@, job_title@, job_location@),
    ;
}

// ---------------------------------------------------------------------------
// Glassdoor
// ---------------------------------------------------------------------------

/// The title of an HTML page: the text of its first `<title>` element.
pub open spec fn page_title(html: Seq<char>) -> Option<Seq<char>> {
    first_selected_text(html, "title"@)
}

/// The count that a page title announces: the first word of the title,
/// with its thousands separators (commas) removed, read as an `i32`.
pub open spec fn title_count_spec(title: Seq<char>) -> core::result::Result<i32, AnalyzerError> {
    match text::first_word(title) {
        None => Err(AnalyzerError::TitleFormatInvalid),
        Some(word) => match text::parsed_i32(text::without_commas(word)) {
            None => Err(AnalyzerError::CountNotFound),
            Some(n) => Ok(n),
        },
    }
}

/// Whether a lower-cased page title mentions the lower-cased job title and
/// job location, the job title checked first.
pub open spec fn title_mentions_spec(
    lower_title: Seq<char>,
    lower_job_title: Seq<char>,
    lower_job_location: Seq<char>,
) -> core::result::Result<(), AnalyzerError> {
    if !text::occurs_in(lower_title, lower_job_title) {
        Err(AnalyzerError::JobTitleNotFound)
    } else if !text::occurs_in(lower_title, lower_job_location) {
        Err(AnalyzerError::JobLocationNotFound)
    } else {
        Ok(())
    }
}

/// What the analysis of a page title gives, from the title and the lower-case
/// forms of the title, the job title and the job location.
pub open spec fn page_title_verdict(
    title: Seq<char>,
    lower_title: Seq<char>,
    lower_job_title: Seq<char>,
    lower_job_location: Seq<char>,
) -> core::result::Result<i32, AnalyzerError> {
    match title_count_spec(title) {
        Err(e) => Err(e),
        Ok(n) => match title_mentions_spec(lower_title, lower_job_title, lower_job_location) {
            Err(e) => Err(e),
            Ok(_) => Ok(n),
        },
    }
}

/// What the Glassdoor analyzer reads from a page: the count of its title,
/// provided that the title mentions the job title and the location (compared
/// without regard to case).
pub open spec fn glassdoor_count(html: Seq<char>, job_title: Seq<char>, job_location: Seq<char>) -> core::result::Result<i32, AnalyzerError> {
    match page_title(html) {
        None => Err(AnalyzerError::NoTitleElement),
        Some(t) => page_title_verdict(t, text::lowercase(t), text::lowercase(job_title), text::lowercase(job_location)),
    }
}

/// Reads the job count of Glassdoor search pages, whose title starts with
/// the number of matching posts (`1,234 Rust Developer jobs in Berlin`).
pub struct GlassdoorScrapeResultAnalyzer;

/// The count that a page title announces (see `title_count_spec`).
pub fn title_count(title: &str) -> (res: core::result::Result<i32, AnalyzerError>)
    ensures
        res == title_count_spec(title@),
{
    let chars = chars_of(title);
    match first_word_bounds(&chars) {
        None => Err(AnalyzerError::TitleFormatInvalid),
        Some((a, b)) => {
            proof {
                text::lemma_skip_word(chars@, a as int);
            }
            let digits = remove_commas(&chars, a, b);
            match parse_i32(&digits) {
                None => Err(AnalyzerError::CountNotFound),
                Some(n) => Ok(n),
            }
        },
    }
}

/// Checks that a lower-cased page title mentions the lower-cased job title,
/// then the lower-cased job location.
pub fn check_title_mentions(lower_title: &str, lower_job_title: &str, lower_job_location: &str) -> (res: core::result::Result<(), AnalyzerError>)
    ensures
        res == title_mentions_spec(lower_title@, lower_job_title@, lower_job_location@),
{
    let title = chars_of(lower_title);
    if !contains_chars(&title, &chars_of(lower_job_title)) {
        return Err(AnalyzerError::JobTitleNotFound);
    }
    if !contains_chars(&title, &chars_of(lower_job_location)) {
        return Err(AnalyzerError::JobLocationNotFound);
    }
    Ok(())
}

impl GlassdoorScrapeResultAnalyzer {
    /// The Glassdoor analyzer.
    pub fn new() -> Self {
        GlassdoorScrapeResultAnalyzer
    }

    /// Retrieves the page title from the scraped HTML.
    pub fn retrieve_page_title(&self, html: &str) -> (res: core::result::Result<String, AnalyzerError>)
        ensures
            match res {
                Ok(t) => page_title(html@) == Some(t@),
                Err(e) => page_title(html@) is None && e == AnalyzerError::NoTitleElement,
            },
    {
        match select_first_text(html, "title") {
            Some(t) => Ok(t),
            None => Err(AnalyzerError::NoTitleElement),
        }
    }

    /// Reads the count from a page title and checks that the title mentions
    /// the job title and the job location, without regard to case.
    pub fn analyze_page_title(&self, title: &str, job_title: &str, job_location: &str) -> (res: core::result::Result<i32, AnalyzerError>)
        ensures
            res == page_title_verdict(title@, text::lowercase(title@), text::lowercase(job_title@), text::lowercase(job_location@)),
    {
        let count = match title_count(title) {
            Ok(n) => n,
            Err(e) => return Err(e),
        };
        let lower_title = to_lowercase(title);
        let lower_job_title = to_lowercase(job_title);
        let lower_job_location = to_lowercase(job_location);
        match check_title_mentions(lower_title.as_str(), lower_job_title.as_str(), lower_job_location.as_str()) {
            Ok(()) => Ok(count),
            Err(e) => Err(e),
        }
    }
}

impl ScrapeResultAnalyzer for GlassdoorScrapeResultAnalyzer {
    open spec fn count_spec(&self, html: Seq<char>, job_title: Seq<char>, job_location: Seq<char>) -> core::result::Result<i32, AnalyzerError> {
        glassdoor_count(html, job_title, job_location)
    }

    fn retrieve_count(&self, html: &str, job_title: &str, job_location: &str) -> (res: core::result::Result<i32, AnalyzerError>) {
        let title = match self.retrieve_page_title(html) {
            Ok(t) => t,
            Err(e) => return Err(e),
        };
        self.analyze_page_title(title.as_str(), job_title, job_location)
    }
}

/// What `get_analyzer` gives for a URL whose host parse gave `host`.
pub open spec fn analyzer_choice_matches(
    res: core::result::Result<GlassdoorScrapeResultAnalyzer, AnalyzerError>,
    host: core::result::Result<Option<Seq<char>>, Seq<char>>,
) -> bool {
    match host {
        Err(msg) => res matches Err(AnalyzerError::InvalidUrl(m)) && m@ == msg,
        Ok(None) => res == Err::<GlassdoorScrapeResultAnalyzer, AnalyzerError>(AnalyzerError::NoHost),
        Ok(Some(h)) => if text::occurs_in(h, "glassdoor"@) {
            res is Ok
        } else {
            res == Err::<GlassdoorScrapeResultAnalyzer, AnalyzerError>(AnalyzerError::NoAnalyzer)
        },
    }
}

/// Chooses the analyzer for a target URL by its host: hosts that mention
/// `glassdoor` get the Glassdoor analyzer; other hosts have none.
pub fn get_analyzer(url: &str) -> (res: core::result::Result<GlassdoorScrapeResultAnalyzer, AnalyzerError>)
    ensures
        analyzer_choice_matches(res, url_host(url@)),
{
    match parse_url_host(url) {
        Err(m) => Err(AnalyzerError::InvalidUrl(m)),
        Ok(None) => Err(AnalyzerError::NoHost),
        Ok(Some(host)) => {
            if contains_chars(&chars_of(host.as_str()), &chars_of("glassdoor")) {
                Ok(GlassdoorScrapeResultAnalyzer::new())
            } else {
                Err(AnalyzerError::NoAnalyzer)
            }
        },
    }
}

// ---------------------------------------------------------------------------
// Laws of the analysis
// ---------------------------------------------------------------------------

/// The count of a page title is read from its first word, found directly:
/// the text from `i` up to `j`, where only white space comes before `i`,
/// none from `i` up to `j`, and white space or the end at `j`.  With commas
/// removed, that word gives the count whenever it parses as an `i32`, and
/// `CountNotFound` otherwise; no count is refused for its value.
pub proof fn lemma_title_count_reads_first_word(title: Seq<char>, i: int, j: int)
    requires
        0 <= i < j <= title.len(),
        forall|m: int| 0 <= m < i ==> text::white_space(#[trigger] title[m]),
        forall|m: int| i <= m < j ==> !text::white_space(#[trigger] title[m]),
        j == title.len() || text::white_space(title[j]),
    ensures
        title_count_spec(title) == match text::parsed_i32(text::without_commas(title.subrange(i, j))) {
            Some(n) => Ok::<i32, AnalyzerError>(n),
            None => Err::<i32, AnalyzerError>(AnalyzerError::CountNotFound),
        },
{
    text::lemma_first_word_at(title, i, j);
}

/// A page title whose first word is made of ASCII digits and commas, with at
/// least one digit and a value that fits in an `i32`, announces the number
/// that its digits write, zero and large counts alike.
pub proof fn lemma_title_count_of_digits(title: Seq<char>, i: int, j: int)
    requires
        0 <= i < j <= title.len(),
        forall|m: int| 0 <= m < i ==> text::white_space(#[trigger] title[m]),
        forall|m: int| i <= m < j ==> text::is_ascii_digit(#[trigger] title[m]) || title[m] == ',',
        j == title.len() || text::white_space(title[j]),
        text::without_commas(title.subrange(i, j)).len() > 0,
        text::digits_value(text::without_commas(title.subrange(i, j))) <= i32::MAX,
    ensures
        title_count_spec(title) == Ok::<i32, AnalyzerError>(
            text::digits_value(text::without_commas(title.subrange(i, j))) as i32,
        ),
{
    let w = title.subrange(i, j);
    let d = text::without_commas(w);
    assert forall|m: int| i <= m < j implies !text::white_space(#[trigger] title[m]) by {
        assert(text::is_ascii_digit(title[m]) || title[m] == ',');
    }
    text::lemma_without_commas_chars(w);
    assert forall|k: int| 0 <= k < d.len() implies text::is_ascii_digit(#[trigger] d[k]) by {
        let m: int = choose|m: int| 0 <= m < w.len() && w[m] == d[k];
        assert(w[m] == title[i + m]);
    }
    text::lemma_parsed_i32_of_digits(d);
    lemma_title_count_reads_first_word(title, i, j);
}

/// The mention check passes exactly when the whole job title and the whole
/// job location each occur, as runs of consecutive characters, in the title;
/// a missing job title is reported before a missing location.
pub proof fn lemma_title_mentions_are_whole_occurrences(
    title: Seq<char>,
    job_title: Seq<char>,
    job_location: Seq<char>,
)
    ensures
        title_mentions_spec(title, job_title, job_location) is Ok <==> ((exists|i: int|
            0 <= i && i + job_title.len() <= title.len() && #[trigger] title.subrange(
                i,
                i + job_title.len(),
            ) == job_title) && (exists|i: int|
            0 <= i && i + job_location.len() <= title.len() && #[trigger] title.subrange(
                i,
                i + job_location.len(),
            ) == job_location)),
        !(exists|i: int|
            0 <= i && i + job_title.len() <= title.len() && #[trigger] title.subrange(
                i,
                i + job_title.len(),
            ) == job_title) ==> title_mentions_spec(title, job_title, job_location) == Err::<
            (),
            AnalyzerError,
        >(AnalyzerError::JobTitleNotFound),
        (exists|i: int|
            0 <= i && i + job_title.len() <= title.len() && #[trigger] title.subrange(
                i,
                i + job_title.len(),
            ) == job_title) && !(exists|i: int|
            0 <= i && i + job_location.len() <= title.len() && #[trigger] title.subrange(
                i,
                i + job_location.len(),
            ) == job_location) ==> title_mentions_spec(title, job_title, job_location) == Err::<
            (),
            AnalyzerError,
        >(AnalyzerError::JobLocationNotFound),
{
}

/// The Glassdoor analyzer reads the count `n` from a page whenever the page
/// has a title, the title announces `n`, and the lower-cased title holds the
/// whole lower-cased job title and the whole lower-cased location.
pub proof fn lemma_glassdoor_count_when_steps_succeed(
    html: Seq<char>,
    job_title: Seq<char>,
    job_location: Seq<char>,
    title: Seq<char>,
    n: i32,
)
    requires
        page_title(html) == Some(title),
        title_count_spec(title) == Ok::<i32, AnalyzerError>(n),
        exists|i: int|
            0 <= i && i + text::lowercase(job_title).len() <= text::lowercase(title).len()
                && #[trigger] text::lowercase(title).subrange(
                i,
                i + text::lowercase(job_title).len(),
            ) == text::lowercase(job_title),
        exists|i: int|
            0 <= i && i + text::lowercase(job_location).len() <= text::lowercase(title).len()
                && #[trigger] text::lowercase(title).subrange(
                i,
                i + text::lowercase(job_location).len(),
            ) == text::lowercase(job_location),
    ensures
        glassdoor_count(html, job_title, job_location) == Ok::<i32, AnalyzerError>(n),
{
    lemma_title_mentions_are_whole_occurrences(
        text::lowercase(title),
        text::lowercase(job_title),
        text::lowercase(job_location),
    );
}

/// The analyzer is chosen by the host alone: a URL whose host holds
/// `glassdoor` anywhere gets the Glassdoor analyzer, and `NoAnalyzer` comes
/// only for a URL with a host that holds `glassdoor` nowhere.
pub proof fn lemma_analyzer_chosen_by_host(
    res: core::result::Result<GlassdoorScrapeResultAnalyzer, AnalyzerError>,
    url: Seq<char>,
)
    requires
        analyzer_choice_matches(res, url_host(url)),
    ensures
        (url_host(url) matches Ok(Some(h)) && exists|i: int|
            0 <= i && i + "glassdoor"@.len() <= h.len() && #[trigger] h.subrange(
                i,
                i + "glassdoor"@.len(),
            ) == "glassdoor"@) ==> res is Ok,
        res is Ok ==> (url_host(url) matches Ok(Some(h)) && exists|i: int|
            0 <= i && i + "glassdoor"@.len() <= h.len() && #[trigger] h.subrange(
                i,
                i + "glassdoor"@.len(),
            ) == "glassdoor"@),
        res == Err::<GlassdoorScrapeResultAnalyzer, AnalyzerError>(AnalyzerError::NoAnalyzer) ==> (
        url_host(url) matches Ok(Some(h)) && forall|i: int|
            0 <= i && i + "glassdoor"@.len() <= h.len() ==> #[trigger] h.subrange(
                i,
                i + "glassdoor"@.len(),
            ) != "glassdoor"@),
{
}

} // verus!
