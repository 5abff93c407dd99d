use job_post_counts_scraper_cargo_lambda::db::models::ScrapeDate;
use job_post_counts_scraper_cargo_lambda::scraper::analyzer::{
    check_title_mentions, get_analyzer, title_count, AnalyzerError, GlassdoorScrapeResultAnalyzer,
    ScrapeResultAnalyzer,
};

const PAGE: &str = "<!DOCTYPE html><html><head><meta charset=\"utf-8\">\
<title>1,234 Rust Developer Jobs in Berlin, Germany | Glassdoor</title></head>\
<body><h1>Jobs</h1><title>99 other jobs</title></body></html>";

#[test]
fn title_count_reads_the_first_word_without_commas() {
    assert_eq!(title_count("1,234 Rust Developer Jobs in Berlin"), Ok(1234));
    assert_eq!(title_count("  42\tjobs"), Ok(42));
    assert_eq!(title_count("2,147,483,647 jobs"), Ok(2147483647));
    assert_eq!(title_count("-5 jobs"), Ok(-5));
    assert_eq!(title_count("7"), Ok(7));
}

#[test]
fn title_count_errors() {
    assert_eq!(title_count(""), Err(AnalyzerError::TitleFormatInvalid));
    assert_eq!(title_count(" \n\t "), Err(AnalyzerError::TitleFormatInvalid));
    assert_eq!(title_count("Rust Developer Jobs"), Err(AnalyzerError::CountNotFound));
    assert_eq!(title_count("2,147,483,648 jobs"), Err(AnalyzerError::CountNotFound));
    assert_eq!(title_count(", jobs"), Err(AnalyzerError::CountNotFound));
    assert_eq!(title_count("1.5k jobs"), Err(AnalyzerError::CountNotFound));
}

#[test]
fn check_title_mentions_checks_title_then_location() {
    let title = "1,234 rust developer jobs in berlin, germany";
    assert_eq!(check_title_mentions(title, "rust developer", "berlin"), Ok(()));
    assert_eq!(
        check_title_mentions(title, "go developer", "berlin"),
        Err(AnalyzerError::JobTitleNotFound)
    );
    assert_eq!(
        check_title_mentions(title, "go developer", "paris"),
        Err(AnalyzerError::JobTitleNotFound)
    );
    assert_eq!(
        check_title_mentions(title, "rust developer", "paris"),
        Err(AnalyzerError::JobLocationNotFound)
    );
    assert_eq!(check_title_mentions(title, "", ""), Ok(()));
}

#[test]
fn analyze_page_title_ignores_case() {
    let analyzer = GlassdoorScrapeResultAnalyzer::new();
    let title = "1,234 Rust Developer Jobs in Berlin, Germany | Glassdoor";
    assert_eq!(analyzer.analyze_page_title(title, "rust DEVELOPER", "BERLIN"), Ok(1234));
    assert_eq!(
        analyzer.analyze_page_title(title, "Java Developer", "Berlin"),
        Err(AnalyzerError::JobTitleNotFound)
    );
    assert_eq!(
        analyzer.analyze_page_title(title, "Rust Developer", "Munich"),
        Err(AnalyzerError::JobLocationNotFound)
    );
    assert_eq!(
        analyzer.analyze_page_title("Jobs in Berlin", "Jobs", "Berlin"),
        Err(AnalyzerError::CountNotFound)
    );
    assert_eq!(
        analyzer.analyze_page_title("   ", "Jobs", "Berlin"),
        Err(AnalyzerError::TitleFormatInvalid)
    );
}

#[test]
fn retrieve_page_title_takes_the_first_title_element() {
    let analyzer = GlassdoorScrapeResultAnalyzer::new();
    assert_eq!(
        analyzer.retrieve_page_title(PAGE),
        Ok("1,234 Rust Developer Jobs in Berlin, Germany | Glassdoor".to_string())
    );
    assert_eq!(
        analyzer.retrieve_page_title("<html><body><p>no title</p></body></html>"),
        Err(AnalyzerError::NoTitleElement)
    );
}

#[test]
fn retrieve_count_reads_the_page() {
    let analyzer = GlassdoorScrapeResultAnalyzer::new();
    assert_eq!(analyzer.retrieve_count(PAGE, "Rust Developer", "berlin"), Ok(1234));
    assert_eq!(
        analyzer.retrieve_count(PAGE, "Rust Developer", "Hamburg"),
        Err(AnalyzerError::JobLocationNotFound)
    );
    assert_eq!(
        analyzer.retrieve_count("", "Rust Developer", "Berlin"),
        Err(AnalyzerError::NoTitleElement)
    );
}

#[test]
fn convert_scrape_date_reads_http_dates() {
    let analyzer = GlassdoorScrapeResultAnalyzer::new();
    assert_eq!(
        analyzer.convert_scrape_date("Tue, 01 Oct 2024 12:34:56 GMT"),
        Ok(ScrapeDate { year: 2024, month: 10, day: 1, hour: 12, minute: 34, second: 56, nanosecond: 0 })
    );
    let expected = chrono::NaiveDateTime::parse_from_str("not a date", "%a, %d %b %Y %H:%M:%S GMT")
        .unwrap_err()
        .to_string();
    assert_eq!(analyzer.convert_scrape_date("not a date"), Err(expected));
    assert_eq!(
        analyzer.convert_scrape_date("Tue, 01 Oct 2024 12:34:56"),
        Err("premature end of input".to_string())
    );
    assert_eq!(
        analyzer.convert_scrape_date("Tue, 31 Feb 2024 12:34:56 GMT"),
        Err("input is out of range".to_string())
    );
}

#[test]
fn get_analyzer_chooses_by_host() {
    assert!(get_analyzer("https://www.glassdoor.com/Job/berlin-rust-developer-jobs.htm").is_ok());
    assert!(get_analyzer("https://glassdoor.de/Job/x").is_ok());
    assert_eq!(
        get_analyzer("https://www.example.com/glassdoor").err(),
        Some(AnalyzerError::NoAnalyzer)
    );
    assert_eq!(get_analyzer("unix:/run/foo.socket").err(), Some(AnalyzerError::NoHost));
    assert_eq!(
        get_analyzer("not a url").err(),
        Some(AnalyzerError::InvalidUrl("relative URL without a base".to_string()))
    );
}

#[test]
fn analyzer_error_messages() {
    let cases = [
        (AnalyzerError::NoTitleElement, "No title element found in HTML"),
        (AnalyzerError::TitleFormatInvalid, "Title format invalid"),
        (AnalyzerError::CountNotFound, "Count not found in title"),
        (AnalyzerError::JobTitleNotFound, "Job title not found in page title"),
        (AnalyzerError::JobLocationNotFound, "Job location not found in page title"),
        (AnalyzerError::InvalidUrl("empty host".to_string()), "empty host"),
        (AnalyzerError::NoHost, "No host in URL"),
        (AnalyzerError::NoAnalyzer, "No analyzer available for this URL"),
    ];
    for (e, m) in cases {
        assert_eq!(e.message(), m);
    }
}
