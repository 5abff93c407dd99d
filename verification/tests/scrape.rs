use job_post_counts_scraper_cargo_lambda::db::models::{Result as Record, ScrapeDate, Target};
use job_post_counts_scraper_cargo_lambda::scraper::analyzer::AnalyzerError;
use job_post_counts_scraper_cargo_lambda::scraper::scrape::{
    analyze_target, assemble_results, scrape, ScrapeFailure,
};
use job_post_counts_scraper_cargo_lambda::scraper::scraper::ScrapedResult;

const DATE: &str = "Tue, 01 Oct 2024 12:34:56 GMT";

fn page(title: &str) -> String {
    format!("<html><head><title>{}</title></head><body></body></html>", title)
}

fn target(id: i32, url: &str, job_title: &str, job_location: &str) -> Target {
    Target {
        id,
        url: url.to_string(),
        job_title: job_title.to_string(),
        job_location: job_location.to_string(),
    }
}

fn scraped(title: &str, date: &str) -> Result<ScrapedResult, String> {
    Ok(ScrapedResult { scraped_date: date.to_string(), scraped_html: page(title) })
}

fn date() -> ScrapeDate {
    ScrapeDate { year: 2024, month: 10, day: 1, hour: 12, minute: 34, second: 56, nanosecond: 0 }
}

#[test]
fn analyze_target_succeeds_on_a_matching_page() {
    let t = target(3, "https://www.glassdoor.com/Job/a.htm", "Rust Developer", "Berlin");
    assert_eq!(
        analyze_target(&t, &scraped("1,234 Rust Developer Jobs in Berlin", DATE)),
        Ok((1234, date()))
    );
}

#[test]
fn analyze_target_reports_the_first_failing_step() {
    let t = target(3, "https://www.glassdoor.com/Job/a.htm", "Rust Developer", "Berlin");
    assert_eq!(
        analyze_target(&t, &Err("connection refused".to_string())),
        Err(ScrapeFailure::Request("connection refused".to_string()))
    );
    let other = target(4, "https://www.example.com/a", "Rust Developer", "Berlin");
    assert_eq!(
        analyze_target(&other, &scraped("no count", "garbage")),
        Err(ScrapeFailure::Analyzer(AnalyzerError::NoAnalyzer))
    );
    assert_eq!(
        analyze_target(&t, &scraped("Rust Developer Jobs in Berlin", "garbage")),
        Err(ScrapeFailure::Count(AnalyzerError::CountNotFound))
    );
    assert_eq!(
        analyze_target(&t, &scraped("12 Rust Developer Jobs in Berlin", "Tue, 01 Oct 2024")),
        Err(ScrapeFailure::Date("premature end of input".to_string()))
    );
}

#[test]
fn failure_reports_name_the_target() {
    let url = "https://www.glassdoor.com/Job/a.htm";
    assert_eq!(
        ScrapeFailure::Request("timeout".to_string()).report(url),
        format!("Error scraping {}: timeout", url)
    );
    assert_eq!(
        ScrapeFailure::Analyzer(AnalyzerError::NoHost).report(url),
        format!("Error getting analyzer for {}: No host in URL", url)
    );
    assert_eq!(
        ScrapeFailure::Count(AnalyzerError::JobTitleNotFound).report(url),
        format!("Error analyzing count for {}: Job title not found in page title", url)
    );
    assert_eq!(
        ScrapeFailure::Date("trailing input".to_string()).report(url),
        format!("Error converting date for {}: trailing input", url)
    );
}

#[test]
fn scrape_gives_consecutive_ids_to_the_successes_in_order() {
    let targets = vec![
        target(1, "https://www.glassdoor.com/Job/a.htm", "Rust Developer", "Berlin"),
        target(2, "https://www.glassdoor.com/Job/b.htm", "Go Developer", "Paris"),
        target(3, "https://www.glassdoor.com/Job/c.htm", "Data Engineer", "Oslo"),
        target(4, "https://www.glassdoor.com/Job/d.htm", "Designer", "Rome"),
    ];
    let outcomes = vec![
        scraped("10 Rust Developer Jobs in Berlin", DATE),
        Err("timeout".to_string()),
        scraped("2,000 Data Engineer Jobs in Oslo", DATE),
        scraped("5 Designer Jobs in Rome", DATE),
    ];
    let (analyses, records) = scrape(41, &targets, &outcomes);
    assert_eq!(analyses.len(), 4);
    assert_eq!(analyses[1], Err(ScrapeFailure::Request("timeout".to_string())));
    let records = records.unwrap();
    let expected = vec![
        Record {
            id: 41,
            url: targets[0].url.clone(),
            job_title: "Rust Developer".to_string(),
            job_location: "Berlin".to_string(),
            scrape_date: date(),
            count: 10,
        },
        Record {
            id: 42,
            url: targets[2].url.clone(),
            job_title: "Data Engineer".to_string(),
            job_location: "Oslo".to_string(),
            scrape_date: date(),
            count: 2000,
        },
        Record {
            id: 43,
            url: targets[3].url.clone(),
            job_title: "Designer".to_string(),
            job_location: "Rome".to_string(),
            scrape_date: date(),
            count: 5,
        },
    ];
    assert_eq!(records, expected);
}

#[test]
fn scrape_of_no_targets_records_nothing() {
    let (analyses, records) = scrape(1, &vec![], &vec![]);
    assert!(analyses.is_empty());
    assert_eq!(records, Some(vec![]));
}

#[test]
fn scrape_refuses_ids_past_i32_max() {
    let targets = vec![
        target(1, "https://www.glassdoor.com/Job/a.htm", "Rust", "Berlin"),
        target(2, "https://www.glassdoor.com/Job/b.htm", "Rust", "Berlin"),
    ];
    let outcomes = vec![scraped("1 Rust Jobs in Berlin", DATE), scraped("2 Rust Jobs in Berlin", DATE)];
    let (_, records) = scrape(i32::MAX, &targets, &outcomes);
    assert_eq!(records, None);
    let (_, records) = scrape(i32::MAX - 1, &targets, &outcomes);
    let ids: Vec<i32> = records.unwrap().iter().map(|r| r.id).collect();
    assert_eq!(ids, vec![i32::MAX - 1, i32::MAX]);
    let outcomes = vec![scraped("1 Rust Jobs in Berlin", DATE), Err("down".to_string())];
    let (_, records) = scrape(i32::MAX, &targets, &outcomes);
    assert_eq!(records.unwrap().iter().map(|r| r.id).collect::<Vec<i32>>(), vec![i32::MAX]);
}

#[test]
fn assemble_results_skips_failures() {
    let targets = vec![
        target(1, "u1", "t1", "l1"),
        target(2, "u2", "t2", "l2"),
        target(3, "u3", "t3", "l3"),
    ];
    let analyses = vec![
        Err(ScrapeFailure::Date("x".to_string())),
        Ok((7, date())),
        Ok((-1, date())),
    ];
    let records = assemble_results(-5, &targets, &analyses);
    assert_eq!(records.iter().map(|r| (r.id, r.url.as_str(), r.count)).collect::<Vec<_>>(), vec![(-5, "u2", 7), (-4, "u3", -1)]);
}
