//! Scraping search pages and reading job-post counts out of them.
pub mod analyzer;
pub mod scrape;
pub mod scraper;
