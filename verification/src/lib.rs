//! Verified core of a job-post-count scraper: reading job counts out of
//! scraped search pages, assembling the records of a scrape run, and building
//! the database connection URL.
pub mod db;
pub mod text;
pub mod scraper;
pub mod repository;
