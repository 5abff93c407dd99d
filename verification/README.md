# job_post_counts_scraper_cargo_lambda

A scheduled AWS Lambda function that scrapes job-search pages through a scrape
service and stores how many job posts each page announces.

- `src/` is the library, verified with Verus:
  - `text` — Unicode white space, words, trimming, substring search, comma
    removal and `i32` parsing, each proved against a specification;
  - `scraper::analyzer` — reading the count out of a Glassdoor page title and
    the date out of the scrape's `Date` header, and choosing the analyzer by
    the target URL's host;
  - `scraper::scrape` — a scrape run: one analysis per target, and records with
    consecutive ids for the targets whose analysis succeeded;
  - `scraper::scraper` — the scrape service client's request and result;
  - `db::models`, `db::connect` — the records, and the connection URL with the
    password percent-encoded;
  - `repository::target` — the single target of a dry run.
- `app/` is the Lambda handler: environment, secrets, HTTP requests and the
  database, around the library.
- `tests/` runs the library on concrete inputs.
