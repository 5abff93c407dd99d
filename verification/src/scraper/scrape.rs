//! A scrape run: each target's scraped page is analysed, and the targets whose
//! analysis succeeds become records with consecutive ids.
use crate::db::models::{self, ScrapeDate, Target};
use crate::scraper::analyzer::{
    self, get_analyzer, AnalyzerError, GlassdoorScrapeResultAnalyzer, ScrapeResultAnalyzer,
};
use crate::scraper::scraper::ScrapedResult;
use crate::text;
use vstd::prelude::*;

verus! {

/// Why a target yields no record.
#[derive(Debug, Clone, PartialEq, Eq)]
pub enum ScrapeFailure {
    /// The scrape request failed; the text is the request error.
    Request(String),
    /// No analyzer could be chosen for the target URL.
    Analyzer(AnalyzerError),
    /// The analyzer found no count in the page.
    Count(AnalyzerError),
    /// The scrape date did not parse; the text is the parse error.
    Date(String),
}

impl ScrapeFailure {
    /// The line that reports the failure for the target at `target_url`.
    pub open spec fn report_spec(&self, target_url: Seq<char>) -> Seq<char> {
        match self {
            ScrapeFailure::Request(m) => "Error scraping "@ + target_url + ": "@ + m@,
            ScrapeFailure::Analyzer(e) => "Error getting analyzer for "@ + target_url + ": "@
                + e.message_spec(),
            ScrapeFailure::Count(e) => "Error analyzing count for "@ + target_url + ": "@
                + e.message_spec(),
            ScrapeFailure::Date(m) => "Error converting date for "@ + target_url + ": "@ + m@,
        }
    }

    /// The line that reports the failure for the target at `target_url`.
    pub fn report(&self, target_url: &str) -> (res: String)
        ensures
            res@ == self.report_spec(target_url@),
    {
        let (mut line, detail) = match self {
            ScrapeFailure::Request(m) => ("Error scraping ".to_owned(), m.clone()),
            ScrapeFailure::Analyzer(e) => ("Error getting analyzer for ".to_owned(), e.message()),
            ScrapeFailure::Count(e) => ("Error analyzing count for ".to_owned(), e.message()),
            ScrapeFailure::Date(m) => ("Error converting date for ".to_owned(), m.clone()),
        };
        line.append(target_url);
        line.append(": ");
        line.append(detail.as_str());
        line
    }
}

/// What the analysis of one target gives: its count and scrape date, or why
/// it yields no record.
pub type Analysis = core::result::Result<(i32, ScrapeDate), ScrapeFailure>;

/// Whether `res` is what analysing `target` gives when its scrape request
/// ended with `outcome`: a failed request is reported; then the analyzer is
/// chosen by the URL's host; then the count is read from the page; then the
/// scrape date is parsed.  The first step that fails decides the failure.
pub open spec fn analysis_matches(
    res: Analysis,
    target: Target,
    outcome: core::result::Result<ScrapedResult, String>,
) -> bool {
    match outcome {
        Err(e) => res matches Err(ScrapeFailure::Request(m)) && m@ == e@,
        Ok(scraped) => match analyzer::url_host(target.url@) {
            Err(msg) => res matches Err(ScrapeFailure::Analyzer(AnalyzerError::InvalidUrl(m)))
                && m@ == msg,
            Ok(None) => res == Err::<(i32, ScrapeDate), ScrapeFailure>(
                ScrapeFailure::Analyzer(AnalyzerError::NoHost),
            ),
            Ok(Some(host)) => if !text::occurs_in(host, "glassdoor"@) {
                res == Err::<(i32, ScrapeDate), ScrapeFailure>(
                    ScrapeFailure::Analyzer(AnalyzerError::NoAnalyzer),
                )
            } else {
                match analyzer::glassdoor_count(
                    scraped.scraped_html@,
                    target.job_title@,
                    target.job_location@,
                ) {
                    Err(e) => res == Err::<(i32, ScrapeDate), ScrapeFailure>(
                        ScrapeFailure::Count(e),
                    ),
                    Ok(count) => match analyzer::naive_date_time_parse(
                        scraped.scraped_date@,
                        analyzer::scrape_date_format(),
                    ) {
                        Err(msg) => res matches Err(ScrapeFailure::Date(m)) && m@ == msg,
                        Ok(date) => res == Ok::<(i32, ScrapeDate), ScrapeFailure>((count, date)),
                    },
                }
            },
        },
    }
}

/// Analyses one target whose scrape request ended with `outcome`.
pub fn analyze_target(target: &Target, outcome: &core::result::Result<ScrapedResult, String>) -> (res: Analysis)
    ensures
        analysis_matches(res, *target, *outcome),
{
    let scraped = match outcome {
        Ok(s) => s,
        Err(e) => return Err(ScrapeFailure::Request(e.clone())),
    };
    let analyzer: GlassdoorScrapeResultAnalyzer = match get_analyzer(target.url.as_str()) {
        Ok(a) => a,
        Err(e) => return Err(ScrapeFailure::Analyzer(e)),
    };
    let count = match analyzer.retrieve_count(
        scraped.scraped_html.as_str(),
        target.job_title.as_str(),
        target.job_location.as_str(),
    ) {
        Ok(c) => c,
        Err(e) => return Err(ScrapeFailure::Count(e)),
    };
    let scrape_date = match analyzer.convert_scrape_date(scraped.scraped_date.as_str()) {
        Ok(d) => d,
        Err(e) => return Err(ScrapeFailure::Date(e)),
    };
    Ok((count, scrape_date))
}

/// The number of analyses that succeeded.
pub open spec fn successes(analyses: Seq<Analysis>) -> nat
    decreases analyses.len(),
{
    if analyses.len() == 0 {
        0
    } else {
        successes(analyses.drop_last()) + if analyses.last() is Ok {
            1nat
        } else {
            0nat
        }
    }
}

/// Whether `record` is the record with id `id` of `target`, whose analysis
/// found `found`.
pub open spec fn is_record_of(record: models::Result, id: int, target: Target, found: (i32, ScrapeDate)) -> bool {
    &&& record.id == id
    &&& record.url@ == target.url@
    &&& record.job_title@ == target.job_title@
    &&& record.job_location@ == target.job_location@
    &&& record.count == found.0
    &&& record.scrape_date == found.1
}

/// Whether `records` are the records of a run whose targets are `targets`
/// and whose analyses are `analyses`: one record per successful analysis, in
/// the order of the targets, the first with id `next_result_id`, each next
/// one with the next id.
pub open spec fn records_match(
    next_result_id: int,
    targets: Seq<Target>,
    analyses: Seq<Analysis>,
    records: Seq<models::Result>,
) -> bool {
    &&& records.len() == successes(analyses)
    &&& forall|j: int|
        0 <= j < analyses.len() && #[trigger] analyses[j] is Ok ==> {
            let k: nat = successes(analyses.take(j));
            is_record_of(records[k as int], next_result_id + k, targets[j], analyses[j]->Ok_0)
        }
}

pub proof fn lemma_successes_take(analyses: Seq<Analysis>, i: int)
    requires
        0 <= i < analyses.len(),
    ensures
        successes(analyses.take(i + 1)) == successes(analyses.take(i)) + if analyses[i] is Ok {
            1nat
        } else {
            0nat
        },
{
    assert(analyses.take(i + 1).drop_last() =~= analyses.take(i));
}

/// Counting successes over a longer prefix never gives fewer.
pub proof fn lemma_successes_monotone(analyses: Seq<Analysis>, i: int, j: int)
    requires
        0 <= i <= j <= analyses.len(),
    ensures
        successes(analyses.take(i)) <= successes(analyses.take(j)),
    decreases j - i,
{
    if i < j {
        lemma_successes_take(analyses, j - 1);
        lemma_successes_monotone(analyses, i, j - 1);
    }
}

pub proof fn lemma_successes_at_most_len(analyses: Seq<Analysis>)
    ensures
        successes(analyses) <= analyses.len(),
    decreases analyses.len(),
{
    if analyses.len() > 0 {
        lemma_successes_at_most_len(analyses.drop_last());
    }
}

/// Builds the records of a run from its targets and their analyses, giving
/// the successful ones consecutive ids from `next_result_id` on.
pub fn assemble_results(next_result_id: i32, targets: &Vec<Target>, analyses: &Vec<Analysis>) -> (records: Vec<models::Result>)
    requires
        targets@.len() == analyses@.len(),
        next_result_id + successes(analyses@) <= i32::MAX + 1,
        successes(analyses@) <= i32::MAX + 1,
    ensures
        records_match(next_result_id as int, targets@, analyses@, records@),
{
    let mut records: Vec<models::Result> = Vec::new();
    let n: usize = analyses.len();
    let mut i: usize = 0;
    assert(analyses@.take(0) =~= Seq::<Analysis>::empty());
    while i < n
        invariant
            n == analyses@.len() == targets@.len(),
            i <= n,
            next_result_id + successes(analyses@) <= i32::MAX + 1,
            successes(analyses@) <= i32::MAX + 1,
            records@.len() == successes(analyses@.take(i as int)),
            forall|j: int|
                0 <= j < i && #[trigger] analyses@[j] is Ok ==> {
                    let k: nat = successes(analyses@.take(j));
                    is_record_of(
                        records@[k as int],
                        next_result_id + k,
                        targets@[j],
                        analyses@[j]->Ok_0,
                    )
                },
        decreases n - i,
    {
        proof {
            lemma_successes_take(analyses@, i as int);
            lemma_successes_monotone(analyses@, i + 1, n as int);
            assert(analyses@.take(n as int) =~= analyses@);
        }
        match &analyses[i] {
            Ok((count, scrape_date)) => {
                let target = &targets[i];
                let index: usize = records.len();
                let id: i32 = next_result_id + index as i32;
                let record = models::Result {
                    id,
                    url: target.url.clone(),
                    job_title: target.job_title.clone(),
                    job_location: target.job_location.clone(),
                    scrape_date: *scrape_date,
                    count: *count,
                };
                records.push(record);
                proof {
                    assert forall|j: int|
                        0 <= j < i + 1 && #[trigger] analyses@[j] is Ok implies {
                        let k: nat = successes(analyses@.take(j));
                        is_record_of(
                            records@[k as int],
                            next_result_id + k,
                            targets@[j],
                            analyses@[j]->Ok_0,
                        )
                    } by {
                        if j < i {
                            lemma_successes_monotone(analyses@, j + 1, i as int);
                            lemma_successes_take(analyses@, j);
                        }
                    }
                }
            },
            Err(_) => {},
        }
        i = i + 1;
    }
    assert(analyses@.take(n as int) =~= analyses@);
    records
}

/// The records of a run carry consecutive ids: the `k`-th record has id
/// `next_result_id + k`, and there are no more records than targets.
pub proof fn lemma_record_ids_consecutive(
    next_result_id: int,
    targets: Seq<Target>,
    analyses: Seq<Analysis>,
    records: Seq<models::Result>,
)
    requires
        records_match(next_result_id, targets, analyses, records),
    ensures
        records.len() <= analyses.len(),
        forall|k: int| 0 <= k < records.len() ==> #[trigger] records[k].id == next_result_id + k,
{
    lemma_successes_at_most_len(analyses);
    assert forall|k: int| 0 <= k < records.len() implies #[trigger] records[k].id == next_result_id
        + k by {
        let j: int = lemma_kth_success(analyses, k);
    }
}

/// The `k`-th success of a run is at some position `j` whose preceding
/// analyses hold exactly `k` successes.
pub proof fn lemma_kth_success(analyses: Seq<Analysis>, k: int) -> (j: int)
    requires
        0 <= k < successes(analyses),
    ensures
        0 <= j < analyses.len(),
        analyses[j] is Ok,
        successes(analyses.take(j)) == k,
    decreases analyses.len(),
{
    let n: int = analyses.len() as int;
    assert(analyses.take(n - 1) =~= analyses.drop_last());
    if k < successes(analyses.drop_last()) {
        let j: int = lemma_kth_success(analyses.drop_last(), k);
        assert(analyses.drop_last().take(j) =~= analyses.take(j));
        j
    } else {
        n - 1
    }
}

/// Every record of a run holds what the analyzer read for one of its
/// targets: that target's URL, job title and location, the count that the
/// page scraped for it announces, and the date of that scrape.
pub proof fn lemma_records_hold_what_pages_announce(
    next_result_id: int,
    targets: Seq<Target>,
    outcomes: Seq<core::result::Result<ScrapedResult, String>>,
    analyses: Seq<Analysis>,
    records: Seq<models::Result>,
)
    requires
        targets.len() == outcomes.len(),
        analyses.len() == targets.len(),
        forall|j: int|
            0 <= j < targets.len() ==> analysis_matches(#[trigger] analyses[j], targets[j], outcomes[j]),
        records_match(next_result_id, targets, analyses, records),
    ensures
        forall|k: int|
            #![trigger records[k]]
            0 <= k < records.len() ==> exists|j: int|
                {
                    &&& 0 <= j < targets.len()
                    &&& #[trigger] outcomes[j] matches Ok(scraped)
                    &&& records[k].url@ == targets[j].url@
                    &&& records[k].job_title@ == targets[j].job_title@
                    &&& records[k].job_location@ == targets[j].job_location@
                    &&& analyzer::glassdoor_count(
                        scraped.scraped_html@,
                        targets[j].job_title@,
                        targets[j].job_location@,
                    ) == Ok::<i32, AnalyzerError>(records[k].count)
                    &&& analyzer::naive_date_time_parse(
                        scraped.scraped_date@,
                        analyzer::scrape_date_format(),
                    ) == Ok::<ScrapeDate, Seq<char>>(records[k].scrape_date)
                },
{
    assert forall|k: int| #![trigger records[k]] 0 <= k < records.len() implies exists|j: int|
        {
            &&& 0 <= j < targets.len()
            &&& #[trigger] outcomes[j] matches Ok(scraped)
            &&& records[k].url@ == targets[j].url@
            &&& records[k].job_title@ == targets[j].job_title@
            &&& records[k].job_location@ == targets[j].job_location@
            &&& analyzer::glassdoor_count(
                scraped.scraped_html@,
                targets[j].job_title@,
                targets[j].job_location@,
            ) == Ok::<i32, AnalyzerError>(records[k].count)
            &&& analyzer::naive_date_time_parse(
                scraped.scraped_date@,
                analyzer::scrape_date_format(),
            ) == Ok::<ScrapeDate, Seq<char>>(records[k].scrape_date)
        } by {
        let j: int = lemma_kth_success(analyses, k);
        assert(analyses[j] is Ok);
        assert(analysis_matches(analyses[j], targets[j], outcomes[j]));
    }
}

/// The analysis of a target succeeds, with the page's count and the scrape
/// date, whenever every step does: the request succeeded, the URL's host
/// holds `glassdoor`, the analyzer reads count `n` from the page (whatever
/// its value) and the scrape date parses to `date`.
pub proof fn lemma_analysis_succeeds_when_every_step_does(
    res: Analysis,
    target: Target,
    outcome: core::result::Result<ScrapedResult, String>,
    host: Seq<char>,
    n: i32,
    date: ScrapeDate,
)
    requires
        analysis_matches(res, target, outcome),
        outcome is Ok,
        analyzer::url_host(target.url@) == Ok::<Option<Seq<char>>, Seq<char>>(Some(host)),
        exists|i: int|
            0 <= i && i + "glassdoor"@.len() <= host.len() && #[trigger] host.subrange(
                i,
                i + "glassdoor"@.len(),
            ) == "glassdoor"@,
        analyzer::glassdoor_count(
            outcome->Ok_0.scraped_html@,
            target.job_title@,
            target.job_location@,
        ) == Ok::<i32, AnalyzerError>(n),
        analyzer::naive_date_time_parse(outcome->Ok_0.scraped_date@, analyzer::scrape_date_format())
            == Ok::<ScrapeDate, Seq<char>>(date),
    ensures
        res == Ok::<(i32, ScrapeDate), ScrapeFailure>((n, date)),
{
}

/// Every target whose analysis succeeds in every step is recorded: the run
/// holds a record of it, with the next id of its position, its URL, job title
/// and location, the count `n` that its page announces and its scrape date.
pub proof fn lemma_every_successful_target_is_recorded(
    next_result_id: int,
    targets: Seq<Target>,
    outcomes: Seq<core::result::Result<ScrapedResult, String>>,
    analyses: Seq<Analysis>,
    records: Seq<models::Result>,
    j: int,
    host: Seq<char>,
    n: i32,
    date: ScrapeDate,
)
    requires
        targets.len() == outcomes.len(),
        analyses.len() == targets.len(),
        forall|m: int|
            0 <= m < targets.len() ==> analysis_matches(#[trigger] analyses[m], targets[m], outcomes[m]),
        records_match(next_result_id, targets, analyses, records),
        0 <= j < targets.len(),
        outcomes[j] is Ok,
        analyzer::url_host(targets[j].url@) == Ok::<Option<Seq<char>>, Seq<char>>(Some(host)),
        exists|i: int|
            0 <= i && i + "glassdoor"@.len() <= host.len() && #[trigger] host.subrange(
                i,
                i + "glassdoor"@.len(),
            ) == "glassdoor"@,
        analyzer::glassdoor_count(
            outcomes[j]->Ok_0.scraped_html@,
            targets[j].job_title@,
            targets[j].job_location@,
        ) == Ok::<i32, AnalyzerError>(n),
        analyzer::naive_date_time_parse(
            outcomes[j]->Ok_0.scraped_date@,
            analyzer::scrape_date_format(),
        ) == Ok::<ScrapeDate, Seq<char>>(date),
    ensures
        exists|k: int|
            0 <= k < records.len() && #[trigger] records[k].id == next_result_id + k
                && records[k].url@ == targets[j].url@ && records[k].job_title@ == targets[j].job_title@
                && records[k].job_location@ == targets[j].job_location@ && records[k].count == n
                && records[k].scrape_date == date,
{
    lemma_analysis_succeeds_when_every_step_does(analyses[j], targets[j], outcomes[j], host, n, date);
    let k: int = successes(analyses.take(j)) as int;
    lemma_successes_take(analyses, j);
    lemma_successes_monotone(analyses, j + 1, analyses.len() as int);
    assert(analyses.take(analyses.len() as int) =~= analyses);
    assert(k < records.len());
    assert(records[k].id == next_result_id + k);
}

/// Analyses each target with the outcome of its scrape request, then builds
/// the records of the successful ones with ids from `next_result_id` on.
/// The records are `None` when their ids, or their positions, would not fit
/// in an `i32`.
pub fn scrape(
    next_result_id: i32,
    targets: &Vec<Target>,
    outcomes: &Vec<core::result::Result<ScrapedResult, String>>,
) -> (res: (Vec<Analysis>, Option<Vec<models::Result>>))
    requires
        targets@.len() == outcomes@.len(),
    ensures
        res.0@.len() == targets@.len(),
        forall|j: int|
            0 <= j < targets@.len() ==> analysis_matches(
                #[trigger] res.0@[j],
                targets@[j],
                outcomes@[j],
            ),
        res.1 is Some <==> (next_result_id + successes(res.0@) <= i32::MAX + 1 && successes(res.0@)
            <= i32::MAX + 1),
        res.1 matches Some(records) ==> records_match(
            next_result_id as int,
            targets@,
            res.0@,
            records@,
        ),
{
    let n: usize = targets.len();
    let mut analyses: Vec<Analysis> = Vec::new();
    let mut ok_count: u64 = 0;
    let mut i: usize = 0;
    assert(analyses@ =~= analyses@.take(0));
    while i < n
        invariant
            n == targets@.len() == outcomes@.len(),
            i <= n,
            analyses@.len() == i,
            ok_count == successes(analyses@),
            ok_count <= i,
            forall|j: int|
                0 <= j < i ==> analysis_matches(#[trigger] analyses@[j], targets@[j], outcomes@[j]),
        decreases n - i,
    {
        let analysis = analyze_target(&targets[i], &outcomes[i]);
        if analysis.is_ok() {
            ok_count = ok_count + 1;
        }
        let ghost before = analyses@;
        analyses.push(analysis);
        assert(analyses@.drop_last() =~= before);
        i = i + 1;
    }
    if ok_count > 2147483648 {
        return (analyses, None);
    }
    if ok_count > 0 && (next_result_id as i64) + (ok_count as i64) - 1 > 2147483647 {
        return (analyses, None);
    }
    let records = assemble_results(next_result_id, targets, &analyses);
    (analyses, Some(records))
}

} // verus!
