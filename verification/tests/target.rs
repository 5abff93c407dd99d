use job_post_counts_scraper_cargo_lambda::db::models::Target;
use job_post_counts_scraper_cargo_lambda::repository::target::get_mock_targets;

#[test]
fn mock_targets_are_trimmed() {
    let targets = get_mock_targets(
        "https://www.glassdoor.com/Job/x.htm\n",
        "  Rust Developer\n",
        "\tBerlin \r\n",
    );
    assert_eq!(
        targets,
        vec![Target {
            id: 1,
            url: "https://www.glassdoor.com/Job/x.htm".to_string(),
            job_title: "Rust Developer".to_string(),
            job_location: "Berlin".to_string(),
        }]
    );
}
