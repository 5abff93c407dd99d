//! The target list of a dry run, read from sample files.
use crate::db::models::Target;
use crate::text::{self, trim};
use vstd::prelude::*;

verus! {

/// The single target of a dry run, from the contents of the sample files
/// that hold its URL, job title and job location: id 1, each text trimmed of
/// surrounding white space.
pub fn get_mock_targets(url: &str, job_title: &str, job_location: &str) -> (res: Vec<Target>)
    ensures
        res@.len() == 1,
        res@[0].id == 1,
        res@[0].url@ == text::trimmed(url@),
        res@[0].job_title@ == text::trimmed(job_title@),
        res@[0].job_location@ == text::trimmed(job_location@),
{
    let mut targets: Vec<Target> = Vec::new();
    targets.push(Target { id: 1, url: trim(url), job_title: trim(job_title), job_location: trim(job_location) });
    targets
}

} // verus!
