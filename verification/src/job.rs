//! Jobs and results: the two kinds of message that pass through the broker.
//! What a job computes is not the grid's business: its data and the data of
//! its result are bytes that only the service understands.

use crate::descriptor::JobId;
use vstd::prelude::*;

verus! {

/// A unit of work as a worker receives it.
#[derive(Debug, PartialEq, Eq)]
pub struct Job {
    pub job_data: Vec<u8>,
    pub job_id: JobId,
}

/// What a worker computed for one job.
#[derive(Debug, PartialEq, Eq)]
pub struct JobResult {
    pub job_id: JobId,
    pub result_data: Vec<u8>,
}

pub struct JobView {
    pub job_id: JobId,
    pub job_data: Seq<u8>,
}

pub struct JobResultView {
    pub job_id: JobId,
    pub result_data: Seq<u8>,
}

impl View for Job {
    type V = JobView;

    open spec fn view(&self) -> JobView {
        JobView { job_id: self.job_id, job_data: self.job_data@ }
    }
}

impl View for JobResult {
    type V = JobResultView;

    open spec fn view(&self) -> JobResultView {
        JobResultView { job_id: self.job_id, result_data: self.result_data@ }
    }
}

/// The jobs that a list holds, in order.
pub open spec fn job_views(jobs: Seq<Job>) -> Seq<JobView> {
    jobs.map_values(|job: Job| job@)
}

/// The results that a list holds, in order.
pub open spec fn result_views(results: Seq<JobResult>) -> Seq<JobResultView> {
    results.map_values(|result: JobResult| result@)
}

/// The job that an optional job holds.
pub open spec fn job_option_view(job: Option<Job>) -> Option<JobView> {
    match job {
        Some(job) => Some(job@),
        None => None,
    }
}

/// The result that an optional result holds.
pub open spec fn result_option_view(result: Option<JobResult>) -> Option<JobResultView> {
    match result {
        Some(result) => Some(result@),
        None => None,
    }
}

impl Job {
    /// Makes the job `job_id` with the data `job_data`.
    pub fn new(job_id: JobId, job_data: Vec<u8>) -> (job: Self)
        ensures
            job@ == (JobView { job_id, job_data: job_data@ }),
    {
        Job { job_data, job_id }
    }

    /// The id the broker gave the job.
    pub fn job_id(&self) -> (job_id: JobId)
        ensures
            job_id == self@.job_id,
    {
        self.job_id
    }

    /// The bytes the service is to work on.
    pub fn job_data(&self) -> (job_data: &Vec<u8>)
        ensures
            job_data@ == self@.job_data,
    {
        &self.job_data
    }
}

impl JobResult {
    /// Makes the result of the job `job_id` with the data `result_data`.
    pub fn new(job_id: JobId, result_data: Vec<u8>) -> (result: Self)
        ensures
            result@ == (JobResultView { job_id, result_data: result_data@ }),
    {
        JobResult { job_id, result_data }
    }

    /// The id of the job that this is the result of.
    pub fn job_id(&self) -> (job_id: JobId)
        ensures
            job_id == self@.job_id,
    {
        self.job_id
    }

    /// The bytes the service gave back.
    pub fn result_data(&self) -> (result_data: &Vec<u8>)
        ensures
            result_data@ == self@.result_data,
    {
        &self.result_data
    }
}

} // verus!
