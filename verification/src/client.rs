//! What the run needs to know of the platform's interface: where its
//! resources are, and how it words the status of a run.

use vstd::prelude::*;
use crate::dto::RunId;
use crate::text::{str_eq, text};

verus! {

/// The identifier of the result set of a run.
#[derive(Debug)]
pub struct DatasetId(pub String);

/// The part of the platform's answer that holds a run's status.
#[derive(Debug)]
pub struct StateData {
    status: String,
}

/// The platform's answer to a question for a run's status.
#[derive(Debug)]
pub struct StateDto {
    data: StateData,
}

/// The status of a run.
#[derive(Clone, Copy, Debug, PartialEq, Eq, Structural)]
pub enum State {
    Running,
    Succeeded,
    Failed,
}

impl State {
    /// The status that the platform's word stands for. Any word but
    /// `SUCCEEDED` and `RUNNING` means that the run has failed.
    pub open spec fn of_status(status: Seq<char>) -> State {
        if status == "SUCCEEDED"@ {
            State::Succeeded
        } else if status == "RUNNING"@ {
            State::Running
        } else {
            State::Failed
        }
    }

    /// The status that the platform's word stands for.
    pub fn from_status(status: &str) -> (r: State)
        ensures
            r == State::of_status(status@),
    {
        if str_eq(status, "SUCCEEDED") {
            State::Succeeded
        } else if str_eq(status, "RUNNING") {
            State::Running
        } else {
            State::Failed
        }
    }
}

impl StateData {
    /// The platform's word for the status.
    pub closed spec fn status_view(&self) -> Seq<char> {
        self.status@
    }
}

impl StateDto {
    /// The platform's word for the status.
    pub closed spec fn status_view(&self) -> Seq<char> {
        self.data.status_view()
    }

    /// An answer that gives `status` as the run's status.
    pub fn new(status: String) -> (r: StateDto)
        ensures
            r.status_view() == status@,
    {
        StateDto { data: StateData { status } }
    }

    /// The status that the answer gives.
    pub fn state(&self) -> (r: State)
        ensures
            r == State::of_status(self.status_view()),
    {
        State::from_status(self.data.status.as_str())
    }
}

/// Where the platform's interface lives.
pub open spec fn api_base() -> Seq<char> {
    "https://api.apify.com/v2"@
}

/// The address at which runs of `actor` are started.
pub fn start_url(actor: &str) -> (r: String)
    ensures
        r@ == api_base() + "/acts/"@ + actor@ + "/runs"@,
{
    text("https://api.apify.com/v2").concat("/acts/").concat(actor).concat("/runs")
}

/// The address at which the status of a run is asked for.
pub fn status_url(run_id: &RunId) -> (r: String)
    ensures
        r@ == api_base() + "/actor-runs/"@ + run_id.0@,
{
    text("https://api.apify.com/v2").concat("/actor-runs/").concat(run_id.0.as_str())
}

/// The address at which the records of a result set are fetched.
pub fn results_url(dataset_id: &DatasetId) -> (r: String)
    ensures
        r@ == api_base() + "/datasets/"@ + dataset_id.0@ + "/items"@,
{
    text("https://api.apify.com/v2").concat("/datasets/").concat(dataset_id.0.as_str()).concat(
        "/items",
    )
}

/// The value of the `Authorization` header for `token`.
pub fn bearer(token: &str) -> (r: String)
    ensures
        r@ == "Bearer "@ + token@,
{
    text("Bearer ").concat(token)
}

} // verus!
