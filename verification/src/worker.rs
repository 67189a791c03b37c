//! The worker's side of the exchange with the broker.
//!
//! A worker registers once, and then polls: each exchange asks for a job of
//! the worker's service and carries the result of the job before, if there
//! is one. A job that arrives is executed, and its result travels with the
//! next exchange. Where no job arrives, the worker rests for a moment and asks
//! again. The worker does one thing at a time: it never asks while it
//! executes, and never executes two jobs at once.
//!
//! Nothing here talks to the broker, runs a service or sleeps. The worker
//! names the next action; somebody else performs it and reports what came of
//! it.

use crate::descriptor::{ClientId, JobId, JobQuery, ServiceDescriptor, ServiceId, ServiceVersion};
use crate::job::{Job, JobResult, JobResultView, JobView};
use crate::text::{decimal_digits, decimal_text};
use vstd::prelude::*;
use vstd::string::*;

verus! {

/// How long a worker rests when the broker had no job for it, in
/// milliseconds.
pub const BACKOFF_MILLISECONDS: u64 = 1000;

/// Where a worker stands.
#[derive(Clone, Copy, Debug, PartialEq, Eq, Structural)]
pub enum WorkerState {
    /// It asked the broker for a client id.
    Registering,
    /// It waits for the broker's answer to an exchange.
    Polling { client_id: ClientId },
    /// It executes the job `job_id`.
    Executing { client_id: ClientId, job_id: JobId },
    /// It rests, because the broker had no job for it.
    Resting { client_id: ClientId },
    /// It is done.
    Stopped,
}

/// A worker for one version of one service.
#[derive(Clone, Copy, Debug, PartialEq, Eq, Structural)]
pub struct Worker {
    pub descriptor: ServiceDescriptor,
    pub state: WorkerState,
}

/// What came of the worker's last action.
#[derive(Debug)]
pub enum WorkerEvent {
    /// The broker registered the worker.
    Registered { client_id: ClientId },
    /// The broker answered an exchange, with or without a job.
    Exchanged { job: Option<Job> },
    /// The service ran: it gave back bytes, or it failed.
    Executed { result_data: Option<Vec<u8>> },
    /// The rest is over.
    Rested,
    /// The broker could not be reached.
    Disconnected,
}

/// What the worker does next.
#[derive(Debug)]
pub enum WorkerAction {
    /// Register with the broker under this description.
    Register { client_description: String },
    /// Ask the broker for a job, and hand in the result of the job before.
    Exchange {
        client_id: ClientId,
        result_from_worker: Option<JobResult>,
        query_job_from_server: JobQuery,
    },
    /// Run the service on the job's data.
    Execute { job: Job },
    /// Do nothing for this many milliseconds.
    Rest { milliseconds: u64 },
    /// End the worker.
    Stop,
}

pub enum WorkerEventView {
    Registered { client_id: ClientId },
    Exchanged { job: Option<JobView> },
    Executed { result_data: Option<Seq<u8>> },
    Rested,
    Disconnected,
}

pub enum WorkerActionView {
    Register { client_description: Seq<char> },
    Exchange {
        client_id: ClientId,
        result_from_worker: Option<JobResultView>,
        query_job_from_server: JobQuery,
    },
    Execute { job: JobView },
    Rest { milliseconds: u64 },
    Stop,
}

impl View for WorkerEvent {
    type V = WorkerEventView;

    open spec fn view(&self) -> WorkerEventView {
        match self {
            WorkerEvent::Registered { client_id } => WorkerEventView::Registered {
                client_id: *client_id,
            },
            WorkerEvent::Exchanged { job } => WorkerEventView::Exchanged {
                job: match job {
                    Some(job) => Some(job@),
                    None => None,
                },
            },
            WorkerEvent::Executed { result_data } => WorkerEventView::Executed {
                result_data: match result_data {
                    Some(data) => Some(data@),
                    None => None,
                },
            },
            WorkerEvent::Rested => WorkerEventView::Rested,
            WorkerEvent::Disconnected => WorkerEventView::Disconnected,
        }
    }
}

impl View for WorkerAction {
    type V = WorkerActionView;

    open spec fn view(&self) -> WorkerActionView {
        match self {
            WorkerAction::Register { client_description } => WorkerActionView::Register {
                client_description: client_description@,
            },
            WorkerAction::Exchange { client_id, result_from_worker, query_job_from_server } => {
                WorkerActionView::Exchange {
                    client_id: *client_id,
                    result_from_worker: match result_from_worker {
                        Some(result) => Some(result@),
                        None => None,
                    },
                    query_job_from_server: *query_job_from_server,
                }
            },
            WorkerAction::Execute { job } => WorkerActionView::Execute { job: job@ },
            WorkerAction::Rest { milliseconds } => WorkerActionView::Rest {
                milliseconds: *milliseconds,
            },
            WorkerAction::Stop => WorkerActionView::Stop,
        }
    }
}

/// How a worker describes itself to the broker.
pub open spec fn client_description(
    service_id: ServiceId,
    service_version: ServiceVersion,
    path_service_library: Seq<char>,
) -> Seq<char> {
    "worker "@ + decimal_digits(service_id as nat) + " "@ + decimal_digits(service_version as nat)
        + " "@ + path_service_library
}

/// Writes the description under which a worker registers: the word
/// `worker`, the service's id, the service's version and the path of the
/// service library, with one space between them.
pub fn worker_client_description(
    service_id: ServiceId,
    service_version: ServiceVersion,
    path_service_library: &str,
) -> (description: String)
    ensures
        description@ == client_description(service_id, service_version, path_service_library@),
{
    let description = String::from_str("worker ").concat(decimal_text(service_id).as_str()).concat(
        " ",
    ).concat(decimal_text(service_version).as_str()).concat(" ").concat(path_service_library);
    assert(description@ =~= client_description(
        service_id,
        service_version,
        path_service_library@,
    ));
    description
}

impl Worker {
    /// The worker in `state`.
    pub open spec fn at(self, state: WorkerState) -> Worker {
        Worker { state, ..self }
    }

    /// The top of the worker's loop. A worker that was asked to stop ends
    /// here, and only here; any other worker asks the broker for a job of its
    /// service and hands in `result`, if there is one.
    pub open spec fn poll(
        self,
        client_id: ClientId,
        result: Option<JobResultView>,
        stop_requested: bool,
    ) -> (Worker, WorkerActionView) {
        if stop_requested {
            (self.at(WorkerState::Stopped), WorkerActionView::Stop)
        } else {
            (
                self.at(WorkerState::Polling { client_id }),
                WorkerActionView::Exchange {
                    client_id,
                    result_from_worker: result,
                    query_job_from_server: self.descriptor,
                },
            )
        }
    }

    /// What the worker does on `event`: where it stands afterwards and its
    /// next action.
    ///
    /// A job that arrives is executed, whether or not the worker was asked
    /// to stop: the request is looked at between two rounds only. The result
    /// of a job carries the job's id and goes out with the next exchange. A
    /// service that failed leaves no result. Without a job the worker rests
    /// and then asks again. A worker that cannot reach the broker, or is told
    /// something that does not answer its last action, ends.
    pub open spec fn step(self, event: WorkerEventView, stop_requested: bool) -> (
        Worker,
        WorkerActionView,
    ) {
        match (self.state, event) {
            (WorkerState::Registering, WorkerEventView::Registered { client_id }) => self.poll(
                client_id,
                None,
                stop_requested,
            ),
            (WorkerState::Polling { client_id }, WorkerEventView::Exchanged { job: Some(job) }) => (
                self.at(WorkerState::Executing { client_id, job_id: job.job_id }),
                WorkerActionView::Execute { job },
            ),
            (WorkerState::Polling { client_id }, WorkerEventView::Exchanged { job: None }) => (
                self.at(WorkerState::Resting { client_id }),
                WorkerActionView::Rest { milliseconds: BACKOFF_MILLISECONDS },
            ),
            (WorkerState::Resting { client_id }, WorkerEventView::Rested) => self.poll(
                client_id,
                None,
                stop_requested,
            ),
            (
                WorkerState::Executing { client_id, job_id },
                WorkerEventView::Executed { result_data: Some(result_data) },
            ) => self.poll(
                client_id,
                Some(JobResultView { job_id, result_data }),
                stop_requested,
            ),
            (
                WorkerState::Executing { client_id, job_id },
                WorkerEventView::Executed { result_data: None },
            ) => self.poll(client_id, None, stop_requested),
            _ => (self.at(WorkerState::Stopped), WorkerActionView::Stop),
        }
    }

    /// Makes a worker for `service_version` of `service_id`, whose library
    /// lies at `path_service_library`. Its first action is to register.
    pub fn new(
        service_id: ServiceId,
        service_version: ServiceVersion,
        path_service_library: &str,
    ) -> (started: (Worker, WorkerAction))
        ensures
            started.0 == (Worker {
                descriptor: ServiceDescriptor { service_id, service_version },
                state: WorkerState::Registering,
            }),
            started.1@ == (WorkerActionView::Register {
                client_description: client_description(
                    service_id,
                    service_version,
                    path_service_library@,
                ),
            }),
    {
        let worker = Worker {
            descriptor: ServiceDescriptor { service_id, service_version },
            state: WorkerState::Registering,
        };
        let client_description = worker_client_description(
            service_id,
            service_version,
            path_service_library,
        );
        (worker, WorkerAction::Register { client_description })
    }

    /// Whether the worker is done.
    pub fn is_stopped(&self) -> (stopped: bool)
        ensures
            stopped == (self.state == WorkerState::Stopped),
    {
        match self.state {
            WorkerState::Stopped => true,
            _ => false,
        }
    }

    fn stop(&mut self) -> (action: WorkerAction)
        ensures
            *final(self) == old(self).at(WorkerState::Stopped),
            action@ == WorkerActionView::Stop,
    {
        self.state = WorkerState::Stopped;
        WorkerAction::Stop
    }

    fn begin_round(
        &mut self,
        client_id: ClientId,
        result: Option<JobResult>,
        stop_requested: bool,
    ) -> (action: WorkerAction)
        ensures
            (*final(self), action@) == old(self).poll(
                client_id,
                crate::job::result_option_view(result),
                stop_requested,
            ),
    {
        if stop_requested {
            self.stop()
        } else {
            self.state = WorkerState::Polling { client_id };
            WorkerAction::Exchange {
                client_id,
                result_from_worker: result,
                query_job_from_server: self.descriptor,
            }
        }
    }

    /// Takes what came of the last action and names the next one.
    /// `stop_requested` says whether the worker was asked to stop by now.
    pub fn advance(&mut self, event: WorkerEvent, stop_requested: bool) -> (action: WorkerAction)
        ensures
            (*final(self), action@) == old(self).step(event@, stop_requested),
    {
        let state = self.state;
        match (state, event) {
            (WorkerState::Registering, WorkerEvent::Registered { client_id }) => self.begin_round(
                client_id,
                None,
                stop_requested,
            ),
            (WorkerState::Polling { client_id }, WorkerEvent::Exchanged { job: Some(job) }) => {
                self.state = WorkerState::Executing { client_id, job_id: job.job_id };
                WorkerAction::Execute { job }
            },
            (WorkerState::Polling { client_id }, WorkerEvent::Exchanged { job: None }) => {
                self.state = WorkerState::Resting { client_id };
                WorkerAction::Rest { milliseconds: BACKOFF_MILLISECONDS }
            },
            (WorkerState::Resting { client_id }, WorkerEvent::Rested) => self.begin_round(
                client_id,
                None,
                stop_requested,
            ),
            (
                WorkerState::Executing { client_id, job_id },
                WorkerEvent::Executed { result_data: Some(result_data) },
            ) => self.begin_round(
                client_id,
                Some(JobResult { job_id, result_data }),
                stop_requested,
            ),
            (
                WorkerState::Executing { client_id, job_id },
                WorkerEvent::Executed { result_data: None },
            ) => self.begin_round(client_id, None, stop_requested),
            _ => self.stop(),
        }
    }
}

/// Every exchange asks for a job of the worker's own service: no exchange
/// goes out without a query.
pub proof fn lemma_every_exchange_asks(worker: Worker, event: WorkerEventView, stop_requested: bool)
    requires
        worker.step(event, stop_requested).1 is Exchange,
    ensures
        worker.step(event, stop_requested).1->query_job_from_server == worker.descriptor,
        worker.step(event, stop_requested).0.state is Polling,
        worker.step(event, stop_requested).0.descriptor == worker.descriptor,
{
}

/// A result that a worker hands in is the result of the job it just
/// executed: it carries that job's id and the bytes the service gave back.
pub proof fn lemma_result_belongs_to_executed_job(
    worker: Worker,
    event: WorkerEventView,
    stop_requested: bool,
)
    requires
        worker.step(event, stop_requested).1 is Exchange,
        worker.step(event, stop_requested).1->result_from_worker is Some,
    ensures
        worker.state is Executing,
        event is Executed,
        event->result_data == Some(
            worker.step(event, stop_requested).1->result_from_worker->Some_0.result_data,
        ),
        worker.step(event, stop_requested).1->result_from_worker->Some_0.job_id
            == worker.state->job_id,
{
}

/// One job at a time. A worker starts to execute only the job that the
/// broker just sent in answer to its exchange, and while it executes, it
/// neither asks for another job nor starts one.
pub proof fn lemma_one_job_in_flight(worker: Worker, event: WorkerEventView, stop_requested: bool)
    ensures
        worker.step(event, stop_requested).1 is Execute ==> worker.state is Polling
            && event == (WorkerEventView::Exchanged {
            job: Some(worker.step(event, stop_requested).1->job),
        }) && worker.step(event, stop_requested).0.state == (WorkerState::Executing {
            client_id: worker.state->Polling_client_id,
            job_id: worker.step(event, stop_requested).1->job.job_id,
        }),
        worker.state is Executing && !(event is Executed) ==> worker.step(
            event,
            stop_requested,
        ).1 is Stop,
        worker.state is Executing ==> !(worker.step(event, stop_requested).1 is Execute),
{
}

/// A request to stop is honoured between two rounds, never in the middle
/// of one: a worker that holds a fresh job executes it, and a worker whose
/// round is over stops instead of asking again.
pub proof fn lemma_stop_between_rounds(worker: Worker, event: WorkerEventView)
    ensures
        worker.state is Polling && event is Exchanged && event->job is Some ==> worker.step(
            event,
            true,
        ).1 is Execute,
        !(worker.step(event, true).1 is Exchange),
{
}

} // verus!
