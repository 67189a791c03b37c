//! The broker's tables as mathematics: what the broker holds at one moment,
//! and what each of its operations makes of that.
//!
//! Everything the broker promises is stated over these definitions.

use crate::clock::Timestamp;
use crate::descriptor::{ClientId, JobId, ServiceDescriptor};
use crate::job::{JobResultView, JobView};
use vstd::prelude::*;

verus! {

/// What the broker knows of one registered client.
pub struct ClientRecord {
    pub client_description: Seq<char>,
    pub host_id: Seq<char>,
    pub last_access: Timestamp,
    pub user_id: Seq<char>,
}

/// The broker's tables at one moment.
#[verifier::ext_equal]
pub struct BrokerState {
    /// The id that the next client to register gets.
    pub next_client_id: ClientId,
    /// The id that the next job to be submitted gets.
    pub next_job_id: JobId,
    /// The registered clients.
    pub clients: Map<ClientId, ClientRecord>,
    /// For each job whose result is still owed, the client that submitted it.
    pub client_of_job: Map<JobId, ClientId>,
    /// The queued jobs of each capability, oldest first.
    pub queues: Map<ServiceDescriptor, Seq<JobView>>,
    /// The results that wait for each client, oldest first.
    pub mailboxes: Map<ClientId, Seq<JobResultView>>,
}

impl BrokerState {
    /// The broker as it starts: no client, no job, no result, and both
    /// counters at zero.
    pub open spec fn initial() -> BrokerState {
        BrokerState {
            next_client_id: 0,
            next_job_id: 0,
            clients: Map::empty(),
            client_of_job: Map::empty(),
            queues: Map::empty(),
            mailboxes: Map::empty(),
        }
    }

    /// The queued jobs of `descriptor`, oldest first: none where no job was
    /// ever submitted for it.
    pub open spec fn queue(self, descriptor: ServiceDescriptor) -> Seq<JobView> {
        if self.queues.contains_key(descriptor) {
            self.queues[descriptor]
        } else {
            Seq::empty()
        }
    }

    /// The results that wait for `client_id`, oldest first.
    pub open spec fn mailbox(self, client_id: ClientId) -> Seq<JobResultView> {
        if self.mailboxes.contains_key(client_id) {
            self.mailboxes[client_id]
        } else {
            Seq::empty()
        }
    }

    /// Whether a client id is left to give out.
    pub open spec fn can_register(self) -> bool {
        self.next_client_id < u32::MAX
    }

    /// Whether a job id is left to give out.
    pub open spec fn can_submit(self) -> bool {
        self.next_job_id < u64::MAX
    }

    /// The broker after a client registered with `record`. The client's id is
    /// `self.next_client_id`.
    pub open spec fn register_client(self, record: ClientRecord) -> BrokerState {
        BrokerState {
            next_client_id: (self.next_client_id + 1) as ClientId,
            clients: self.clients.insert(self.next_client_id, record),
            ..self
        }
    }

    /// The broker after the client `client_id` was seen at `now`. A client
    /// that never registered leaves no trace.
    pub open spec fn touch(self, client_id: ClientId, now: Timestamp) -> BrokerState {
        if self.clients.contains_key(client_id) {
            BrokerState {
                clients: self.clients.insert(
                    client_id,
                    ClientRecord { last_access: now, ..self.clients[client_id] },
                ),
                ..self
            }
        } else {
            self
        }
    }

    /// The broker after `client_id` submitted a job with `job_data` for
    /// `descriptor`. The job's id is `self.next_job_id`; the job goes to the
    /// end of the descriptor's queue, and the broker remembers whom its
    /// result is owed to.
    pub open spec fn submit_job(
        self,
        client_id: ClientId,
        descriptor: ServiceDescriptor,
        job_data: Seq<u8>,
    ) -> BrokerState {
        BrokerState {
            next_job_id: (self.next_job_id + 1) as JobId,
            client_of_job: self.client_of_job.insert(self.next_job_id, client_id),
            queues: self.queues.insert(
                descriptor,
                self.queue(descriptor).push(JobView { job_id: self.next_job_id, job_data }),
            ),
            ..self
        }
    }

    /// The job that a worker asking for `descriptor` gets: the oldest of the
    /// queue, or none where the queue is empty.
    pub open spec fn next_job(self, descriptor: ServiceDescriptor) -> Option<JobView> {
        if self.queue(descriptor).len() > 0 {
            Some(self.queue(descriptor).first())
        } else {
            None
        }
    }

    /// The broker after a worker asked for a job of `descriptor`: the job it
    /// got has left the queue for good.
    pub open spec fn fetch_job(self, descriptor: ServiceDescriptor) -> BrokerState {
        if self.queue(descriptor).len() > 0 {
            BrokerState {
                queues: self.queues.insert(descriptor, self.queue(descriptor).drop_first()),
                ..self
            }
        } else {
            self
        }
    }

    /// Whether the broker takes `result`: it does while the result of that
    /// job is still owed.
    pub open spec fn accepts(self, result: JobResultView) -> bool {
        self.client_of_job.contains_key(result.job_id)
    }

    /// The broker after a worker handed in `result`. A result that is owed
    /// goes to the end of the mailbox of the client that submitted the job,
    /// and is owed no longer. Any other result is dropped.
    pub open spec fn add_result(self, result: JobResultView) -> BrokerState {
        if self.accepts(result) {
            let client_id = self.client_of_job[result.job_id];
            BrokerState {
                client_of_job: self.client_of_job.remove(result.job_id),
                mailboxes: self.mailboxes.insert(client_id, self.mailbox(client_id).push(result)),
                ..self
            }
        } else {
            self
        }
    }

    /// The broker after a worker handed in `result`, if it handed in one.
    pub open spec fn add_result_if_any(self, result: Option<JobResultView>) -> BrokerState {
        match result {
            Some(result) => self.add_result(result),
            None => self,
        }
    }

    /// The broker after `client_id` fetched its results: its mailbox is gone.
    pub open spec fn fetch_results(self, client_id: ClientId) -> BrokerState {
        BrokerState { mailboxes: self.mailboxes.remove(client_id), ..self }
    }

    /// The job that a worker gets on `query`: none without a query.
    pub open spec fn next_job_if_asked(self, query: Option<ServiceDescriptor>) -> Option<JobView> {
        match query {
            Some(descriptor) => self.next_job(descriptor),
            None => None,
        }
    }

    /// The broker after a worker asked with `query`: unchanged without a
    /// query.
    pub open spec fn fetch_job_if_asked(self, query: Option<ServiceDescriptor>) -> BrokerState {
        match query {
            Some(descriptor) => self.fetch_job(descriptor),
            None => self,
        }
    }

    /// The broker after one exchange with a worker: the worker's result, if
    /// it brought one, is taken in first; then, whether or not a result came,
    /// the worker's query is served.
    pub open spec fn exchange(
        self,
        result: Option<JobResultView>,
        query: Option<ServiceDescriptor>,
    ) -> BrokerState {
        self.add_result_if_any(result).fetch_job_if_asked(query)
    }

    /// The job that a worker takes away from one exchange.
    pub open spec fn exchanged_job(
        self,
        result: Option<JobResultView>,
        query: Option<ServiceDescriptor>,
    ) -> Option<JobView> {
        self.add_result_if_any(result).next_job_if_asked(query)
    }

    /// What holds of the tables of every broker, whatever was asked of it:
    /// ids that are in use were given out before; no job is queued twice; no
    /// result waits twice; and a result that waits is owed no longer.
    pub open spec fn well_formed(self) -> bool {
        &&& forall|client_id: ClientId| #[trigger]
            self.clients.contains_key(client_id) ==> client_id < self.next_client_id
        &&& forall|job_id: JobId| #[trigger]
            self.client_of_job.contains_key(job_id) ==> job_id < self.next_job_id
        &&& forall|descriptor: ServiceDescriptor, i: int|
            0 <= i < self.queue(descriptor).len() ==> (#[trigger] self.queue(
                descriptor,
            )[i]).job_id < self.next_job_id
        &&& forall|first: ServiceDescriptor, i: int, second: ServiceDescriptor, j: int|
            0 <= i < self.queue(first).len() && 0 <= j < self.queue(second).len() && (
            #[trigger] self.queue(first)[i]).job_id == (#[trigger] self.queue(second)[j]).job_id
                ==> first == second && i == j
        &&& forall|client_id: ClientId, i: int|
            0 <= i < self.mailbox(client_id).len() ==> {
                &&& (#[trigger] self.mailbox(client_id)[i]).job_id < self.next_job_id
                &&& !self.client_of_job.contains_key(self.mailbox(client_id)[i].job_id)
            }
        &&& forall|first: ClientId, i: int, second: ClientId, j: int|
            0 <= i < self.mailbox(first).len() && 0 <= j < self.mailbox(second).len() && (
            #[trigger] self.mailbox(first)[i]).job_id == (#[trigger] self.mailbox(
                second,
            )[j]).job_id ==> first == second && i == j
    }
}

/// A broker starts with well-formed tables.
pub proof fn lemma_initial_well_formed()
    ensures
        BrokerState::initial().well_formed(),
{
}

/// Registering a client keeps the tables well-formed.
pub proof fn lemma_register_client_well_formed(state: BrokerState, record: ClientRecord)
    requires
        state.well_formed(),
        state.can_register(),
    ensures
        state.register_client(record).well_formed(),
{
    let after = state.register_client(record);
    assert forall|descriptor: ServiceDescriptor| after.queue(descriptor) == state.queue(
        descriptor,
    ) by {}
    assert forall|client_id: ClientId| after.mailbox(client_id) == state.mailbox(client_id) by {}
}

/// Seeing a client keeps the tables well-formed.
pub proof fn lemma_touch_well_formed(state: BrokerState, client_id: ClientId, now: Timestamp)
    requires
        state.well_formed(),
    ensures
        state.touch(client_id, now).well_formed(),
{
    let after = state.touch(client_id, now);
    assert forall|descriptor: ServiceDescriptor| after.queue(descriptor) == state.queue(
        descriptor,
    ) by {}
    assert forall|client_id: ClientId| after.mailbox(client_id) == state.mailbox(client_id) by {}
}

/// Submitting a job keeps the tables well-formed.
pub proof fn lemma_submit_job_well_formed(
    state: BrokerState,
    client_id: ClientId,
    descriptor: ServiceDescriptor,
    job_data: Seq<u8>,
)
    requires
        state.well_formed(),
        state.can_submit(),
    ensures
        state.submit_job(client_id, descriptor, job_data).well_formed(),
{
    let after = state.submit_job(client_id, descriptor, job_data);
    assert forall|other: ServiceDescriptor| other != descriptor implies after.queue(other)
        == state.queue(other) by {}
    assert(after.queue(descriptor) == state.queue(descriptor).push(
        JobView { job_id: state.next_job_id, job_data },
    ));
    assert forall|client_id: ClientId| after.mailbox(client_id) == state.mailbox(client_id) by {}
    assert forall|d: ServiceDescriptor, i: int| 0 <= i < after.queue(d).len() implies (
    #[trigger] after.queue(d)[i]).job_id < after.next_job_id by {
        if d == descriptor && i < state.queue(d).len() {
            assert(after.queue(d)[i] == state.queue(d)[i]);
        } else if d != descriptor {
            assert(after.queue(d)[i] == state.queue(d)[i]);
        }
    }
    assert forall|first: ServiceDescriptor, i: int, second: ServiceDescriptor, j: int|
        0 <= i < after.queue(first).len() && 0 <= j < after.queue(second).len() && (
        #[trigger] after.queue(first)[i]).job_id == (#[trigger] after.queue(second)[j]).job_id
        implies first == second && i == j by {
        let old_i = first != descriptor || i < state.queue(first).len();
        let old_j = second != descriptor || j < state.queue(second).len();
        if old_i {
            assert(after.queue(first)[i] == state.queue(first)[i]);
        }
        if old_j {
            assert(after.queue(second)[j] == state.queue(second)[j]);
        }
    }
    assert forall|client_id: ClientId, i: int| 0 <= i < after.mailbox(client_id).len() implies {
        &&& (#[trigger] after.mailbox(client_id)[i]).job_id < after.next_job_id
        &&& !after.client_of_job.contains_key(after.mailbox(client_id)[i].job_id)
    } by {
        assert(after.mailbox(client_id)[i] == state.mailbox(client_id)[i]);
    }
}

/// Handing out a job keeps the tables well-formed.
pub proof fn lemma_fetch_job_well_formed(state: BrokerState, descriptor: ServiceDescriptor)
    requires
        state.well_formed(),
    ensures
        state.fetch_job(descriptor).well_formed(),
{
    let after = state.fetch_job(descriptor);
    if state.queue(descriptor).len() > 0 {
        assert forall|other: ServiceDescriptor| other != descriptor implies after.queue(other)
            == state.queue(other) by {}
        assert(after.queue(descriptor) == state.queue(descriptor).drop_first());
        assert forall|client_id: ClientId| after.mailbox(client_id) == state.mailbox(
            client_id,
        ) by {}
        assert forall|d: ServiceDescriptor, i: int| 0 <= i < after.queue(d).len() implies (
        #[trigger] after.queue(d)[i]).job_id < after.next_job_id by {
            if d == descriptor {
                assert(after.queue(d)[i] == state.queue(d)[i + 1]);
            } else {
                assert(after.queue(d)[i] == state.queue(d)[i]);
            }
        }
        assert forall|first: ServiceDescriptor, i: int, second: ServiceDescriptor, j: int|
            0 <= i < after.queue(first).len() && 0 <= j < after.queue(second).len() && (
            #[trigger] after.queue(first)[i]).job_id == (#[trigger] after.queue(second)[j]).job_id
            implies first == second && i == j by {
            let old_i = if first == descriptor {
                i + 1
            } else {
                i
            };
            let old_j = if second == descriptor {
                j + 1
            } else {
                j
            };
            assert(after.queue(first)[i] == state.queue(first)[old_i]);
            assert(after.queue(second)[j] == state.queue(second)[old_j]);
        }
    }
}

/// Taking in a result keeps the tables well-formed.
pub proof fn lemma_add_result_well_formed(state: BrokerState, result: JobResultView)
    requires
        state.well_formed(),
    ensures
        state.add_result(result).well_formed(),
{
    let after = state.add_result(result);
    if state.accepts(result) {
        let owner = state.client_of_job[result.job_id];
        assert forall|descriptor: ServiceDescriptor| after.queue(descriptor) == state.queue(
            descriptor,
        ) by {}
        assert forall|other: ClientId| other != owner implies after.mailbox(other)
            == state.mailbox(other) by {}
        assert(after.mailbox(owner) == state.mailbox(owner).push(result));
        assert forall|client_id: ClientId, i: int| 0 <= i < after.mailbox(client_id).len() implies {
            &&& (#[trigger] after.mailbox(client_id)[i]).job_id < after.next_job_id
            &&& !after.client_of_job.contains_key(after.mailbox(client_id)[i].job_id)
        } by {
            if client_id != owner || i < state.mailbox(owner).len() {
                assert(after.mailbox(client_id)[i] == state.mailbox(client_id)[i]);
            }
        }
        assert forall|first: ClientId, i: int, second: ClientId, j: int|
            0 <= i < after.mailbox(first).len() && 0 <= j < after.mailbox(second).len() && (
            #[trigger] after.mailbox(first)[i]).job_id == (#[trigger] after.mailbox(
                second,
            )[j]).job_id implies first == second && i == j by {
            let old_i = first != owner || i < state.mailbox(first).len();
            let old_j = second != owner || j < state.mailbox(second).len();
            if old_i {
                assert(after.mailbox(first)[i] == state.mailbox(first)[i]);
            }
            if old_j {
                assert(after.mailbox(second)[j] == state.mailbox(second)[j]);
            }
        }
    }
}

/// Emptying a mailbox keeps the tables well-formed.
pub proof fn lemma_fetch_results_well_formed(state: BrokerState, client_id: ClientId)
    requires
        state.well_formed(),
    ensures
        state.fetch_results(client_id).well_formed(),
{
    let after = state.fetch_results(client_id);
    assert forall|descriptor: ServiceDescriptor| after.queue(descriptor) == state.queue(
        descriptor,
    ) by {}
    assert forall|other: ClientId| other != client_id implies after.mailbox(other)
        == state.mailbox(other) by {}
    assert(after.mailbox(client_id) == Seq::<JobResultView>::empty());
    assert forall|other: ClientId, i: int| 0 <= i < after.mailbox(other).len() implies {
        &&& (#[trigger] after.mailbox(other)[i]).job_id < after.next_job_id
        &&& !after.client_of_job.contains_key(after.mailbox(other)[i].job_id)
    } by {
        assert(after.mailbox(other)[i] == state.mailbox(other)[i]);
    }
    assert forall|first: ClientId, i: int, second: ClientId, j: int|
        0 <= i < after.mailbox(first).len() && 0 <= j < after.mailbox(second).len() && (
        #[trigger] after.mailbox(first)[i]).job_id == (#[trigger] after.mailbox(second)[j]).job_id
        implies first == second && i == j by {
        assert(after.mailbox(first)[i] == state.mailbox(first)[i]);
        assert(after.mailbox(second)[j] == state.mailbox(second)[j]);
    }
}

} // verus!
