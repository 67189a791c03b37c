//! What holds of a broker over time: laws about every sequence of
//! operations, proved from the definitions of the single operations.
//!
//! A history is a sequence of operations, applied one after the other. Every
//! call that the broker answers is one or more of these operations in a row,
//! so what holds of all histories holds of all sequences of calls.

use crate::broker::state::{BrokerState, ClientRecord};
use crate::clock::Timestamp;
use crate::descriptor::{ClientId, JobId, ServiceDescriptor};
use crate::job::{JobResultView, JobView};
use vstd::prelude::*;

verus! {

/// One operation on the broker's tables.
pub enum Operation {
    /// A client registers.
    Register { record: ClientRecord },
    /// A client is seen.
    Touch { client_id: ClientId, now: Timestamp },
    /// A client submits a job.
    Submit { client_id: ClientId, descriptor: ServiceDescriptor, job_data: Seq<u8> },
    /// A worker asks for a job.
    FetchJob { descriptor: ServiceDescriptor },
    /// A worker hands in a result.
    AddResult { result: JobResultView },
    /// A client fetches its results.
    FetchResults { client_id: ClientId },
}

impl BrokerState {
    /// Whether the broker can carry out `operation`: it cannot give out an
    /// id once the ids have run out.
    pub open spec fn permits(self, operation: Operation) -> bool {
        match operation {
            Operation::Register { .. } => self.can_register(),
            Operation::Submit { .. } => self.can_submit(),
            _ => true,
        }
    }

    /// The broker after `operation`.
    pub open spec fn apply(self, operation: Operation) -> BrokerState {
        match operation {
            Operation::Register { record } => self.register_client(record),
            Operation::Touch { client_id, now } => self.touch(client_id, now),
            Operation::Submit { client_id, descriptor, job_data } => self.submit_job(
                client_id,
                descriptor,
                job_data,
            ),
            Operation::FetchJob { descriptor } => self.fetch_job(descriptor),
            Operation::AddResult { result } => self.add_result(result),
            Operation::FetchResults { client_id } => self.fetch_results(client_id),
        }
    }
}

/// The broker after the operations of `history`, carried out in order on
/// `state`.
pub open spec fn run(state: BrokerState, history: Seq<Operation>) -> BrokerState
    decreases history.len(),
{
    if history.len() == 0 {
        state
    } else {
        run(state, history.drop_last()).apply(history.last())
    }
}

/// Whether the broker can carry out every operation of `history` in turn,
/// starting from `state`.
pub open spec fn permitted(state: BrokerState, history: Seq<Operation>) -> bool
    decreases history.len(),
{
    history.len() == 0 || (permitted(state, history.drop_last()) && run(
        state,
        history.drop_last(),
    ).permits(history.last()))
}

/// The jobs that were submitted for `descriptor` in the course of `history`,
/// in the order of their submission and with the ids they were given.
pub open spec fn submitted(
    state: BrokerState,
    history: Seq<Operation>,
    descriptor: ServiceDescriptor,
) -> Seq<JobView>
    decreases history.len(),
{
    if history.len() == 0 {
        Seq::empty()
    } else {
        let earlier = submitted(state, history.drop_last(), descriptor);
        match history.last() {
            Operation::Submit { client_id, descriptor: queue, job_data } => if queue
                == descriptor {
                earlier.push(
                    JobView { job_id: run(state, history.drop_last()).next_job_id, job_data },
                )
            } else {
                earlier
            },
            _ => earlier,
        }
    }
}

/// The jobs that workers asking for `descriptor` received in the course of
/// `history`, in the order in which they received them.
pub open spec fn delivered(
    state: BrokerState,
    history: Seq<Operation>,
    descriptor: ServiceDescriptor,
) -> Seq<JobView>
    decreases history.len(),
{
    if history.len() == 0 {
        Seq::empty()
    } else {
        let earlier = delivered(state, history.drop_last(), descriptor);
        match history.last() {
            Operation::FetchJob { descriptor: queue } => if queue == descriptor {
                match run(state, history.drop_last()).next_job(descriptor) {
                    Some(job) => earlier.push(job),
                    None => earlier,
                }
            } else {
                earlier
            },
            _ => earlier,
        }
    }
}

/// For each job that was submitted in the course of `history`, the client
/// that submitted it.
pub open spec fn submitters(state: BrokerState, history: Seq<Operation>) -> Map<JobId, ClientId>
    decreases history.len(),
{
    if history.len() == 0 {
        Map::empty()
    } else {
        let earlier = submitters(state, history.drop_last());
        match history.last() {
            Operation::Submit { client_id, descriptor, job_data } => earlier.insert(
                run(state, history.drop_last()).next_job_id,
                client_id,
            ),
            _ => earlier,
        }
    }
}

/// The results that `client_id` fetched in the course of `history`, in the
/// order in which it received them.
pub open spec fn received(state: BrokerState, history: Seq<Operation>, client_id: ClientId) -> Seq<
    JobResultView,
>
    decreases history.len(),
{
    if history.len() == 0 {
        Seq::empty()
    } else {
        let earlier = received(state, history.drop_last(), client_id);
        match history.last() {
            Operation::FetchResults { client_id: reader } => if reader == client_id {
                earlier + run(state, history.drop_last()).mailbox(client_id)
            } else {
                earlier
            },
            _ => earlier,
        }
    }
}

/// The state before the operation at `position` and the state after it are
/// one operation apart.
pub proof fn lemma_run_step(state: BrokerState, history: Seq<Operation>, position: int)
    requires
        0 <= position < history.len(),
    ensures
        run(state, history.take(position + 1)) == run(state, history.take(position)).apply(
            history[position],
        ),
{
    assert(history.take(position + 1).drop_last() =~= history.take(position));
}

/// What the broker can do in full, it can do up to any point.
pub proof fn lemma_permitted_prefix(state: BrokerState, history: Seq<Operation>, position: int)
    requires
        permitted(state, history),
        0 <= position <= history.len(),
    ensures
        permitted(state, history.take(position)),
        position < history.len() ==> run(state, history.take(position)).permits(
            history[position],
        ),
    decreases history.len(),
{
    if position == history.len() {
        assert(history.take(position) =~= history);
    } else {
        lemma_permitted_prefix(state, history.drop_last(), position);
        assert(history.drop_last().take(position) =~= history.take(position));
        if position == history.len() - 1 {
            assert(history.take(position) =~= history.drop_last());
        }
    }
}

/// Every operation keeps the tables well-formed.
pub proof fn lemma_apply_well_formed(state: BrokerState, operation: Operation)
    requires
        state.well_formed(),
        state.permits(operation),
    ensures
        state.apply(operation).well_formed(),
{
    match operation {
        Operation::Register { record } => {
            crate::broker::state::lemma_register_client_well_formed(state, record);
        },
        Operation::Touch { client_id, now } => {
            crate::broker::state::lemma_touch_well_formed(state, client_id, now);
        },
        Operation::Submit { client_id, descriptor, job_data } => {
            crate::broker::state::lemma_submit_job_well_formed(
                state,
                client_id,
                descriptor,
                job_data,
            );
        },
        Operation::FetchJob { descriptor } => {
            crate::broker::state::lemma_fetch_job_well_formed(state, descriptor);
        },
        Operation::AddResult { result } => {
            crate::broker::state::lemma_add_result_well_formed(state, result);
        },
        Operation::FetchResults { client_id } => {
            crate::broker::state::lemma_fetch_results_well_formed(state, client_id);
        },
    }
}

/// Every history keeps the tables well-formed.
pub proof fn lemma_run_well_formed(state: BrokerState, history: Seq<Operation>)
    requires
        state.well_formed(),
        permitted(state, history),
    ensures
        run(state, history).well_formed(),
    decreases history.len(),
{
    if history.len() > 0 {
        lemma_run_well_formed(state, history.drop_last());
        lemma_apply_well_formed(run(state, history.drop_last()), history.last());
    }
}

/// The counters never go back, and each registration and each submission
/// moves its counter on by one.
pub proof fn lemma_counters_grow(state: BrokerState, history: Seq<Operation>, from: int, to: int)
    requires
        permitted(state, history),
        0 <= from <= to <= history.len(),
    ensures
        run(state, history.take(from)).next_client_id <= run(
            state,
            history.take(to),
        ).next_client_id,
        run(state, history.take(from)).next_job_id <= run(state, history.take(to)).next_job_id,
        from < to && history[from] is Register ==> run(state, history.take(from)).next_client_id
            < run(state, history.take(to)).next_client_id,
        from < to && history[from] is Submit ==> run(state, history.take(from)).next_job_id < run(
            state,
            history.take(to),
        ).next_job_id,
    decreases to - from,
{
    if from < to {
        lemma_counters_grow(state, history, from, to - 1);
        lemma_run_step(state, history, to - 1);
        lemma_permitted_prefix(state, history, to - 1);
    }
}

/// Uniqueness of client ids. In every history, a client that registers
/// later gets a greater id than a client that registered before: the ids are
/// pairwise distinct and strictly increasing. The id that a registration
/// gives out is the counter as it stands before it.
pub proof fn lemma_client_ids_strictly_increase(
    state: BrokerState,
    history: Seq<Operation>,
    earlier: int,
    later: int,
)
    requires
        permitted(state, history),
        0 <= earlier < later < history.len(),
        history[earlier] is Register,
        history[later] is Register,
    ensures
        run(state, history.take(earlier)).next_client_id < run(
            state,
            history.take(later),
        ).next_client_id,
{
    lemma_counters_grow(state, history, earlier, later);
}

/// Uniqueness of job ids. In every history, a job that is submitted later
/// gets a greater id than a job that was submitted before: the ids are
/// pairwise distinct and strictly increasing. The id that a submission gives
/// out is the counter as it stands before it.
pub proof fn lemma_job_ids_strictly_increase(
    state: BrokerState,
    history: Seq<Operation>,
    earlier: int,
    later: int,
)
    requires
        permitted(state, history),
        0 <= earlier < later < history.len(),
        history[earlier] is Submit,
        history[later] is Submit,
    ensures
        run(state, history.take(earlier)).next_job_id < run(
            state,
            history.take(later),
        ).next_job_id,
{
    lemma_counters_grow(state, history, earlier, later);
}

/// Every submission is the newest. In every history, a submitted job gets
/// an id greater than the id of every job submitted before it; after the
/// submission the broker owes the job's result to the client that submitted
/// it, and the job is the last of its queue.
pub proof fn lemma_submission_is_newest(
    state: BrokerState,
    history: Seq<Operation>,
    position: int,
)
    requires
        permitted(state, history),
        0 <= position < history.len(),
        history[position] is Submit,
    ensures
        ({
            let job_id = run(state, history.take(position)).next_job_id;
            let after = run(state, history.take(position + 1));
            let descriptor = history[position]->Submit_descriptor;
            &&& forall|earlier: int|
                0 <= earlier < position && #[trigger] history[earlier] is Submit ==> run(
                    state,
                    history.take(earlier),
                ).next_job_id < job_id
            &&& after.client_of_job.contains_key(job_id)
            &&& after.client_of_job[job_id] == history[position]->Submit_client_id
            &&& after.queue(descriptor).len() > 0
            &&& after.queue(descriptor).last() == (JobView {
                job_id,
                job_data: history[position]->Submit_job_data,
            })
        }),
{
    lemma_run_step(state, history, position);
    assert forall|earlier: int|
        0 <= earlier < position && #[trigger] history[earlier] is Submit implies run(
        state,
        history.take(earlier),
    ).next_job_id < run(state, history.take(position)).next_job_id by {
        lemma_counters_grow(state, history, earlier, position);
    }
}

/// First in, first out. For every descriptor and every history: the jobs
/// that were queued at the start, followed by the jobs submitted since, are
/// the jobs delivered since, followed by the jobs queued at the end. No job
/// is lost, none is delivered twice, and none overtakes another.
pub proof fn lemma_first_in_first_out(
    state: BrokerState,
    history: Seq<Operation>,
    descriptor: ServiceDescriptor,
)
    ensures
        state.queue(descriptor) + submitted(state, history, descriptor) == delivered(
            state,
            history,
            descriptor,
        ) + run(state, history).queue(descriptor),
    decreases history.len(),
{
    if history.len() == 0 {
        assert(state.queue(descriptor) + Seq::<JobView>::empty() =~= Seq::<JobView>::empty()
            + state.queue(descriptor));
    } else {
        lemma_first_in_first_out(state, history.drop_last(), descriptor);
        let before = run(state, history.drop_last());
        let after = run(state, history);
        let sent = submitted(state, history.drop_last(), descriptor);
        let got = delivered(state, history.drop_last(), descriptor);
        assert(state.queue(descriptor) + sent == got + before.queue(descriptor));
        match history.last() {
            Operation::Submit { client_id, descriptor: queue, job_data } => {
                if queue == descriptor {
                    let job = JobView { job_id: before.next_job_id, job_data };
                    assert(after.queue(descriptor) == before.queue(descriptor).push(job));
                    assert(state.queue(descriptor) + sent.push(job) =~= (state.queue(descriptor)
                        + sent).push(job));
                    assert(got + before.queue(descriptor).push(job) =~= (got + before.queue(
                        descriptor,
                    )).push(job));
                } else {
                    assert(after.queue(descriptor) == before.queue(descriptor));
                }
            },
            Operation::FetchJob { descriptor: queue } => {
                if queue == descriptor && before.queue(descriptor).len() > 0 {
                    let job = before.queue(descriptor).first();
                    assert(after.queue(descriptor) == before.queue(descriptor).drop_first());
                    assert(got.push(job) + before.queue(descriptor).drop_first() =~= got
                        + before.queue(descriptor));
                } else {
                    assert(after.queue(descriptor) == before.queue(descriptor));
                }
            },
            _ => {
                assert(after.queue(descriptor) == before.queue(descriptor));
            },
        }
    }
}

/// First in, first out, for a broker that starts empty: the jobs that
/// workers received for a descriptor are the first of the jobs that were
/// submitted for it, in the order of their submission. A job that was
/// submitted before another is received before it.
pub proof fn lemma_jobs_are_delivered_in_order(
    history: Seq<Operation>,
    descriptor: ServiceDescriptor,
)
    ensures
        delivered(BrokerState::initial(), history, descriptor).len() <= submitted(
            BrokerState::initial(),
            history,
            descriptor,
        ).len(),
        delivered(BrokerState::initial(), history, descriptor) == submitted(
            BrokerState::initial(),
            history,
            descriptor,
        ).take(delivered(BrokerState::initial(), history, descriptor).len() as int),
{
    let start = BrokerState::initial();
    let sent = submitted(start, history, descriptor);
    let got = delivered(start, history, descriptor);
    let left = run(start, history).queue(descriptor);
    lemma_first_in_first_out(start, history, descriptor);
    assert(start.queue(descriptor) + sent =~= sent);
    assert(sent == got + left);
    assert(got =~= sent.take(got.len() as int));
}

/// What holds of the jobs that were submitted in a history: their ids were
/// given out before, and no two of them share an id.
spec fn distinct_submissions(state: BrokerState, history: Seq<Operation>) -> bool {
    &&& forall|descriptor: ServiceDescriptor, i: int|
        0 <= i < submitted(state, history, descriptor).len() ==> (#[trigger] submitted(
            state,
            history,
            descriptor,
        )[i]).job_id < run(state, history).next_job_id
    &&& forall|first: ServiceDescriptor, i: int, second: ServiceDescriptor, j: int|
        0 <= i < submitted(state, history, first).len() && 0 <= j < submitted(
            state,
            history,
            second,
        ).len() && (#[trigger] submitted(state, history, first)[i]).job_id == (
        #[trigger] submitted(state, history, second)[j]).job_id ==> first == second && i == j
}

proof fn lemma_distinct_submissions(state: BrokerState, history: Seq<Operation>)
    requires
        permitted(state, history),
    ensures
        distinct_submissions(state, history),
    decreases history.len(),
{
    if history.len() > 0 {
        let earlier = history.drop_last();
        lemma_distinct_submissions(state, earlier);
        let before = run(state, earlier);
        let operation = history.last();
        assert forall|descriptor: ServiceDescriptor, i: int|
            0 <= i < submitted(state, history, descriptor).len() implies (#[trigger] submitted(
            state,
            history,
            descriptor,
        )[i]).job_id < run(state, history).next_job_id by {
            if i < submitted(state, earlier, descriptor).len() {
                assert(submitted(state, history, descriptor)[i] == submitted(
                    state,
                    earlier,
                    descriptor,
                )[i]);
            }
        }
        assert forall|first: ServiceDescriptor, i: int, second: ServiceDescriptor, j: int|
            0 <= i < submitted(state, history, first).len() && 0 <= j < submitted(
                state,
                history,
                second,
            ).len() && (#[trigger] submitted(state, history, first)[i]).job_id == (
            #[trigger] submitted(state, history, second)[j]).job_id implies first == second && i
            == j by {
            if i < submitted(state, earlier, first).len() {
                assert(submitted(state, history, first)[i] == submitted(state, earlier, first)[i]);
            }
            if j < submitted(state, earlier, second).len() {
                assert(submitted(state, history, second)[j] == submitted(
                    state,
                    earlier,
                    second,
                )[j]);
            }
        }
    }
}

/// No duplicate delivery. In every history of a broker that starts empty,
/// no job is handed to a worker twice: two deliveries of a job with the same
/// id are one and the same delivery.
pub proof fn lemma_no_job_is_delivered_twice(
    history: Seq<Operation>,
    first: ServiceDescriptor,
    i: int,
    second: ServiceDescriptor,
    j: int,
)
    requires
        permitted(BrokerState::initial(), history),
        0 <= i < delivered(BrokerState::initial(), history, first).len(),
        0 <= j < delivered(BrokerState::initial(), history, second).len(),
        delivered(BrokerState::initial(), history, first)[i].job_id == delivered(
            BrokerState::initial(),
            history,
            second,
        )[j].job_id,
    ensures
        first == second,
        i == j,
{
    let start = BrokerState::initial();
    lemma_jobs_are_delivered_in_order(history, first);
    lemma_jobs_are_delivered_in_order(history, second);
    lemma_distinct_submissions(start, history);
    assert(delivered(start, history, first)[i] == submitted(start, history, first)[i]);
    assert(delivered(start, history, second)[j] == submitted(start, history, second)[j]);
}

/// What links the broker's tables to the history that led to them, from an
/// empty start: a result that is owed is owed to the client that submitted
/// the job, and every job that was submitted has an id below the counter.
spec fn routed(history: Seq<Operation>) -> bool {
    let start = BrokerState::initial();
    let now = run(start, history);
    let owners = submitters(start, history);
    &&& forall|job_id: JobId| #[trigger]
        owners.contains_key(job_id) ==> job_id < now.next_job_id
    &&& forall|job_id: JobId| #[trigger]
        now.client_of_job.contains_key(job_id) ==> owners.contains_key(job_id)
            && owners[job_id] == now.client_of_job[job_id]
    &&& forall|client_id: ClientId, i: int|
        0 <= i < now.mailbox(client_id).len() ==> owners.contains_key(
            (#[trigger] now.mailbox(client_id)[i]).job_id,
        ) && owners[now.mailbox(client_id)[i].job_id] == client_id
    &&& forall|client_id: ClientId, i: int|
        0 <= i < received(start, history, client_id).len() ==> owners.contains_key(
            (#[trigger] received(start, history, client_id)[i]).job_id,
        ) && owners[received(start, history, client_id)[i].job_id] == client_id
}

proof fn lemma_routed(history: Seq<Operation>)
    requires
        permitted(BrokerState::initial(), history),
    ensures
        routed(history),
    decreases history.len(),
{
    let start = BrokerState::initial();
    if history.len() > 0 {
        let earlier = history.drop_last();
        lemma_routed(earlier);
        let before = run(start, earlier);
        let after = run(start, history);
        let owners_before = submitters(start, earlier);
        let owners = submitters(start, history);
        let operation = history.last();
        assert forall|job_id: JobId| #[trigger]
            owners_before.contains_key(job_id) implies owners.contains_key(job_id)
            && owners[job_id] == owners_before[job_id] by {
            assert(job_id < before.next_job_id);
        }
        assert forall|reader: ClientId, i: int|
            0 <= i < after.mailbox(reader).len() implies owners.contains_key(
            (#[trigger] after.mailbox(reader)[i]).job_id,
        ) && owners[after.mailbox(reader)[i].job_id] == reader by {
            let fresh = operation is AddResult && before.accepts(operation->result)
                && before.client_of_job[operation->result.job_id] == reader && i
                == before.mailbox(reader).len();
            if fresh {
                assert(after.mailbox(reader)[i] == operation->result);
                assert(owners_before.contains_key(operation->result.job_id));
            } else {
                assert(after.mailbox(reader)[i] == before.mailbox(reader)[i]);
                assert(owners_before.contains_key(before.mailbox(reader)[i].job_id));
            }
        }
        assert forall|reader: ClientId, i: int|
            0 <= i < received(start, history, reader).len() implies owners.contains_key(
            (#[trigger] received(start, history, reader)[i]).job_id,
        ) && owners[received(start, history, reader)[i].job_id] == reader by {
            let old_part = received(start, earlier, reader);
            if i < old_part.len() {
                assert(received(start, history, reader)[i] == old_part[i]);
                assert(owners_before.contains_key(old_part[i].job_id));
            } else {
                assert(operation == (Operation::FetchResults { client_id: reader }));
                assert(received(start, history, reader)[i] == before.mailbox(reader)[i
                    - old_part.len()]);
                let waiting = before.mailbox(reader)[i - old_part.len()];
                assert(owners_before.contains_key(waiting.job_id));
            }
        }
    }
}

/// Routing correctness. In every history of a broker that starts empty,
/// each result that waits for a client, and each result that a client ever
/// fetched, is the result of a job that this very client submitted. No
/// result reaches another client's mailbox.
pub proof fn lemma_results_reach_their_submitter(history: Seq<Operation>, client_id: ClientId)
    requires
        permitted(BrokerState::initial(), history),
    ensures
        forall|i: int|
            0 <= i < run(BrokerState::initial(), history).mailbox(client_id).len() ==> {
                let result = #[trigger] run(BrokerState::initial(), history).mailbox(client_id)[i];
                &&& submitters(BrokerState::initial(), history).contains_key(result.job_id)
                &&& submitters(BrokerState::initial(), history)[result.job_id] == client_id
            },
        forall|i: int|
            0 <= i < received(BrokerState::initial(), history, client_id).len() ==> {
                let result = #[trigger] received(BrokerState::initial(), history, client_id)[i];
                &&& submitters(BrokerState::initial(), history).contains_key(result.job_id)
                &&& submitters(BrokerState::initial(), history)[result.job_id] == client_id
            },
{
    lemma_routed(history);
}

/// Routing of a single result: it changes the mailbox of the client that
/// the job's result is owed to, by adding the result at its end, and no
/// other mailbox.
pub proof fn lemma_result_goes_to_one_mailbox(
    state: BrokerState,
    result: JobResultView,
    client_id: ClientId,
)
    ensures
        state.add_result(result).mailbox(client_id) == if state.accepts(result)
            && state.client_of_job[result.job_id] == client_id {
            state.mailbox(client_id).push(result)
        } else {
            state.mailbox(client_id)
        },
{
}

/// Single consumption, for two results in a row: of two results for the
/// same job, the second changes nothing.
pub proof fn lemma_result_is_taken_once(
    state: BrokerState,
    first: JobResultView,
    second: JobResultView,
)
    requires
        first.job_id == second.job_id,
    ensures
        state.add_result(first).add_result(second) == state.add_result(first),
{
}

/// Once the result of a job is no longer owed and the job's id is given
/// out, it is never owed again.
proof fn lemma_consumed_stays_consumed(
    state: BrokerState,
    history: Seq<Operation>,
    job_id: JobId,
    from: int,
    to: int,
)
    requires
        permitted(state, history),
        0 <= from <= to <= history.len(),
        !run(state, history.take(from)).client_of_job.contains_key(job_id),
        job_id < run(state, history.take(from)).next_job_id,
    ensures
        !run(state, history.take(to)).client_of_job.contains_key(job_id),
        job_id < run(state, history.take(to)).next_job_id,
    decreases to - from,
{
    if from < to {
        lemma_consumed_stays_consumed(state, history, job_id, from, to - 1);
        lemma_run_step(state, history, to - 1);
        lemma_permitted_prefix(state, history, to - 1);
    }
}

/// Single consumption. In every history of a well-formed broker: once a
/// result for a job was taken in, every later result for the same job is
/// dropped and changes nothing, whatever happened in between.
pub proof fn lemma_second_result_is_dropped(
    state: BrokerState,
    history: Seq<Operation>,
    earlier: int,
    later: int,
)
    requires
        state.well_formed(),
        permitted(state, history),
        0 <= earlier < later < history.len(),
        history[earlier] is AddResult,
        history[later] is AddResult,
        history[earlier]->result.job_id == history[later]->result.job_id,
        run(state, history.take(earlier)).accepts(history[earlier]->result),
    ensures
        !run(state, history.take(later)).accepts(history[later]->result),
        run(state, history.take(later + 1)) == run(state, history.take(later)),
{
    let job_id = history[earlier]->result.job_id;
    let before = run(state, history.take(earlier));
    lemma_permitted_prefix(state, history, earlier);
    lemma_run_well_formed(state, history.take(earlier));
    lemma_run_step(state, history, earlier);
    assert(job_id < before.next_job_id);
    lemma_consumed_stays_consumed(state, history, job_id, earlier + 1, later);
    lemma_run_step(state, history, later);
}

/// A mailbox that was just drained is empty.
pub proof fn lemma_drained_mailbox_is_empty(state: BrokerState, client_id: ClientId)
    ensures
        state.fetch_results(client_id).mailbox(client_id) == Seq::<JobResultView>::empty(),
        forall|other: ClientId|
            other != client_id ==> #[trigger] state.fetch_results(client_id).mailbox(other)
                == state.mailbox(other),
{
}

proof fn lemma_mailbox_stays_empty(
    state: BrokerState,
    history: Seq<Operation>,
    first: int,
    until: int,
    client_id: ClientId,
)
    requires
        0 <= first < until <= history.len(),
        history[first] == (Operation::FetchResults { client_id }),
        forall|between: int|
            first < between < until ==> !(#[trigger] history[between] is AddResult),
    ensures
        run(state, history.take(until)).mailbox(client_id) == Seq::<JobResultView>::empty(),
    decreases until - first,
{
    lemma_run_step(state, history, until - 1);
    if until > first + 1 {
        lemma_mailbox_stays_empty(state, history, first, until - 1, client_id);
        assert(!(history[until - 1] is AddResult));
    }
}

/// The drain of a mailbox is atomic. In every history: a client that fetches
/// its results a second time, with no result handed in since the first time,
/// finds nothing, whatever else happened in between. What the first fetch
/// returned is not returned again.
pub proof fn lemma_second_fetch_finds_nothing(
    state: BrokerState,
    history: Seq<Operation>,
    first: int,
    second: int,
    client_id: ClientId,
)
    requires
        0 <= first < second < history.len(),
        history[first] == (Operation::FetchResults { client_id }),
        history[second] == (Operation::FetchResults { client_id }),
        forall|between: int|
            first < between < second ==> !(#[trigger] history[between] is AddResult),
    ensures
        run(state, history.take(second)).mailbox(client_id) == Seq::<JobResultView>::empty(),
{
    lemma_mailbox_stays_empty(state, history, first, second, client_id);
}

/// No job query, no job: a worker that asks for nothing gets nothing, and
/// every queue stays as it is, even if jobs are queued and even if the
/// worker brings a result.
pub proof fn lemma_no_query_no_job(state: BrokerState, result: Option<JobResultView>)
    ensures
        state.exchanged_job(result, None) is None,
        state.exchange(result, None).queues == state.queues,
{
}

/// One call that the broker answers, with the time at which it saw the
/// caller.
pub enum Call {
    ClientRegister { record: ClientRecord },
    ClientSubmitJob {
        client_id: ClientId,
        now: Timestamp,
        descriptor: ServiceDescriptor,
        job_data: Seq<u8>,
    },
    ClientFetchResults { client_id: ClientId, now: Timestamp },
    WorkerServerExchange {
        client_id: ClientId,
        now: Timestamp,
        result: Option<JobResultView>,
        query: Option<ServiceDescriptor>,
    },
    WorkerSubmitResult { client_id: ClientId, now: Timestamp, result: Option<JobResultView> },
    ControllerGetStatus { client_id: ClientId, now: Timestamp },
}

/// The operation that takes in `result`, if there is one.
pub open spec fn result_operations(result: Option<JobResultView>) -> Seq<Operation> {
    match result {
        Some(result) => seq![Operation::AddResult { result }],
        None => Seq::empty(),
    }
}

/// The operation that serves `query`, if there is one.
pub open spec fn query_operations(query: Option<ServiceDescriptor>) -> Seq<Operation> {
    match query {
        Some(descriptor) => seq![Operation::FetchJob { descriptor }],
        None => Seq::empty(),
    }
}

/// The operations that `call` consists of, in the order in which the broker
/// carries them out.
pub open spec fn operations(call: Call) -> Seq<Operation> {
    match call {
        Call::ClientRegister { record } => seq![Operation::Register { record }],
        Call::ClientSubmitJob { client_id, now, descriptor, job_data } => seq![
            Operation::Touch { client_id, now },
            Operation::Submit { client_id, descriptor, job_data },
        ],
        Call::ClientFetchResults { client_id, now } => seq![
            Operation::Touch { client_id, now },
            Operation::FetchResults { client_id },
        ],
        Call::WorkerServerExchange { client_id, now, result, query } => seq![
            Operation::Touch { client_id, now },
        ] + result_operations(result) + query_operations(query),
        Call::WorkerSubmitResult { client_id, now, result } => seq![
            Operation::Touch { client_id, now },
        ] + result_operations(result),
        Call::ControllerGetStatus { client_id, now } => seq![Operation::Touch { client_id, now }],
    }
}

impl BrokerState {
    /// The broker after it answered `call`.
    pub open spec fn answer(self, call: Call) -> BrokerState {
        match call {
            Call::ClientRegister { record } => self.register_client(record),
            Call::ClientSubmitJob { client_id, now, descriptor, job_data } => self.touch(
                client_id,
                now,
            ).submit_job(client_id, descriptor, job_data),
            Call::ClientFetchResults { client_id, now } => self.touch(client_id, now).fetch_results(
                client_id,
            ),
            Call::WorkerServerExchange { client_id, now, result, query } => self.touch(
                client_id,
                now,
            ).exchange(result, query),
            Call::WorkerSubmitResult { client_id, now, result } => self.touch(
                client_id,
                now,
            ).add_result_if_any(result),
            Call::ControllerGetStatus { client_id, now } => self.touch(client_id, now),
        }
    }
}

/// A history with one more operation at its end.
pub proof fn lemma_run_push(state: BrokerState, history: Seq<Operation>, operation: Operation)
    ensures
        run(state, history.push(operation)) == run(state, history).apply(operation),
{
    assert(history.push(operation).drop_last() =~= history);
}

/// Two histories in a row are one history.
pub proof fn lemma_run_concat(state: BrokerState, first: Seq<Operation>, second: Seq<Operation>)
    ensures
        run(state, first + second) == run(run(state, first), second),
    decreases second.len(),
{
    if second.len() == 0 {
        assert(first + second =~= first);
    } else {
        lemma_run_concat(state, first, second.drop_last());
        assert((first + second).drop_last() =~= first + second.drop_last());
    }
}

/// Every call is the history of its operations: what holds of all histories
/// holds of all sequences of calls.
pub proof fn lemma_call_runs_its_operations(state: BrokerState, call: Call)
    ensures
        run(state, operations(call)) == state.answer(call),
{
    let none = Seq::<Operation>::empty();
    assert(run(state, none) == state);
    match call {
        Call::ClientRegister { record } => {
            lemma_run_push(state, none, Operation::Register { record });
            assert(none.push(Operation::Register { record }) =~= operations(call));
        },
        Call::ClientSubmitJob { client_id, now, descriptor, job_data } => {
            let touch = Operation::Touch { client_id, now };
            let submit = Operation::Submit { client_id, descriptor, job_data };
            lemma_run_push(state, none, touch);
            lemma_run_push(state, none.push(touch), submit);
            assert(none.push(touch).push(submit) =~= operations(call));
        },
        Call::ClientFetchResults { client_id, now } => {
            let touch = Operation::Touch { client_id, now };
            let fetch = Operation::FetchResults { client_id };
            lemma_run_push(state, none, touch);
            lemma_run_push(state, none.push(touch), fetch);
            assert(none.push(touch).push(fetch) =~= operations(call));
        },
        Call::WorkerServerExchange { client_id, now, result, query } => {
            let touch = Operation::Touch { client_id, now };
            lemma_run_push(state, none, touch);
            let seen = none.push(touch);
            let told = match result {
                Some(result) => seen.push(Operation::AddResult { result }),
                None => seen,
            };
            if let Some(result) = result {
                lemma_run_push(state, seen, Operation::AddResult { result });
            }
            let asked = match query {
                Some(descriptor) => told.push(Operation::FetchJob { descriptor }),
                None => told,
            };
            if let Some(descriptor) = query {
                lemma_run_push(state, told, Operation::FetchJob { descriptor });
            }
            assert(asked =~= operations(call));
        },
        Call::WorkerSubmitResult { client_id, now, result } => {
            let touch = Operation::Touch { client_id, now };
            lemma_run_push(state, none, touch);
            let seen = none.push(touch);
            let told = match result {
                Some(result) => seen.push(Operation::AddResult { result }),
                None => seen,
            };
            if let Some(result) = result {
                lemma_run_push(state, seen, Operation::AddResult { result });
            }
            assert(told =~= operations(call));
        },
        Call::ControllerGetStatus { client_id, now } => {
            lemma_run_push(state, none, Operation::Touch { client_id, now });
            assert(none.push(Operation::Touch { client_id, now }) =~= operations(call));
        },
    }
}

} // verus!
