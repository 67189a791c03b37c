//! The text of the broker's status: a snapshot of the clients, the queued
//! jobs and the waiting results for people to read, which no part of the
//! grid reads back.
//!
//! Each table is written entry by entry, one line for each. The entries of
//! one table come in the order in which the table is walked, which is not
//! fixed; everything else about the text is.

use crate::broker::state::{BrokerState, ClientRecord};
use crate::clock::Timestamp;
use crate::descriptor::{ClientId, ServiceDescriptor};
use crate::job::{Job, JobResult, JobResultView, JobView};
use crate::text::{
    decimal_digits,
    decimal_text,
    decimal_text_u64,
    signed_decimal_text,
    signed_digits,
};
use std::collections::VecDeque;
use vstd::prelude::*;
use vstd::string::*;

verus! {

/// The compact JSON text of the object that holds `entries`, each a key with
/// a string as its value, as `serde_json` writes it.
pub uninterp spec fn json_object(entries: Seq<(Seq<char>, Seq<char>)>) -> Seq<char>;

/// The keys and values that a list of pairs of strings holds.
pub open spec fn entry_texts(entries: Seq<(String, String)>) -> Seq<(Seq<char>, Seq<char>)> {
    entries.map_values(|entry: (String, String)| (entry.0@, entry.1@))
}

/// The status of a broker whose clients, queued jobs and waiting results
/// are rendered as `clients`, `jobs` and `results`: one JSON object with
/// these three texts.
pub open spec fn status_document(clients: Seq<char>, jobs: Seq<char>, results: Seq<char>) -> Seq<
    char,
> {
    json_object(seq![("clients"@, clients), ("jobs"@, jobs), ("results"@, results)])
}

/// A point in time: the seconds, then the nanoseconds.
pub open spec fn timestamp_text(time: Timestamp) -> Seq<char> {
    signed_digits(time.seconds as int) + "s "@ + decimal_digits(time.nanoseconds as nat) + "ns"@
}

/// Bytes as decimal numbers with `, ` between them.
pub open spec fn byte_items(data: Seq<u8>) -> Seq<char>
    decreases data.len(),
{
    if data.len() == 0 {
        Seq::empty()
    } else if data.len() == 1 {
        decimal_digits(data[0] as nat)
    } else {
        byte_items(data.drop_last()) + ", "@ + decimal_digits(data.last() as nat)
    }
}

/// Bytes as a list in square brackets.
pub open spec fn bytes_text(data: Seq<u8>) -> Seq<char> {
    "["@ + byte_items(data) + "]"@
}

/// One registered client: its id, its description, its user and host, and
/// when it was last seen.
pub open spec fn client_text(client_id: ClientId, record: ClientRecord) -> Seq<char> {
    decimal_digits(client_id as nat) + ": "@ + record.client_description + " ("@ + record.user_id
        + "@"@ + record.host_id + ", last seen "@ + timestamp_text(record.last_access) + ")\n"@
}

/// One queued job: its id and its data.
pub open spec fn job_text(job: JobView) -> Seq<char> {
    decimal_digits(job.job_id as nat) + " "@ + bytes_text(job.job_data) + "; "@
}

/// The jobs of one queue, oldest first.
pub open spec fn job_items(jobs: Seq<JobView>) -> Seq<char>
    decreases jobs.len(),
{
    if jobs.len() == 0 {
        Seq::empty()
    } else {
        job_items(jobs.drop_last()) + job_text(jobs.last())
    }
}

/// One queue: the service, the version, and the queued jobs, oldest first.
pub open spec fn queue_text(descriptor: ServiceDescriptor, jobs: Seq<JobView>) -> Seq<char> {
    decimal_digits(descriptor.service_id as nat) + "/"@ + decimal_digits(
        descriptor.service_version as nat,
    ) + ": "@ + job_items(jobs) + "\n"@
}

/// One waiting result: the id of its job and its data.
pub open spec fn result_text(result: JobResultView) -> Seq<char> {
    decimal_digits(result.job_id as nat) + " "@ + bytes_text(result.result_data) + "; "@
}

/// The results of one mailbox, oldest first.
pub open spec fn result_items(results: Seq<JobResultView>) -> Seq<char>
    decreases results.len(),
{
    if results.len() == 0 {
        Seq::empty()
    } else {
        result_items(results.drop_last()) + result_text(results.last())
    }
}

/// One mailbox: the client and the results that wait for it, oldest first.
pub open spec fn mailbox_text(client_id: ClientId, results: Seq<JobResultView>) -> Seq<char> {
    decimal_digits(client_id as nat) + ": "@ + result_items(results) + "\n"@
}

/// The clients of `order`, one after the other.
pub open spec fn clients_text(clients: Map<ClientId, ClientRecord>, order: Seq<ClientId>) -> Seq<
    char,
>
    decreases order.len(),
{
    if order.len() == 0 {
        Seq::empty()
    } else {
        clients_text(clients, order.drop_last()) + client_text(order.last(), clients[order.last()])
    }
}

/// The queues of `order`, one after the other.
pub open spec fn jobs_text(
    queues: Map<ServiceDescriptor, Seq<JobView>>,
    order: Seq<ServiceDescriptor>,
) -> Seq<char>
    decreases order.len(),
{
    if order.len() == 0 {
        Seq::empty()
    } else {
        jobs_text(queues, order.drop_last()) + queue_text(order.last(), queues[order.last()])
    }
}

/// The mailboxes of `order`, one after the other.
pub open spec fn results_text(
    mailboxes: Map<ClientId, Seq<JobResultView>>,
    order: Seq<ClientId>,
) -> Seq<char>
    decreases order.len(),
{
    if order.len() == 0 {
        Seq::empty()
    } else {
        results_text(mailboxes, order.drop_last()) + mailbox_text(
            order.last(),
            mailboxes[order.last()],
        )
    }
}

/// Whether `order` names every key of `table` exactly once.
pub open spec fn walks<K, V>(order: Seq<K>, table: Map<K, V>) -> bool {
    order.no_duplicates() && order.to_set() == table.dom()
}

/// Whether `status` is a status of `state`: the JSON object of the three
/// tables, each written entry by entry in some order that names every entry
/// once.
pub open spec fn is_status_of(status: Seq<char>, state: BrokerState) -> bool {
    exists|clients: Seq<ClientId>, queues: Seq<ServiceDescriptor>, mailboxes: Seq<ClientId>|
        walks(clients, state.clients) && walks(queues, state.queues) && walks(
            mailboxes,
            state.mailboxes,
        ) && status == #[trigger] status_document(
            clients_text(state.clients, clients),
            jobs_text(state.queues, queues),
            results_text(state.mailboxes, mailboxes),
        )
}

/// Collects the pairs into a `serde_json::Value` (its `FromIterator` for
/// pairs of key and value, which makes an object) and writes the value with
/// `serde_json::Value`'s `to_string`. Claimed: the text depends on the
/// pairs alone.
#[verifier::external_body]
fn json_object_text(entries: &Vec<(String, String)>) -> (text: String)
    ensures
        text@ == json_object(entry_texts(entries@)),
{
    let object: serde_json::Value = entries.iter().cloned().collect();
    object.to_string()
}

/// Puts the three renderings of a broker's tables together into its status.
pub fn status_from_renderings(clients: String, jobs: String, results: String) -> (status: String)
    ensures
        status@ == status_document(clients@, jobs@, results@),
{
    let ghost expected = seq![("clients"@, clients@), ("jobs"@, jobs@), ("results"@, results@)];
    let mut entries: Vec<(String, String)> = Vec::new();
    entries.push((String::from_str("clients"), clients));
    entries.push((String::from_str("jobs"), jobs));
    entries.push((String::from_str("results"), results));
    assert(entry_texts(entries@) =~= expected);
    json_object_text(&entries)
}

/// Writes a point in time.
pub fn write_timestamp(time: Timestamp) -> (text: String)
    ensures
        text@ == timestamp_text(time),
{
    let text = signed_decimal_text(time.seconds).concat("s ").concat(
        decimal_text(time.nanoseconds).as_str(),
    ).concat("ns");
    assert(text@ =~= timestamp_text(time));
    text
}

/// Writes bytes as a list in square brackets.
pub fn write_bytes(data: &Vec<u8>) -> (text: String)
    ensures
        text@ == bytes_text(data@),
{
    let mut text = String::from_str("[");
    let mut position: usize = 0;
    while position < data.len()
        invariant
            position <= data.len(),
            text@ == "["@ + byte_items(data@.take(position as int)),
        decreases data.len() - position,
    {
        let ghost before = data@.take(position as int);
        let ghost after = data@.take(position + 1);
        assert(after.drop_last() =~= before);
        assert(after.last() == data@[position as int]);
        if position > 0 {
            text.append(", ");
        }
        text.append(decimal_text(data[position] as u32).as_str());
        assert(text@ =~= "["@ + byte_items(after));
        position = position + 1;
    }
    assert(data@.take(position as int) =~= data@);
    text.append("]");
    text
}

/// Writes one registered client.
pub fn write_client(
    client_id: ClientId,
    client_description: &String,
    host_id: &String,
    user_id: &String,
    last_access: Timestamp,
) -> (text: String)
    ensures
        text@ == client_text(
            client_id,
            ClientRecord {
                client_description: client_description@,
                host_id: host_id@,
                last_access,
                user_id: user_id@,
            },
        ),
{
    let text = decimal_text(client_id).concat(": ").concat(client_description.as_str()).concat(
        " (",
    ).concat(user_id.as_str()).concat("@").concat(host_id.as_str()).concat(", last seen ").concat(
        write_timestamp(last_access).as_str(),
    ).concat(")\n");
    assert(text@ =~= client_text(
        client_id,
        ClientRecord {
            client_description: client_description@,
            host_id: host_id@,
            last_access,
            user_id: user_id@,
        },
    ));
    text
}

/// Writes one queue.
pub fn write_queue(descriptor: ServiceDescriptor, jobs: &VecDeque<Job>) -> (text: String)
    ensures
        text@ == queue_text(descriptor, crate::job::job_views(jobs@)),
{
    let ghost all = crate::job::job_views(jobs@);
    let mut items = String::new();
    let mut position: usize = 0;
    while position < jobs.len()
        invariant
            position <= jobs.len(),
            all == crate::job::job_views(jobs@),
            items@ == job_items(all.take(position as int)),
        decreases jobs.len() - position,
    {
        let job = &jobs[position];
        let ghost before = all.take(position as int);
        let ghost after = all.take(position + 1);
        assert(after.drop_last() =~= before);
        assert(after.last() == job@);
        let item = decimal_text_u64(job.job_id).concat(" ").concat(
            write_bytes(&job.job_data).as_str(),
        ).concat("; ");
        assert(item@ =~= job_text(job@));
        items.append(item.as_str());
        position = position + 1;
    }
    assert(all.take(position as int) =~= all);
    let text = decimal_text(descriptor.service_id).concat("/").concat(
        decimal_text(descriptor.service_version).as_str(),
    ).concat(": ").concat(items.as_str()).concat("\n");
    assert(text@ =~= queue_text(descriptor, all));
    text
}

/// Writes one mailbox.
pub fn write_mailbox(client_id: ClientId, results: &Vec<JobResult>) -> (text: String)
    ensures
        text@ == mailbox_text(client_id, crate::job::result_views(results@)),
{
    let ghost all = crate::job::result_views(results@);
    let mut items = String::new();
    let mut position: usize = 0;
    while position < results.len()
        invariant
            position <= results.len(),
            all == crate::job::result_views(results@),
            items@ == result_items(all.take(position as int)),
        decreases results.len() - position,
    {
        let result = &results[position];
        let ghost before = all.take(position as int);
        let ghost after = all.take(position + 1);
        assert(after.drop_last() =~= before);
        assert(after.last() == result@);
        let item = decimal_text_u64(result.job_id).concat(" ").concat(
            write_bytes(&result.result_data).as_str(),
        ).concat("; ");
        assert(item@ =~= result_text(result@));
        items.append(item.as_str());
        position = position + 1;
    }
    assert(all.take(position as int) =~= all);
    let text = decimal_text(client_id).concat(": ").concat(items.as_str()).concat("\n");
    assert(text@ =~= mailbox_text(client_id, all));
    text
}

} // verus!
