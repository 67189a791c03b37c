//! The broker's tables and the operations on them.

use crate::broker::history::Call;
use crate::broker::state::{BrokerState, ClientRecord};
use crate::broker::status::{
    clients_text,
    is_status_of,
    jobs_text,
    results_text,
    status_from_renderings,
    walks,
    write_client,
    write_mailbox,
    write_queue,
};
use crate::clock::{current_time, Timestamp};
use crate::descriptor::{
    ClientId,
    JobId,
    JobQuery,
    ServiceDescriptor,
    ServiceId,
    ServiceVersion,
};
use crate::job::{
    job_option_view,
    job_views,
    result_option_view,
    result_views,
    Job,
    JobResult,
    JobView,
};
use std::collections::hash_map::Entry;
use std::collections::HashMap;
use std::collections::VecDeque;
use vstd::prelude::*;
use vstd::std_specs::iter::IteratorSpec;
use vstd::string::*;

verus! {

broadcast use vstd::std_specs::hash::group_hash_axioms;

/// What the broker knows of one registered client.
#[derive(Debug)]
pub struct ClientInformation {
    pub client_description: String,
    pub host_id: String,
    pub last_access: Timestamp,
    pub user_id: String,
}

impl View for ClientInformation {
    type V = ClientRecord;

    open spec fn view(&self) -> ClientRecord {
        ClientRecord {
            client_description: self.client_description@,
            host_id: self.host_id@,
            last_access: self.last_access,
            user_id: self.user_id@,
        }
    }
}

/// The broker: its two counters and its four tables. What they hold
/// together is the broker's view, a [`BrokerState`].
pub struct GridServerImpl {
    /// For each job whose result is owed, the client it is owed to.
    client_id_per_job_id: HashMap<JobId, ClientId>,
    /// The registered clients.
    client_information_per_client_id: HashMap<ClientId, ClientInformation>,
    /// The queued jobs, by service and then by version, oldest first.
    jobs_per_service_id_and_version: HashMap<ServiceId, HashMap<ServiceVersion, VecDeque<Job>>>,
    /// The id of the next client to register.
    next_client_id: ClientId,
    /// The id of the next job to be submitted.
    next_job_id: JobId,
    /// The results that wait for each client, oldest first.
    results_per_client_id: HashMap<ClientId, Vec<JobResult>>,
}

impl View for GridServerImpl {
    type V = BrokerState;

    closed spec fn view(&self) -> BrokerState {
        BrokerState {
            next_client_id: self.next_client_id,
            next_job_id: self.next_job_id,
            clients: self.client_information_per_client_id@.map_values(
                |information: ClientInformation| information@,
            ),
            client_of_job: self.client_id_per_job_id@,
            queues: Map::new(
                |descriptor: ServiceDescriptor|
                    {
                        let services = self.jobs_per_service_id_and_version@;
                        services.contains_key(descriptor.service_id)
                            && services[descriptor.service_id]@.contains_key(
                            descriptor.service_version,
                        )
                    },
                |descriptor: ServiceDescriptor|
                    {
                        let services = self.jobs_per_service_id_and_version@;
                        job_views(
                            services[descriptor.service_id]@[descriptor.service_version]@,
                        )
                    },
            ),
            mailboxes: self.results_per_client_id@.map_values(
                |results: Vec<JobResult>| result_views(results@),
            ),
        }
    }
}

/// The keys of `table`, each once, in the order in which the table is
/// walked.
fn keys_of<V>(table: &HashMap<u32, V>) -> (keys: Vec<u32>)
    ensures
        keys@.no_duplicates(),
        keys@.to_set() == table@.dom(),
{
    let mut keys: Vec<u32> = Vec::new();
    let ghost all = table.keys().remaining();
    for key in walk: table.keys()
        invariant
            walk.seq() == all,
            all == table.keys().remaining(),
            keys@ == all.unref().take(walk.index() as int),
    {
        keys.push(*key);
        assert(keys@ =~= all.unref().take(walk.index() + 1));
    }
    assert(keys@ =~= all.unref());
    assert forall|i: int, j: int|
        0 <= i < keys@.len() && 0 <= j < keys@.len() && i != j implies keys@[i] != keys@[j] by {
        assert(all[i] != all[j]);
    }
    keys
}

/// What one more element adds to the start of a sequence.
proof fn lemma_take_one_more<A>(s: Seq<A>, n: int, x: A)
    requires
        0 <= n < s.len(),
    ensures
        s.take(n + 1).contains(x) <==> s.take(n).contains(x) || s[n] == x,
        s.no_duplicates() ==> !s.take(n).contains(s[n]),
{
    let shorter = s.take(n);
    let longer = s.take(n + 1);
    if longer.contains(x) {
        let i = choose|i: int| 0 <= i < longer.len() && longer[i] == x;
        if i < n {
            assert(shorter[i] == x);
        }
    }
    if shorter.contains(x) {
        let i = choose|i: int| 0 <= i < shorter.len() && shorter[i] == x;
        assert(longer[i] == x);
    }
    if s[n] == x {
        assert(longer[n] == x);
    }
    if s.no_duplicates() && shorter.contains(s[n]) {
        let i = choose|i: int| 0 <= i < shorter.len() && shorter[i] == s[n];
        assert(s[i] == s[n]);
    }
}

/// What one more element adds to the end of a sequence.
proof fn lemma_push_contains<A>(s: Seq<A>, last: A, x: A)
    ensures
        s.push(last).contains(x) <==> s.contains(x) || x == last,
        s.no_duplicates() && !s.contains(last) ==> s.push(last).no_duplicates(),
{
    if s.push(last).contains(x) {
        let i = choose|i: int| 0 <= i < s.push(last).len() && s.push(last)[i] == x;
        if i < s.len() {
            assert(s[i] == x);
        }
    }
    if s.contains(x) {
        let i = choose|i: int| 0 <= i < s.len() && s[i] == x;
        assert(s.push(last)[i] == x);
    }
    if x == last {
        assert(s.push(last)[s.len() as int] == x);
    }
    if s.no_duplicates() && !s.contains(last) {
        assert forall|i: int, j: int|
            0 <= i < s.push(last).len() && 0 <= j < s.push(last).len() && i != j implies s.push(
            last,
        )[i] != s.push(last)[j] by {
            if i < s.len() && j < s.len() {
            } else if i < s.len() {
                assert(s.contains(s[i]));
            } else {
                assert(s.contains(s[j]));
            }
        }
    }
}

/// A sequence without duplicates that holds exactly the keys of a table
/// walks the table.
proof fn lemma_walks<K, V>(order: Seq<K>, table: Map<K, V>)
    requires
        order.no_duplicates(),
        forall|key: K| #[trigger] order.contains(key) <==> table.contains_key(key),
    ensures
        walks(order, table),
{
    assert(order.to_set() =~= table.dom());
}

impl GridServerImpl {
    /// Makes a broker without clients, jobs or results.
    pub fn new() -> (server: Self)
        ensures
            server@ == BrokerState::initial(),
            server@.well_formed(),
    {
        let server = GridServerImpl {
            client_id_per_job_id: HashMap::new(),
            client_information_per_client_id: HashMap::new(),
            jobs_per_service_id_and_version: HashMap::new(),
            next_client_id: 0,
            next_job_id: 0,
            results_per_client_id: HashMap::new(),
        };
        assert(server@ =~= BrokerState::initial());
        server
    }

    /// Whether a client id is left to give out.
    pub fn can_register(&self) -> (free: bool)
        ensures
            free == self@.can_register(),
    {
        self.next_client_id < u32::MAX
    }

    /// Whether a job id is left to give out.
    pub fn can_submit(&self) -> (free: bool)
        ensures
            free == self@.can_submit(),
    {
        self.next_job_id < u64::MAX
    }

    /// The client that the result of the job `job_id` is owed to, if it is
    /// owed to anybody.
    pub fn client_of_job(&self, job_id: JobId) -> (client_id: Option<ClientId>)
        ensures
            client_id == if self@.client_of_job.contains_key(job_id) {
                Some(self@.client_of_job[job_id])
            } else {
                None
            },
    {
        match self.client_id_per_job_id.get(&job_id) {
            Some(client_id) => Some(*client_id),
            None => None,
        }
    }

    /// Registers a client and returns its id: the ids are given out in
    /// order, starting at zero, and none is given out twice. Nobody is
    /// turned away.
    pub fn register_client(&mut self, information: ClientInformation) -> (client_id: ClientId)
        requires
            old(self)@.can_register(),
        ensures
            client_id == old(self)@.next_client_id,
            final(self)@ == old(self)@.register_client(information@),
            final(self)@.next_client_id == client_id + 1,
            old(self)@.well_formed() ==> final(self)@.well_formed(),
    {
        let client_id = self.next_client_id;
        self.client_information_per_client_id.insert(client_id, information);
        self.next_client_id = client_id + 1;
        proof {
            assert(self@ =~= old(self)@.register_client(information@));
            if old(self)@.well_formed() {
                crate::broker::state::lemma_register_client_well_formed(old(self)@, information@);
            }
        }
        client_id
    }

    /// Notes that the client `client_id` was seen at `now`. A client that
    /// never registered leaves no trace.
    pub fn update_client_last_access_time(&mut self, client_id: ClientId, now: Timestamp)
        ensures
            final(self)@ == old(self)@.touch(client_id, now),
            old(self)@.well_formed() ==> final(self)@.well_formed(),
    {
        match self.client_information_per_client_id.entry(client_id) {
            Entry::Occupied(mut occupied) => {
                let information = occupied.get_mut();
                information.last_access = now;
            },
            Entry::Vacant(_) => {},
        }
        proof {
            assert(self@ =~= old(self)@.touch(client_id, now));
            if old(self)@.well_formed() {
                crate::broker::state::lemma_touch_well_formed(old(self)@, client_id, now);
            }
        }
    }

    /// Takes a job from `client_id` for `service_version` of `service_id` and
    /// returns the job's id: the ids are given out in order, starting at
    /// zero, and none is given out twice. The job goes to the end of its
    /// queue, however long the queue is.
    pub fn submit_job(
        &mut self,
        client_id: ClientId,
        service_id: ServiceId,
        service_version: ServiceVersion,
        job_data: Vec<u8>,
    ) -> (job_id: JobId)
        requires
            old(self)@.can_submit(),
        ensures
            job_id == old(self)@.next_job_id,
            final(self)@ == old(self)@.submit_job(
                client_id,
                ServiceDescriptor { service_id, service_version },
                job_data@,
            ),
            final(self)@.next_job_id == job_id + 1,
            final(self)@.client_of_job.contains_key(job_id),
            final(self)@.client_of_job[job_id] == client_id,
            final(self)@.queue(ServiceDescriptor { service_id, service_version }).last() == (
            JobView { job_id, job_data: job_data@ }),
            old(self)@.well_formed() ==> final(self)@.well_formed(),
    {
        let descriptor = ServiceDescriptor { service_id, service_version };
        let job_id = self.next_job_id;
        self.next_job_id = job_id + 1;
        self.client_id_per_job_id.insert(job_id, client_id);
        let job = Job { job_data, job_id };
        let versions = self.jobs_per_service_id_and_version.entry(service_id).or_insert(
            HashMap::new(),
        );
        let queue = versions.entry(service_version).or_insert(VecDeque::new());
        queue.push_back(job);
        proof {
            let expected = old(self)@.submit_job(client_id, descriptor, job_data@);
            assert forall|other: ServiceDescriptor| #[trigger]
                self@.queues.contains_key(other) implies self@.queues[other]
                == expected.queues[other] by {
                if other == descriptor {
                    assert(self@.queues[other] =~= expected.queues[other]);
                }
            }
            assert(self@.queues =~= expected.queues);
            assert(self@ =~= expected);
            if old(self)@.well_formed() {
                crate::broker::state::lemma_submit_job_well_formed(
                    old(self)@,
                    client_id,
                    descriptor,
                    job_data@,
                );
            }
        }
        job_id
    }

    /// Hands out the oldest queued job of `service_version` of `service_id`,
    /// if there is one. A job that was handed out is gone from the broker:
    /// no worker gets it again.
    pub fn fetch_job(&mut self, service_id: ServiceId, service_version: ServiceVersion) -> (job:
        Option<Job>)
        ensures
            job_option_view(job) == old(self)@.next_job(
                ServiceDescriptor { service_id, service_version },
            ),
            final(self)@ == old(self)@.fetch_job(ServiceDescriptor { service_id, service_version }),
            old(self)@.well_formed() ==> final(self)@.well_formed(),
    {
        let descriptor = ServiceDescriptor { service_id, service_version };
        let job = match self.jobs_per_service_id_and_version.entry(service_id) {
            Entry::Occupied(mut service) => {
                let versions = service.get_mut();
                match versions.entry(service_version) {
                    Entry::Occupied(mut version) => {
                        let queue = version.get_mut();
                        queue.pop_front()
                    },
                    Entry::Vacant(_) => None,
                }
            },
            Entry::Vacant(_) => None,
        };
        proof {
            let expected = old(self)@.fetch_job(descriptor);
            assert forall|other: ServiceDescriptor| #[trigger]
                self@.queues.contains_key(other) implies self@.queues[other]
                == expected.queues[other] by {
                if other == descriptor {
                    assert(self@.queues[other] =~= expected.queues[other]);
                }
            }
            assert(self@.queues =~= expected.queues);
            assert(self@ =~= expected);
            if old(self)@.well_formed() {
                crate::broker::state::lemma_fetch_job_well_formed(old(self)@, descriptor);
            }
        }
        job
    }

    /// Takes in a worker's result. While the result of that job is owed, it
    /// goes to the end of the mailbox of the client that submitted the job,
    /// and is owed no longer. A result for a job that is unknown, or whose
    /// result came before, is dropped; nobody is told.
    pub fn add_result(&mut self, result: JobResult)
        ensures
            final(self)@ == old(self)@.add_result(result@),
            old(self)@.well_formed() ==> final(self)@.well_formed(),
    {
        let job_id = result.job_id;
        let maybe_client_id_for_job_id = self.client_id_per_job_id.remove(&job_id);
        if let Some(client_id_for_job_id) = maybe_client_id_for_job_id {
            let results = self.results_per_client_id.entry(client_id_for_job_id).or_insert(
                Vec::new(),
            );
            results.push(result);
            proof {
                let expected = old(self)@.add_result(result@);
                let owner = client_id_for_job_id;
                assert(self@.mailboxes[owner] =~= expected.mailboxes[owner]);
                assert(self@.mailboxes =~= expected.mailboxes);
            }
        }
        proof {
            assert(self@ =~= old(self)@.add_result(result@));
            if old(self)@.well_formed() {
                crate::broker::state::lemma_add_result_well_formed(old(self)@, result@);
            }
        }
    }

    /// Hands the client `client_id` all the results that wait for it, oldest
    /// first, and keeps none of them: a second call right after finds
    /// nothing.
    pub fn fetch_results(&mut self, client_id: ClientId) -> (results: Vec<JobResult>)
        ensures
            result_views(results@) == old(self)@.mailbox(client_id),
            final(self)@ == old(self)@.fetch_results(client_id),
            old(self)@.well_formed() ==> final(self)@.well_formed(),
    {
        let maybe_results = self.results_per_client_id.remove(&client_id);
        proof {
            assert(self@ =~= old(self)@.fetch_results(client_id));
            if old(self)@.well_formed() {
                crate::broker::state::lemma_fetch_results_well_formed(old(self)@, client_id);
            }
        }
        match maybe_results {
            Some(results) => results,
            None => {
                let results: Vec<JobResult> = Vec::new();
                assert(result_views(results@) =~= old(self)@.mailbox(client_id));
                results
            },
        }
    }

    /// Writes the table of clients, entry by entry, in the order in which
    /// the table is walked.
    fn render_clients(&self) -> (rendered: (String, Ghost<Seq<ClientId>>))
        ensures
            walks(rendered.1@, self@.clients),
            rendered.0@ == clients_text(self@.clients, rendered.1@),
    {
        let keys = keys_of(&self.client_information_per_client_id);
        let mut text = String::new();
        let mut position: usize = 0;
        while position < keys.len()
            invariant
                position <= keys.len(),
                keys@.to_set() == self.client_information_per_client_id@.dom(),
                text@ == clients_text(self@.clients, keys@.take(position as int)),
            decreases keys.len() - position,
        {
            let client_id = keys[position];
            proof {
                assert(keys@.contains(client_id));
                assert(keys@.to_set().contains(client_id));
                assert(keys@.take(position + 1).drop_last() =~= keys@.take(position as int));
            }
            match self.client_information_per_client_id.get(&client_id) {
                Some(information) => {
                    let entry = write_client(
                        client_id,
                        &information.client_description,
                        &information.host_id,
                        &information.user_id,
                        information.last_access,
                    );
                    text.append(entry.as_str());
                    assert(self@.clients[client_id] == information@);
                },
                None => {},
            }
            position = position + 1;
        }
        assert(keys@.take(position as int) =~= keys@);
        proof {
            assert(self@.clients.dom() =~= self.client_information_per_client_id@.dom());
        }
        (text, Ghost(keys@))
    }

    /// Writes the table of waiting results, mailbox by mailbox, in the order
    /// in which the table is walked.
    fn render_results(&self) -> (rendered: (String, Ghost<Seq<ClientId>>))
        ensures
            walks(rendered.1@, self@.mailboxes),
            rendered.0@ == results_text(self@.mailboxes, rendered.1@),
    {
        let keys = keys_of(&self.results_per_client_id);
        let mut text = String::new();
        let mut position: usize = 0;
        while position < keys.len()
            invariant
                position <= keys.len(),
                keys@.to_set() == self.results_per_client_id@.dom(),
                text@ == results_text(self@.mailboxes, keys@.take(position as int)),
            decreases keys.len() - position,
        {
            let client_id = keys[position];
            proof {
                assert(keys@.contains(client_id));
                assert(keys@.to_set().contains(client_id));
                assert(keys@.take(position + 1).drop_last() =~= keys@.take(position as int));
            }
            match self.results_per_client_id.get(&client_id) {
                Some(results) => {
                    let entry = write_mailbox(client_id, results);
                    text.append(entry.as_str());
                    assert(self@.mailboxes[client_id] == result_views(results@));
                },
                None => {},
            }
            position = position + 1;
        }
        assert(keys@.take(position as int) =~= keys@);
        proof {
            assert(self@.mailboxes.dom() =~= self.results_per_client_id@.dom());
        }
        (text, Ghost(keys@))
    }

    /// Writes the table of queued jobs, queue by queue, in the order in
    /// which the table is walked: service by service, and within one service
    /// version by version.
    #[verifier::loop_isolation(false)]
    fn render_jobs(&self) -> (rendered: (String, Ghost<Seq<ServiceDescriptor>>))
        ensures
            walks(rendered.1@, self@.queues),
            rendered.0@ == jobs_text(self@.queues, rendered.1@),
    {
        let services = keys_of(&self.jobs_per_service_id_and_version);
        let ghost table = self.jobs_per_service_id_and_version@;
        let ghost queues = self@.queues;
        let mut text = String::new();
        let ghost mut order: Seq<ServiceDescriptor> = Seq::empty();
        let mut a: usize = 0;
        while a < services.len()
            invariant
                a <= services.len(),
                text@ == jobs_text(queues, order),
                order.no_duplicates(),
                forall|d: ServiceDescriptor| #[trigger]
                    order.contains(d) <==> queues.contains_key(d) && services@.take(
                        a as int,
                    ).contains(d.service_id),
            decreases services.len() - a,
        {
            let service_id = services[a];
            proof {
                assert(services@.contains(service_id));
                assert(services@.to_set().contains(service_id));
            }
            match self.jobs_per_service_id_and_version.get(&service_id) {
                Some(by_version) => {
                    let versions = keys_of(by_version);
                    let mut b: usize = 0;
                    while b < versions.len()
                        invariant
                            b <= versions.len(),
                            text@ == jobs_text(queues, order),
                            order.no_duplicates(),
                            forall|d: ServiceDescriptor| #[trigger]
                                order.contains(d) <==> queues.contains_key(d) && (services@.take(
                                    a as int,
                                ).contains(d.service_id) || (d.service_id == service_id
                                    && versions@.take(b as int).contains(d.service_version))),
                        decreases versions.len() - b,
                    {
                        let service_version = versions[b];
                        let descriptor = ServiceDescriptor { service_id, service_version };
                        proof {
                            assert(versions@.contains(service_version));
                            assert(versions@.to_set().contains(service_version));
                        }
                        match by_version.get(&service_version) {
                            Some(queue) => {
                                let entry = write_queue(descriptor, queue);
                                text.append(entry.as_str());
                                proof {
                                    let before = order;
                                    lemma_take_one_more(services@, a as int, service_id);
                                    lemma_take_one_more(versions@, b as int, service_version);
                                    assert(!before.contains(descriptor));
                                    lemma_push_contains(before, descriptor, descriptor);
                                    order = before.push(descriptor);
                                    assert(order.drop_last() =~= before);
                                    assert(queues[descriptor] == job_views(queue@));
                                    assert forall|d: ServiceDescriptor| #[trigger]
                                        order.contains(d) <==> queues.contains_key(d) && (
                                        services@.take(a as int).contains(d.service_id) || (
                                        d.service_id == service_id && versions@.take(
                                            b + 1,
                                        ).contains(d.service_version))) by {
                                        lemma_push_contains(before, descriptor, d);
                                        lemma_take_one_more(versions@, b as int, d.service_version);
                                        assert(before.contains(d) <==> queues.contains_key(d) && (
                                        services@.take(a as int).contains(d.service_id) || (
                                        d.service_id == service_id && versions@.take(
                                            b as int,
                                        ).contains(d.service_version))));
                                    }
                                }
                            },
                            None => {},
                        }
                        b = b + 1;
                    }
                    proof {
                        assert(versions@.take(b as int) =~= versions@);
                        assert forall|d: ServiceDescriptor| #[trigger]
                            order.contains(d) <==> queues.contains_key(d) && services@.take(
                                a + 1,
                            ).contains(d.service_id) by {
                            lemma_take_one_more(services@, a as int, d.service_id);
                            if queues.contains_key(d) && d.service_id == service_id {
                                assert(by_version@.contains_key(d.service_version));
                                assert(versions@.to_set().contains(d.service_version));
                            }
                        }
                    }
                },
                None => {},
            }
            a = a + 1;
        }
        proof {
            assert(services@.take(a as int) =~= services@);
            assert forall|d: ServiceDescriptor| #[trigger]
                order.contains(d) <==> queues.contains_key(d) by {
                if queues.contains_key(d) {
                    assert(table.contains_key(d.service_id));
                    assert(services@.to_set().contains(d.service_id));
                }
            }
            lemma_walks(order, queues);
        }
        (text, Ghost(order))
    }

    /// Registers, at the time `now`, a client that describes itself by a
    /// host, a user and a free text, and returns its id.
    pub fn client_register_at(
        &mut self,
        client_description: String,
        host_id: String,
        user_id: String,
        now: Timestamp,
    ) -> (client_id: ClientId)
        requires
            old(self)@.can_register(),
        ensures
            client_id == old(self)@.next_client_id,
            final(self)@ == old(self)@.answer(
                Call::ClientRegister {
                    record: ClientRecord {
                        client_description: client_description@,
                        host_id: host_id@,
                        last_access: now,
                        user_id: user_id@,
                    },
                },
            ),
            old(self)@.well_formed() ==> final(self)@.well_formed(),
    {
        let information = ClientInformation {
            client_description,
            host_id,
            last_access: now,
            user_id,
        };
        self.register_client(information)
    }

    /// Takes, at the time `now`, a job from `client_id` and returns the
    /// job's id. The client counts as seen at `now`.
    pub fn client_submit_job_at(
        &mut self,
        client_id: ClientId,
        service_id: ServiceId,
        service_version: ServiceVersion,
        job_data: Vec<u8>,
        now: Timestamp,
    ) -> (job_id: JobId)
        requires
            old(self)@.can_submit(),
        ensures
            job_id == old(self)@.next_job_id,
            final(self)@ == old(self)@.answer(
                Call::ClientSubmitJob {
                    client_id,
                    now,
                    descriptor: ServiceDescriptor { service_id, service_version },
                    job_data: job_data@,
                },
            ),
            old(self)@.well_formed() ==> final(self)@.well_formed(),
    {
        self.update_client_last_access_time(client_id, now);
        self.submit_job(client_id, service_id, service_version, job_data)
    }

    /// Hands `client_id`, at the time `now`, all the results that wait for
    /// it, and keeps none of them. The client counts as seen at `now`.
    pub fn client_fetch_results_at(&mut self, client_id: ClientId, now: Timestamp) -> (results:
        Vec<JobResult>)
        ensures
            result_views(results@) == old(self)@.mailbox(client_id),
            final(self)@ == old(self)@.answer(Call::ClientFetchResults { client_id, now }),
            old(self)@.well_formed() ==> final(self)@.well_formed(),
    {
        self.update_client_last_access_time(client_id, now);
        self.fetch_results(client_id)
    }

    /// One exchange, at the time `now`, with the worker `worker_client_id`,
    /// which counts as seen at `now`. The worker's result, if it brings one,
    /// is taken in first. Then, whether or not a result came, the worker
    /// gets the oldest queued job that matches its query. A worker that asks
    /// for nothing gets nothing.
    pub fn worker_server_exchange_at(
        &mut self,
        worker_client_id: ClientId,
        result_from_worker: Option<JobResult>,
        query_job_from_server: Option<JobQuery>,
        now: Timestamp,
    ) -> (job: Option<Job>)
        ensures
            job_option_view(job) == old(self)@.exchanged_job(
                result_option_view(result_from_worker),
                query_job_from_server,
            ),
            query_job_from_server is None ==> job is None,
            final(self)@ == old(self)@.answer(
                Call::WorkerServerExchange {
                    client_id: worker_client_id,
                    now,
                    result: result_option_view(result_from_worker),
                    query: query_job_from_server,
                },
            ),
            old(self)@.well_formed() ==> final(self)@.well_formed(),
    {
        self.update_client_last_access_time(worker_client_id, now);
        if let Some(result) = result_from_worker {
            self.add_result(result);
        }
        match query_job_from_server {
            Some(query) => self.fetch_job(query.service_id, query.service_version),
            None => None,
        }
    }

    /// Takes in, at the time `now`, the result that the worker
    /// `worker_client_id` hands in, if it hands in one. The worker counts as
    /// seen at `now`.
    pub fn worker_submit_result_at(
        &mut self,
        worker_client_id: ClientId,
        result: Option<JobResult>,
        now: Timestamp,
    )
        ensures
            final(self)@ == old(self)@.answer(
                Call::WorkerSubmitResult {
                    client_id: worker_client_id,
                    now,
                    result: result_option_view(result),
                },
            ),
            old(self)@.well_formed() ==> final(self)@.well_formed(),
    {
        self.update_client_last_access_time(worker_client_id, now);
        if let Some(result) = result {
            self.add_result(result);
        }
    }

    /// Writes, at the time `now`, the clients, the queued jobs and the
    /// waiting results for a person to read: every client, every queue and
    /// every mailbox once, as they stand after the caller was seen at `now`.
    /// Nothing else changes: reading the status takes no job and no result.
    pub fn controller_get_status_at(&mut self, client_id: ClientId, now: Timestamp) -> (status:
        String)
        ensures
            final(self)@ == old(self)@.answer(Call::ControllerGetStatus { client_id, now }),
            is_status_of(status@, final(self)@),
            old(self)@.well_formed() ==> final(self)@.well_formed(),
    {
        self.update_client_last_access_time(client_id, now);
        let (clients, Ghost(client_order)) = self.render_clients();
        let (jobs, Ghost(queue_order)) = self.render_jobs();
        let (results, Ghost(mailbox_order)) = self.render_results();
        let status = status_from_renderings(clients, jobs, results);
        assert(status@ == crate::broker::status::status_document(
            clients_text(self@.clients, client_order),
            jobs_text(self@.queues, queue_order),
            results_text(self@.mailboxes, mailbox_order),
        ));
        status
    }

    /// Registers a client that describes itself by a host, a user and a
    /// free text, and returns its id. The client counts as seen at the time
    /// of the call, as the clock gives it.
    pub fn client_register(
        &mut self,
        client_description: String,
        host_id: String,
        user_id: String,
    ) -> (client_id: ClientId)
        requires
            old(self)@.can_register(),
        ensures
            client_id == old(self)@.next_client_id,
            exists|now: Timestamp|
                final(self)@ == #[trigger] old(self)@.answer(
                    Call::ClientRegister {
                        record: ClientRecord {
                            client_description: client_description@,
                            host_id: host_id@,
                            last_access: now,
                            user_id: user_id@,
                        },
                    },
                ),
            old(self)@.well_formed() ==> final(self)@.well_formed(),
    {
        let now = current_time();
        self.client_register_at(client_description, host_id, user_id, now)
    }

    /// Takes a job from `client_id`, which counts as seen at the time of the
    /// call, as the clock gives it, and returns the job's id.
    pub fn client_submit_job(
        &mut self,
        client_id: ClientId,
        service_id: ServiceId,
        service_version: ServiceVersion,
        job_data: Vec<u8>,
    ) -> (job_id: JobId)
        requires
            old(self)@.can_submit(),
        ensures
            job_id == old(self)@.next_job_id,
            exists|now: Timestamp|
                final(self)@ == #[trigger] old(self)@.answer(
                    Call::ClientSubmitJob {
                        client_id,
                        now,
                        descriptor: ServiceDescriptor { service_id, service_version },
                        job_data: job_data@,
                    },
                ),
            old(self)@.well_formed() ==> final(self)@.well_formed(),
    {
        let now = current_time();
        self.client_submit_job_at(client_id, service_id, service_version, job_data, now)
    }

    /// Hands `client_id`, which counts as seen at the time of the call, as
    /// the clock gives it, all the results that wait for it, and keeps none
    /// of them.
    pub fn client_fetch_results(&mut self, client_id: ClientId) -> (results: Vec<JobResult>)
        ensures
            result_views(results@) == old(self)@.mailbox(client_id),
            exists|now: Timestamp|
                final(self)@ == #[trigger] old(self)@.answer(
                    Call::ClientFetchResults { client_id, now },
                ),
            old(self)@.well_formed() ==> final(self)@.well_formed(),
    {
        let now = current_time();
        self.client_fetch_results_at(client_id, now)
    }

    /// One exchange with the worker `worker_client_id`, at the time of the
    /// call, as the clock gives it.
    pub fn worker_server_exchange(
        &mut self,
        worker_client_id: ClientId,
        result_from_worker: Option<JobResult>,
        query_job_from_server: Option<JobQuery>,
    ) -> (job: Option<Job>)
        ensures
            job_option_view(job) == old(self)@.exchanged_job(
                result_option_view(result_from_worker),
                query_job_from_server,
            ),
            query_job_from_server is None ==> job is None,
            exists|now: Timestamp|
                final(self)@ == #[trigger] old(self)@.answer(
                    Call::WorkerServerExchange {
                        client_id: worker_client_id,
                        now,
                        result: result_option_view(result_from_worker),
                        query: query_job_from_server,
                    },
                ),
            old(self)@.well_formed() ==> final(self)@.well_formed(),
    {
        let now = current_time();
        self.worker_server_exchange_at(
            worker_client_id,
            result_from_worker,
            query_job_from_server,
            now,
        )
    }

    /// Takes in the result that the worker `worker_client_id` hands in, if
    /// it hands in one, at the time of the call, as the clock gives it.
    pub fn worker_submit_result(&mut self, worker_client_id: ClientId, result: Option<JobResult>)
        ensures
            exists|now: Timestamp|
                final(self)@ == #[trigger] old(self)@.answer(
                    Call::WorkerSubmitResult {
                        client_id: worker_client_id,
                        now,
                        result: result_option_view(result),
                    },
                ),
            old(self)@.well_formed() ==> final(self)@.well_formed(),
    {
        let now = current_time();
        self.worker_submit_result_at(worker_client_id, result, now)
    }

    /// Writes the clients, the queued jobs and the waiting results for a
    /// person to read, at the time of the call, as the clock gives it.
    pub fn controller_get_status(&mut self, client_id: ClientId) -> (status: String)
        ensures
            exists|now: Timestamp|
                final(self)@ == #[trigger] old(self)@.answer(
                    Call::ControllerGetStatus { client_id, now },
                ),
            is_status_of(status@, final(self)@),
            old(self)@.well_formed() ==> final(self)@.well_formed(),
    {
        let now = current_time();
        self.controller_get_status_at(client_id, now)
    }
}

} // verus!
