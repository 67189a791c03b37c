use grid::broker::server::{ClientInformation, GridServerImpl};
use grid::broker::status::{
    status_from_renderings, write_bytes, write_client, write_mailbox, write_queue, write_timestamp,
};
use grid::clock::Timestamp;
use grid::descriptor::{JobQuery, ServiceDescriptor};
use grid::job::{Job, JobResult};

fn information(description: &str) -> ClientInformation {
    ClientInformation {
        client_description: description.to_string(),
        host_id: "host".to_string(),
        last_access: Timestamp { seconds: 1_700_000_000, nanoseconds: 5 },
        user_id: "user".to_string(),
    }
}

fn query(service_id: u32, service_version: u32) -> Option<JobQuery> {
    Some(ServiceDescriptor { service_id, service_version })
}

#[test]
fn scenario_job_travels_to_worker_and_result_back() {
    let mut server = GridServerImpl::new();
    let client_id = server.client_register("client".to_string(), "host".to_string(), "user".to_string());
    assert_eq!(client_id, 0);
    let job_id = server.client_submit_job(client_id, 7, 1, b"abc".to_vec());
    assert_eq!(job_id, 0);

    let worker_id = server.client_register("worker 7 1 lib".to_string(), "host".to_string(), "user".to_string());
    let job = server.worker_server_exchange(worker_id, None, query(7, 1));
    assert_eq!(job, Some(Job { job_data: b"abc".to_vec(), job_id: 0 }));

    let next = server.worker_server_exchange(
        worker_id,
        Some(JobResult { job_id: 0, result_data: b"xyz".to_vec() }),
        query(7, 1),
    );
    assert_eq!(next, None);

    let results = server.client_fetch_results(client_id);
    assert_eq!(results, vec![JobResult { job_id: 0, result_data: b"xyz".to_vec() }]);
    let again = server.client_fetch_results(client_id);
    assert_eq!(again, vec![]);
}

#[test]
fn client_ids_start_at_zero_and_increase() {
    let mut server = GridServerImpl::new();
    let mut previous = server.register_client(information("first"));
    assert_eq!(previous, 0);
    for _ in 0..20 {
        let _ = server.submit_job(previous, 1, 1, vec![]);
        let next = server.client_register("c".to_string(), "h".to_string(), "u".to_string());
        assert_eq!(next, previous + 1);
        previous = next;
    }
}

#[test]
fn job_ids_start_at_zero_and_increase_across_queues() {
    let mut server = GridServerImpl::new();
    assert_eq!(server.submit_job(0, 1, 1, vec![1]), 0);
    assert_eq!(server.submit_job(5, 2, 1, vec![2]), 1);
    assert_eq!(server.client_submit_job(0, 1, 2, vec![3]), 2);
    assert_eq!(server.fetch_job(1, 1).map(|job| job.job_id), Some(0));
    assert_eq!(server.submit_job(0, 1, 1, vec![4]), 3);
}

#[test]
fn jobs_of_one_descriptor_leave_in_order_of_submission() {
    let mut server = GridServerImpl::new();
    let first = server.submit_job(0, 7, 1, b"one".to_vec());
    let other = server.submit_job(0, 7, 2, b"other".to_vec());
    let second = server.submit_job(1, 7, 1, b"two".to_vec());
    let third = server.submit_job(0, 7, 1, b"three".to_vec());

    assert_eq!(server.fetch_job(7, 1), Some(Job { job_data: b"one".to_vec(), job_id: first }));
    assert_eq!(server.fetch_job(7, 1), Some(Job { job_data: b"two".to_vec(), job_id: second }));
    assert_eq!(server.fetch_job(7, 2), Some(Job { job_data: b"other".to_vec(), job_id: other }));
    assert_eq!(server.fetch_job(7, 1), Some(Job { job_data: b"three".to_vec(), job_id: third }));
    assert_eq!(server.fetch_job(7, 1), None);
    assert_eq!(server.fetch_job(7, 2), None);
}

#[test]
fn a_job_is_handed_out_once() {
    let mut server = GridServerImpl::new();
    let _ = server.submit_job(0, 3, 4, vec![9]);
    assert!(server.worker_server_exchange(1, None, query(3, 4)).is_some());
    assert!(server.worker_server_exchange(2, None, query(3, 4)).is_none());
}

#[test]
fn version_and_service_are_not_mixed_up() {
    let mut server = GridServerImpl::new();
    let _ = server.submit_job(0, 1, 2, vec![1]);
    assert_eq!(server.fetch_job(2, 1), None);
    assert_eq!(server.fetch_job(0, 0), None);
    assert_eq!(server.fetch_job(1, 2).map(|job| job.job_id), Some(0));
}

#[test]
fn descriptors_with_large_numbers_have_queues_of_their_own() {
    let mut server = GridServerImpl::new();
    let a = server.submit_job(0, u32::MAX, 0, vec![1]);
    let b = server.submit_job(0, 0, u32::MAX, vec![2]);
    let c = server.submit_job(0, u32::MAX, u32::MAX, vec![3]);
    assert_eq!(server.fetch_job(0, u32::MAX).map(|job| job.job_id), Some(b));
    assert_eq!(server.fetch_job(u32::MAX, u32::MAX).map(|job| job.job_id), Some(c));
    assert_eq!(server.fetch_job(u32::MAX, 0).map(|job| job.job_id), Some(a));
    assert_eq!(server.worker_server_exchange(0, None, Some(ServiceDescriptor::new(0, 0))), None);
}

#[test]
fn a_result_reaches_the_submitter_and_nobody_else() {
    let mut server = GridServerImpl::new();
    let alice = server.register_client(information("alice"));
    let bob = server.register_client(information("bob"));
    let job_of_alice = server.submit_job(alice, 1, 1, vec![1]);
    let job_of_bob = server.submit_job(bob, 1, 1, vec![2]);

    server.add_result(JobResult { job_id: job_of_bob, result_data: vec![20] });
    server.add_result(JobResult { job_id: job_of_alice, result_data: vec![10] });

    assert_eq!(
        server.fetch_results(alice),
        vec![JobResult { job_id: job_of_alice, result_data: vec![10] }]
    );
    assert_eq!(
        server.fetch_results(bob),
        vec![JobResult { job_id: job_of_bob, result_data: vec![20] }]
    );
}

#[test]
fn results_wait_in_the_order_of_their_arrival() {
    let mut server = GridServerImpl::new();
    let a = server.submit_job(4, 1, 1, vec![]);
    let b = server.submit_job(4, 2, 1, vec![]);
    let c = server.submit_job(4, 1, 1, vec![]);
    server.add_result(JobResult { job_id: c, result_data: vec![3] });
    server.add_result(JobResult { job_id: a, result_data: vec![1] });
    server.add_result(JobResult { job_id: b, result_data: vec![2] });
    assert_eq!(
        server.fetch_results(4),
        vec![
            JobResult { job_id: c, result_data: vec![3] },
            JobResult { job_id: a, result_data: vec![1] },
            JobResult { job_id: b, result_data: vec![2] },
        ]
    );
}

#[test]
fn the_second_result_for_a_job_is_dropped() {
    let mut server = GridServerImpl::new();
    let client = server.register_client(information("client"));
    let job_id = server.submit_job(client, 1, 1, vec![1]);
    server.worker_submit_result(9, Some(JobResult { job_id, result_data: vec![1] }));
    server.worker_submit_result(9, Some(JobResult { job_id, result_data: vec![2] }));
    assert_eq!(server.fetch_results(client), vec![JobResult { job_id, result_data: vec![1] }]);
    server.add_result(JobResult { job_id, result_data: vec![3] });
    assert_eq!(server.fetch_results(client), vec![]);
}

#[test]
fn a_result_for_an_unknown_job_is_dropped() {
    let mut server = GridServerImpl::new();
    let client = server.register_client(information("client"));
    server.add_result(JobResult { job_id: 0, result_data: vec![1] });
    assert_eq!(server.fetch_results(client), vec![]);
    let job_id = server.submit_job(client, 1, 1, vec![]);
    assert_eq!(job_id, 0);
    server.add_result(JobResult { job_id: 1, result_data: vec![1] });
    assert_eq!(server.fetch_results(client), vec![]);
}

#[test]
fn worker_submit_result_without_a_result_changes_nothing() {
    let mut server = GridServerImpl::new();
    let job_id = server.submit_job(0, 1, 1, vec![]);
    server.worker_submit_result(1, None);
    server.add_result(JobResult { job_id, result_data: vec![5] });
    assert_eq!(server.fetch_results(0), vec![JobResult { job_id, result_data: vec![5] }]);
}

#[test]
fn fetching_drains_the_mailbox() {
    let mut server = GridServerImpl::new();
    let a = server.submit_job(0, 1, 1, vec![]);
    let b = server.submit_job(0, 1, 1, vec![]);
    server.add_result(JobResult { job_id: a, result_data: vec![1] });
    server.add_result(JobResult { job_id: b, result_data: vec![2] });
    assert_eq!(server.client_fetch_results(0).len(), 2);
    assert_eq!(server.client_fetch_results(0).len(), 0);
    assert_eq!(server.fetch_results(0).len(), 0);
}

#[test]
fn fetching_the_results_of_an_unknown_client_gives_nothing() {
    let mut server = GridServerImpl::new();
    assert_eq!(server.client_fetch_results(17), vec![]);
    assert_eq!(server.fetch_results(u32::MAX), vec![]);
}

#[test]
fn without_a_query_no_job_is_returned() {
    let mut server = GridServerImpl::new();
    let _ = server.submit_job(0, 7, 1, vec![1]);
    assert_eq!(server.worker_server_exchange(1, None, None), None);
    assert_eq!(
        server.worker_server_exchange(1, Some(JobResult { job_id: 0, result_data: vec![] }), None),
        None
    );
    assert_eq!(server.fetch_job(7, 1).map(|job| job.job_id), Some(0));
    assert_eq!(server.fetch_results(0), vec![JobResult { job_id: 0, result_data: vec![] }]);
}

#[test]
fn an_exchange_takes_the_result_in_before_it_serves_the_query() {
    let mut server = GridServerImpl::new();
    let first = server.submit_job(0, 7, 1, vec![1]);
    let second = server.submit_job(0, 7, 1, vec![2]);
    let job = server.worker_server_exchange(1, None, query(7, 1)).unwrap();
    assert_eq!(job.job_id(), first);
    assert_eq!(job.job_data(), &vec![1]);
    let next = server
        .worker_server_exchange(1, Some(JobResult::new(first, vec![11])), query(7, 1))
        .unwrap();
    assert_eq!(next.job_id, second);
    let results = server.fetch_results(0);
    assert_eq!(results.len(), 1);
    assert_eq!(results[0].job_id(), first);
    assert_eq!(results[0].result_data(), &vec![11]);
}

#[test]
fn identifiers_are_left_on_a_fresh_broker() {
    let server = GridServerImpl::new();
    assert!(server.can_register());
    assert!(server.can_submit());
}

#[test]
fn seeing_a_client_changes_no_queue_and_no_mailbox() {
    let mut server = GridServerImpl::new();
    let client = server.register_client(information("client"));
    let job_id = server.submit_job(client, 1, 1, vec![1]);
    server.update_client_last_access_time(client, Timestamp { seconds: 2, nanoseconds: 3 });
    server.update_client_last_access_time(99, Timestamp { seconds: 2, nanoseconds: 3 });
    assert_eq!(server.fetch_job(1, 1).map(|job| job.job_id), Some(job_id));
    assert_eq!(server.register_client(information("next")), client + 1);
}

#[test]
fn the_status_is_a_json_object_of_three_texts() {
    let status = status_from_renderings("a".to_string(), "b \"c\"".to_string(), "".to_string());
    assert_eq!(status, "{\"clients\":\"a\",\"jobs\":\"b \\\"c\\\"\",\"results\":\"\"}");
}

fn at(seconds: i64, nanoseconds: u32) -> Timestamp {
    Timestamp { seconds, nanoseconds }
}

fn status_fields(status: &str) -> (String, String, String) {
    let parsed: serde_json::Value = serde_json::from_str(status).unwrap();
    let object = parsed.as_object().unwrap();
    assert_eq!(object.len(), 3);
    (
        object["clients"].as_str().unwrap().to_string(),
        object["jobs"].as_str().unwrap().to_string(),
        object["results"].as_str().unwrap().to_string(),
    )
}

#[test]
fn the_status_of_a_fresh_broker_holds_three_empty_tables() {
    let mut server = GridServerImpl::new();
    let status = server.controller_get_status_at(0, at(1, 0));
    assert_eq!(status, "{\"clients\":\"\",\"jobs\":\"\",\"results\":\"\"}");
}

#[test]
fn the_status_renders_clients_jobs_and_results() {
    let mut server = GridServerImpl::new();
    let client = server.client_register_at(
        "reader".to_string(),
        "box".to_string(),
        "me".to_string(),
        at(1_700_000_000, 5),
    );
    let queued = server.client_submit_job_at(client, 7, 1, vec![1, 2, 3], at(1_700_000_001, 0));
    let done = server.client_submit_job_at(client, 7, 1, vec![4], at(1_700_000_002, 0));
    server.add_result(JobResult { job_id: done, result_data: vec![42, 0] });

    let status = server.controller_get_status_at(client, at(-1, 999));
    let (clients, jobs, results) = status_fields(&status);
    assert_eq!(clients, "0: reader (me@box, last seen -1s 999ns)\n");
    assert_eq!(jobs, "7/1: 0 [1, 2, 3]; 1 [4]; \n");
    assert_eq!(results, "0: 1 [42, 0]; \n");
    assert_eq!(
        status,
        "{\"clients\":\"0: reader (me@box, last seen -1s 999ns)\\n\",\"jobs\":\"7/1: 0 [1, 2, 3]; 1 [4]; \\n\",\"results\":\"0: 1 [42, 0]; \\n\"}"
    );

    assert_eq!(server.fetch_job(7, 1).map(|job| job.job_id), Some(queued));
    assert_eq!(server.fetch_job(7, 1).map(|job| job.job_id), Some(done));
    assert_eq!(server.fetch_results(client).len(), 1);
    assert_eq!(server.register_client(information("next")), client + 1);
}

#[test]
fn the_status_names_every_entry_once_in_some_order() {
    let mut server = GridServerImpl::new();
    let alice = server.client_register_at("a".to_string(), "h".to_string(), "u".to_string(), at(1, 0));
    let bob = server.client_register_at("b".to_string(), "h".to_string(), "u".to_string(), at(2, 0));
    let first = server.submit_job(alice, 7, 1, vec![]);
    let second = server.submit_job(bob, 7, 2, vec![9]);
    let third = server.submit_job(bob, 8, 1, vec![]);
    server.add_result(JobResult { job_id: first, result_data: vec![] });
    server.add_result(JobResult { job_id: second, result_data: vec![1] });
    server.add_result(JobResult { job_id: third, result_data: vec![2] });

    let (clients, jobs, results) = status_fields(&server.controller_get_status(77));

    let mut lines: Vec<&str> = clients.lines().collect();
    lines.sort();
    assert_eq!(lines, vec!["0: a (u@h, last seen 1s 0ns)", "1: b (u@h, last seen 2s 0ns)"]);
    let mut lines: Vec<&str> = jobs.lines().collect();
    lines.sort();
    assert_eq!(lines, vec!["7/1: 0 []; ", "7/2: 1 [9]; ", "8/1: 2 []; "]);
    let mut lines: Vec<&str> = results.lines().collect();
    lines.sort();
    assert_eq!(lines, vec!["0: 0 []; ", "1: 1 [1]; 2 [2]; "]);
}

#[test]
fn a_queue_that_ran_empty_is_still_listed() {
    let mut server = GridServerImpl::new();
    let _ = server.submit_job(0, 7, 1, vec![1]);
    let _ = server.fetch_job(7, 1);
    let (_, jobs, _) = status_fields(&server.controller_get_status_at(0, at(0, 0)));
    assert_eq!(jobs, "7/1: \n");
}

#[test]
fn registration_notes_the_time_of_the_call() {
    let mut server = GridServerImpl::new();
    let client = server.client_register("c".to_string(), "h".to_string(), "u".to_string());
    let (clients, _, _) = status_fields(&server.controller_get_status(client));
    let marker = "last seen ";
    let start = clients.find(marker).unwrap() + marker.len();
    let digits: String = clients[start..].chars().take_while(|c| c.is_ascii_digit()).collect();
    let seconds: i64 = digits.parse().unwrap();
    assert!(seconds > 1_600_000_000);
}

#[test]
fn a_call_at_a_given_time_notes_that_time() {
    let mut server = GridServerImpl::new();
    let client = server.client_register_at("c".to_string(), "h".to_string(), "u".to_string(), at(10, 1));
    let other = server.client_register_at("d".to_string(), "h".to_string(), "u".to_string(), at(11, 1));
    let seen = |server: &mut GridServerImpl, whom: u32| {
        let (clients, _, _) = status_fields(&server.controller_get_status_at(other, at(99, 9)));
        let line = clients
            .lines()
            .find(|line| line.starts_with(&format!("{}: ", whom)))
            .unwrap()
            .to_string();
        line[line.find("last seen ").unwrap()..].to_string()
    };
    assert_eq!(seen(&mut server, client), "last seen 10s 1ns)");

    let job_id = server.client_submit_job_at(client, 1, 1, vec![], at(20, 2));
    assert_eq!(seen(&mut server, client), "last seen 20s 2ns)");

    assert_eq!(server.worker_server_exchange_at(client, None, None, at(30, 3)), None);
    assert_eq!(seen(&mut server, client), "last seen 30s 3ns)");

    server.worker_submit_result_at(client, Some(JobResult { job_id, result_data: vec![1] }), at(40, 4));
    assert_eq!(seen(&mut server, client), "last seen 40s 4ns)");

    assert_eq!(server.client_fetch_results_at(client, at(50, 5)).len(), 1);
    assert_eq!(seen(&mut server, client), "last seen 50s 5ns)");
    assert_eq!(seen(&mut server, other), "last seen 99s 9ns)");

    let _ = server.client_fetch_results_at(1000, at(60, 6));
    assert_eq!(seen(&mut server, client), "last seen 50s 5ns)");
}

#[test]
fn the_parts_of_the_status_are_written_as_stated() {
    assert_eq!(write_bytes(&vec![]), "[]");
    assert_eq!(write_bytes(&vec![7]), "[7]");
    assert_eq!(write_bytes(&vec![0, 255, 10]), "[0, 255, 10]");
    assert_eq!(write_timestamp(at(0, 0)), "0s 0ns");
    assert_eq!(write_timestamp(at(i64::MIN, u32::MAX)), "-9223372036854775808s 4294967295ns");
    assert_eq!(
        write_client(3, &"d".to_string(), &"h".to_string(), &"u".to_string(), at(5, 6)),
        "3: d (u@h, last seen 5s 6ns)\n"
    );
    let queue: std::collections::VecDeque<Job> =
        vec![Job { job_data: vec![1], job_id: 4 }, Job { job_data: vec![], job_id: 9 }].into();
    assert_eq!(write_queue(ServiceDescriptor::new(7, 1), &queue), "7/1: 4 [1]; 9 []; \n");
    assert_eq!(
        write_mailbox(2, &vec![JobResult { job_id: 4, result_data: vec![1, 2] }]),
        "2: 4 [1, 2]; \n"
    );
    assert_eq!(write_mailbox(2, &vec![]), "2: \n");
}
