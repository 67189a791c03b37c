use grid::broker::server::GridServerImpl;
use grid::descriptor::ServiceDescriptor;
use grid::job::{Job, JobResult};
use grid::worker::{
    worker_client_description, Worker, WorkerAction, WorkerEvent, WorkerState,
    BACKOFF_MILLISECONDS,
};

fn registered(client_id: u32) -> Worker {
    let (mut worker, _) = Worker::new(7, 1, "lib.so");
    let _ = worker.advance(WorkerEvent::Registered { client_id }, false);
    worker
}

#[test]
fn a_worker_describes_itself_by_service_version_and_library() {
    assert_eq!(worker_client_description(7, 1, "/grid/lib.so"), "worker 7 1 /grid/lib.so");
    assert_eq!(worker_client_description(0, 4294967295, ""), "worker 0 4294967295 ");
}

#[test]
fn a_worker_registers_first() {
    let (worker, action) = Worker::new(7, 1, "lib.so");
    assert_eq!(worker.state, WorkerState::Registering);
    assert_eq!(worker.descriptor, ServiceDescriptor { service_id: 7, service_version: 1 });
    assert!(!worker.is_stopped());
    match action {
        WorkerAction::Register { client_description } => {
            assert_eq!(client_description, "worker 7 1 lib.so")
        }
        other => panic!("{:?}", other),
    }
}

#[test]
fn a_registered_worker_asks_for_a_job_of_its_service() {
    let (mut worker, _) = Worker::new(7, 1, "lib.so");
    match worker.advance(WorkerEvent::Registered { client_id: 3 }, false) {
        WorkerAction::Exchange { client_id, result_from_worker, query_job_from_server } => {
            assert_eq!(client_id, 3);
            assert_eq!(result_from_worker, None);
            assert_eq!(query_job_from_server, ServiceDescriptor { service_id: 7, service_version: 1 });
        }
        other => panic!("{:?}", other),
    }
    assert_eq!(worker.state, WorkerState::Polling { client_id: 3 });
}

#[test]
fn a_job_is_executed_and_its_result_goes_out_with_the_next_exchange() {
    let mut worker = registered(3);
    let job = Job { job_data: b"abc".to_vec(), job_id: 12 };
    match worker.advance(WorkerEvent::Exchanged { job: Some(job) }, false) {
        WorkerAction::Execute { job } => assert_eq!(job, Job { job_data: b"abc".to_vec(), job_id: 12 }),
        other => panic!("{:?}", other),
    }
    assert_eq!(worker.state, WorkerState::Executing { client_id: 3, job_id: 12 });
    match worker.advance(WorkerEvent::Executed { result_data: Some(b"xyz".to_vec()) }, false) {
        WorkerAction::Exchange { client_id, result_from_worker, query_job_from_server } => {
            assert_eq!(client_id, 3);
            assert_eq!(result_from_worker, Some(JobResult { job_id: 12, result_data: b"xyz".to_vec() }));
            assert_eq!(query_job_from_server, ServiceDescriptor::new(7, 1));
        }
        other => panic!("{:?}", other),
    }
    assert_eq!(worker.state, WorkerState::Polling { client_id: 3 });
}

#[test]
fn a_failed_execution_leaves_no_result() {
    let mut worker = registered(3);
    let _ = worker.advance(WorkerEvent::Exchanged { job: Some(Job { job_data: vec![], job_id: 1 }) }, false);
    match worker.advance(WorkerEvent::Executed { result_data: None }, false) {
        WorkerAction::Exchange { result_from_worker, .. } => assert_eq!(result_from_worker, None),
        other => panic!("{:?}", other),
    }
}

#[test]
fn without_a_job_the_worker_rests_for_a_second_and_asks_again() {
    let mut worker = registered(3);
    assert_eq!(BACKOFF_MILLISECONDS, 1000);
    match worker.advance(WorkerEvent::Exchanged { job: None }, false) {
        WorkerAction::Rest { milliseconds } => assert_eq!(milliseconds, 1000),
        other => panic!("{:?}", other),
    }
    assert_eq!(worker.state, WorkerState::Resting { client_id: 3 });
    match worker.advance(WorkerEvent::Rested, false) {
        WorkerAction::Exchange { client_id, result_from_worker, .. } => {
            assert_eq!(client_id, 3);
            assert_eq!(result_from_worker, None);
        }
        other => panic!("{:?}", other),
    }
}

#[test]
fn a_stop_request_ends_the_worker_at_the_top_of_a_round() {
    let (mut worker, _) = Worker::new(7, 1, "lib.so");
    assert!(matches!(worker.advance(WorkerEvent::Registered { client_id: 3 }, true), WorkerAction::Stop));
    assert!(worker.is_stopped());

    let mut worker = registered(3);
    let _ = worker.advance(WorkerEvent::Exchanged { job: None }, true);
    assert_eq!(worker.state, WorkerState::Resting { client_id: 3 });
    assert!(matches!(worker.advance(WorkerEvent::Rested, true), WorkerAction::Stop));
    assert_eq!(worker.state, WorkerState::Stopped);
}

#[test]
fn a_stop_request_does_not_interrupt_a_round() {
    let mut worker = registered(3);
    let job = Job { job_data: vec![1], job_id: 5 };
    assert!(matches!(
        worker.advance(WorkerEvent::Exchanged { job: Some(job) }, true),
        WorkerAction::Execute { .. }
    ));
    assert_eq!(worker.state, WorkerState::Executing { client_id: 3, job_id: 5 });
    assert!(matches!(
        worker.advance(WorkerEvent::Executed { result_data: Some(vec![2]) }, true),
        WorkerAction::Stop
    ));
    assert!(worker.is_stopped());
}

#[test]
fn a_worker_that_loses_the_broker_ends() {
    let mut worker = registered(3);
    assert!(matches!(worker.advance(WorkerEvent::Disconnected, false), WorkerAction::Stop));
    assert!(worker.is_stopped());
    let (mut worker, _) = Worker::new(7, 1, "lib.so");
    assert!(matches!(worker.advance(WorkerEvent::Disconnected, false), WorkerAction::Stop));
}

#[test]
fn an_event_out_of_turn_ends_the_worker() {
    let mut worker = registered(3);
    assert!(matches!(
        worker.advance(WorkerEvent::Executed { result_data: Some(vec![]) }, false),
        WorkerAction::Stop
    ));
    assert!(worker.is_stopped());
    assert!(matches!(worker.advance(WorkerEvent::Rested, false), WorkerAction::Stop));
    assert!(worker.is_stopped());

    let mut busy = registered(3);
    let _ = busy.advance(WorkerEvent::Exchanged { job: Some(Job { job_data: vec![], job_id: 1 }) }, false);
    assert!(matches!(
        busy.advance(WorkerEvent::Exchanged { job: Some(Job { job_data: vec![], job_id: 2 }) }, false),
        WorkerAction::Stop
    ));
}

#[test]
fn a_worker_and_a_broker_complete_a_job_together() {
    let mut server = GridServerImpl::new();
    let client = server.client_register("client".to_string(), "h".to_string(), "u".to_string());
    let job_id = server.client_submit_job(client, 7, 1, vec![1, 2, 3]);

    let (mut worker, mut action) = Worker::new(7, 1, "lib.so");
    let mut rounds = 0;
    let mut rested = false;
    while !rested {
        rounds += 1;
        assert!(rounds < 20);
        let event = match action {
            WorkerAction::Register { client_description } => WorkerEvent::Registered {
                client_id: server.client_register(client_description, "h".to_string(), "u".to_string()),
            },
            WorkerAction::Exchange { client_id, result_from_worker, query_job_from_server } => {
                WorkerEvent::Exchanged {
                    job: server.worker_server_exchange(
                        client_id,
                        result_from_worker,
                        Some(query_job_from_server),
                    ),
                }
            }
            WorkerAction::Execute { job } => {
                let reversed: Vec<u8> = job.job_data.iter().rev().cloned().collect();
                WorkerEvent::Executed { result_data: Some(reversed) }
            }
            WorkerAction::Rest { .. } => {
                rested = true;
                WorkerEvent::Rested
            }
            WorkerAction::Stop => panic!("the worker stopped"),
        };
        action = worker.advance(event, false);
    }
    assert_eq!(
        server.client_fetch_results(client),
        vec![JobResult { job_id, result_data: vec![3, 2, 1] }]
    );
}
