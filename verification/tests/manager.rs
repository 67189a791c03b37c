use grid::manager::layout::{
    server_executable_name, service_library_directory, service_library_name, service_library_path,
    worker_executable_name, Platform,
};
use grid::manager::process::{
    find_process, server_launch, server_status_from_process, status_of_processes, worker_launch,
    worker_status_from_process, ProcessEntry, ServerConfiguration, ServiceLibraryConfiguration,
    WorkerConfiguration,
};
use grid::manager::upload::{
    directory_failure_message, write_failure_message, ServiceLibraryUpload, UploadAction,
    UploadEvent, UploadStage,
};
use grid::manager::GridManagerImpl;

fn strings(parts: &[&str]) -> Vec<String> {
    parts.iter().map(|part| part.to_string()).collect()
}

fn process(name: &str, pid: u64, command_line: &[&str]) -> ProcessEntry {
    ProcessEntry { name: name.to_string(), pid, command_line: strings(command_line) }
}

fn worker_configuration(address: &str, id: u32, version: u32, path: &str) -> WorkerConfiguration {
    WorkerConfiguration {
        server_address: address.to_string(),
        service_library_configuration: Some(ServiceLibraryConfiguration {
            service_id: id,
            service_version: version,
        }),
        service_library_path: path.to_string(),
    }
}

fn library(service_id: u32, service_version: u32) -> ServiceLibraryConfiguration {
    ServiceLibraryConfiguration { service_id, service_version }
}

#[test]
fn programs_and_libraries_are_named_by_platform() {
    assert_eq!(server_executable_name(Platform::Unix), "grid-server");
    assert_eq!(server_executable_name(Platform::Windows), "grid-server.exe");
    assert_eq!(worker_executable_name(Platform::Unix), "grid-worker");
    assert_eq!(worker_executable_name(Platform::Windows), "grid-worker.exe");
    assert_eq!(service_library_name(Platform::Unix), "service_library.so");
    assert_eq!(service_library_name(Platform::Windows), "service_library.dll");
}

#[test]
fn a_library_lies_below_libraries_by_id_and_version() {
    assert_eq!(
        service_library_path(Platform::Unix, 7, 1),
        strings(&["libraries", "7", "1", "service_library.so"])
    );
    assert_eq!(
        service_library_path(Platform::Windows, 0, 42),
        strings(&["libraries", "0", "42", "service_library.dll"])
    );
    assert_eq!(
        service_library_path(Platform::Unix, u32::MAX, 10),
        strings(&["libraries", "4294967295", "10", "service_library.so"])
    );
    assert_eq!(service_library_directory(12, 3), strings(&["libraries", "12", "3"]));
}

#[test]
fn the_library_path_depends_on_id_and_version_alone() {
    assert_eq!(service_library_path(Platform::Unix, 3, 4), service_library_path(Platform::Unix, 3, 4));
    assert_ne!(service_library_path(Platform::Unix, 3, 4), service_library_path(Platform::Unix, 4, 3));
    assert_ne!(service_library_path(Platform::Unix, 1, 11), service_library_path(Platform::Unix, 11, 1));
}

#[test]
fn a_server_is_started_with_its_address() {
    let manager = GridManagerImpl::new(Platform::Unix);
    let configuration = ServerConfiguration { server_address: "127.0.0.1:60000".to_string() };
    let decision = manager.start_server(Some(&configuration));
    assert_eq!(decision.error_message, None);
    let launch = decision.launch.unwrap();
    assert_eq!(launch.executable, "grid-server");
    assert_eq!(launch.arguments, strings(&["127.0.0.1:60000"]));

    let direct = server_launch(Platform::Windows, &configuration);
    assert_eq!(direct.executable, "grid-server.exe");
    assert_eq!(direct.arguments, strings(&["127.0.0.1:60000"]));
}

#[test]
fn a_server_is_not_started_without_a_configuration() {
    let manager = GridManagerImpl::new(Platform::Unix);
    let decision = manager.start_server(None);
    assert_eq!(decision.error_message, Some("No server configuration given".to_string()));
    assert!(decision.launch.is_none());
}

#[test]
fn a_worker_is_started_with_four_arguments_in_order() {
    let manager = GridManagerImpl::new(Platform::Unix);
    let configuration = worker_configuration("127.0.0.1:60000", 7, 1, "/grid/libraries/7/1/service_library.so");
    let decision = manager.start_worker(Some(&configuration));
    assert_eq!(decision.error_message, None);
    let launch = decision.launch.unwrap();
    assert_eq!(launch.executable, "grid-worker");
    assert_eq!(
        launch.arguments,
        strings(&["127.0.0.1:60000", "7", "1", "/grid/libraries/7/1/service_library.so"])
    );
    assert_eq!(manager.platform(), Platform::Unix);
}

#[test]
fn a_worker_is_not_started_without_a_configuration() {
    let manager = GridManagerImpl::new(Platform::Windows);
    let decision = manager.start_worker(None);
    assert_eq!(decision.error_message, Some("No worker configuration given".to_string()));
    assert!(decision.launch.is_none());
}

#[test]
fn a_worker_without_a_service_library_starts_nothing_and_reports_nothing() {
    let manager = GridManagerImpl::new(Platform::Unix);
    let configuration = WorkerConfiguration {
        server_address: "a".to_string(),
        service_library_configuration: None,
        service_library_path: "p".to_string(),
    };
    let decision = manager.start_worker(Some(&configuration));
    assert_eq!(decision.error_message, None);
    assert!(decision.launch.is_none());
    assert!(worker_launch(Platform::Unix, &configuration).is_none());
}

#[test]
fn the_status_lists_a_started_worker_with_its_configuration() {
    let manager = GridManagerImpl::new(Platform::Unix);
    let configuration = worker_configuration("10.0.0.1:7000", 4_000_000_000, 12, "/opt/grid/lib.so");
    let launch = manager.start_worker(Some(&configuration)).launch.unwrap();

    let mut command_line = vec![format!("/opt/grid/{}", launch.executable)];
    command_line.extend(launch.arguments.iter().cloned());
    let processes = vec![
        process("init", 1, &["/sbin/init"]),
        ProcessEntry { name: launch.executable.clone(), pid: 777, command_line },
    ];

    let status = manager.get_status(&processes);
    assert!(status.server_status.is_empty());
    assert_eq!(status.worker_status.len(), 1);
    let worker = &status.worker_status[0];
    assert_eq!(worker.worker_pid, 777);
    let listed = worker.worker_configuration.as_ref().unwrap();
    assert_eq!(listed.server_address, "10.0.0.1:7000");
    assert_eq!(listed.service_library_configuration, Some(library(4_000_000_000, 12)));
    assert_eq!(listed.service_library_path, "/opt/grid/lib.so");

    let after_stop = vec![process("init", 1, &["/sbin/init"])];
    let status = manager.get_status(&after_stop);
    assert!(status.worker_status.is_empty());
    assert!(status.server_status.is_empty());
}

#[test]
fn the_status_lists_servers_and_workers_by_exact_name_in_table_order() {
    let processes = vec![
        process("grid-worker", 30, &["grid-worker", "a:1", "1", "2", "lib1"]),
        process("grid-server", 10, &["grid-server", "0.0.0.0:1"]),
        process("grid-server-status", 11, &["grid-server-status", "x"]),
        process("my-grid-server", 12, &["my-grid-server", "x"]),
        process("grid-worker.exe", 31, &["grid-worker.exe", "x", "1", "1", "l"]),
        process("grid-server", 13, &["/usr/bin/grid-server", "0.0.0.0:2"]),
        process("grid-worker", 32, &["grid-worker", "a:2", "3", "4", "lib2"]),
        process("Grid-Server", 14, &["Grid-Server", "x"]),
    ];
    let status = status_of_processes(&processes, Platform::Unix);
    let servers: Vec<(u64, String)> = status
        .server_status
        .iter()
        .map(|server| (server.server_pid, server.server_configuration.as_ref().unwrap().server_address.clone()))
        .collect();
    assert_eq!(servers, vec![(10, "0.0.0.0:1".to_string()), (13, "0.0.0.0:2".to_string())]);
    let workers: Vec<u64> = status.worker_status.iter().map(|worker| worker.worker_pid).collect();
    assert_eq!(workers, vec![30, 32]);

    let windows = status_of_processes(&processes, Platform::Windows);
    assert!(windows.server_status.is_empty());
    assert_eq!(windows.worker_status.len(), 1);
    assert_eq!(windows.worker_status[0].worker_pid, 31);
}

#[test]
fn a_process_with_unreadable_arguments_is_listed_with_placeholders() {
    let bare = worker_status_from_process(&process("grid-worker", 5, &["grid-worker"]));
    assert_eq!(bare.worker_pid, 5);
    let configuration = bare.worker_configuration.unwrap();
    assert_eq!(configuration.server_address, "n/a");
    assert_eq!(configuration.service_library_configuration, Some(library(0, 0)));
    assert_eq!(configuration.service_library_path, "n/a");

    let odd = worker_status_from_process(&process(
        "grid-worker",
        6,
        &["grid-worker", "addr", "seven", "-1", "lib", "extra"],
    ));
    let configuration = odd.worker_configuration.unwrap();
    assert_eq!(configuration.server_address, "addr");
    assert_eq!(configuration.service_library_configuration, Some(library(0, 0)));
    assert_eq!(configuration.service_library_path, "lib");

    let partly = worker_status_from_process(&process("grid-worker", 7, &["grid-worker", "addr", "9"]));
    let configuration = partly.worker_configuration.unwrap();
    assert_eq!(configuration.service_library_configuration, Some(library(9, 0)));
    assert_eq!(configuration.service_library_path, "n/a");

    let empty = worker_status_from_process(&process("grid-worker", 8, &[]));
    assert_eq!(empty.worker_configuration.unwrap().server_address, "n/a");

    let server = server_status_from_process(&process("grid-server", 9, &["grid-server"]));
    assert_eq!(server.server_pid, 9);
    assert_eq!(server.server_configuration.unwrap().server_address, "n/a");
}

#[test]
fn a_process_is_stopped_by_its_id() {
    let manager = GridManagerImpl::new(Platform::Unix);
    let processes = vec![
        process("grid-server", 10, &["grid-server", "a"]),
        process("grid-worker", 20, &["grid-worker", "a", "1", "1", "l"]),
    ];
    let decision = manager.stop_server(10, &processes);
    assert_eq!(decision.error_message, None);
    assert_eq!(decision.kill, Some(10));
    let decision = manager.stop_worker(20, &processes);
    assert_eq!(decision.error_message, None);
    assert_eq!(decision.kill, Some(20));
    assert!(find_process(&processes, 20));
    assert!(!find_process(&processes, 21));
    assert!(!find_process(&Vec::new(), 0));
}

#[test]
fn stopping_a_process_that_does_not_exist_is_reported() {
    let manager = GridManagerImpl::new(Platform::Unix);
    let processes = vec![process("grid-server", 10, &["grid-server", "a"])];
    let decision = manager.stop_server(11, &processes);
    assert_eq!(
        decision.error_message,
        Some("No server process with the given process ID".to_string())
    );
    assert_eq!(decision.kill, None);
    let decision = manager.stop_worker(u64::MAX, &processes);
    assert_eq!(
        decision.error_message,
        Some("No worker process with the given process ID".to_string())
    );
    assert_eq!(decision.kill, None);
}

fn next(upload: &mut ServiceLibraryUpload, event: UploadEvent) -> UploadAction {
    upload.advance(event)
}

#[test]
fn an_upload_without_a_configuration_is_refused() {
    let manager = GridManagerImpl::new(Platform::Unix);
    let (upload, action) = manager.accept_service_library(None);
    assert!(upload.is_finished());
    match action {
        UploadAction::Respond { error_message } => {
            assert_eq!(error_message, Some("No service library configuration given".to_string()))
        }
        other => panic!("{:?}", other),
    }
}

#[test]
fn an_upload_into_an_existing_directory_writes_the_file() {
    let manager = GridManagerImpl::new(Platform::Unix);
    let (mut upload, action) = manager.accept_service_library(Some(library(7, 1)));
    assert_eq!(upload.stage, UploadStage::CheckingDirectory);
    assert!(!upload.is_finished());
    match action {
        UploadAction::CheckDirectory { directory } => {
            assert_eq!(directory, strings(&["libraries", "7", "1"]))
        }
        other => panic!("{:?}", other),
    }
    match next(&mut upload, UploadEvent::DirectoryFound) {
        UploadAction::WriteFile { path } => {
            assert_eq!(path, strings(&["libraries", "7", "1", "service_library.so"]))
        }
        other => panic!("{:?}", other),
    }
    assert_eq!(upload.stage, UploadStage::WritingFile);
    match next(&mut upload, UploadEvent::FileWritten) {
        UploadAction::Respond { error_message } => assert_eq!(error_message, None),
        other => panic!("{:?}", other),
    }
    assert!(upload.is_finished());
}

#[test]
fn an_upload_creates_a_missing_directory_first() {
    let (mut upload, _) = ServiceLibraryUpload::begin(Platform::Windows, library(0, 42));
    match next(&mut upload, UploadEvent::DirectoryMissing) {
        UploadAction::CreateDirectory { directory } => {
            assert_eq!(directory, strings(&["libraries", "0", "42"]))
        }
        other => panic!("{:?}", other),
    }
    assert_eq!(upload.stage, UploadStage::CreatingDirectory);
    match next(&mut upload, UploadEvent::DirectoryCreated) {
        UploadAction::WriteFile { path } => {
            assert_eq!(path, strings(&["libraries", "0", "42", "service_library.dll"]))
        }
        other => panic!("{:?}", other),
    }
    match next(&mut upload, UploadEvent::FileWritten) {
        UploadAction::Respond { error_message } => assert_eq!(error_message, None),
        other => panic!("{:?}", other),
    }
}

#[test]
fn a_directory_that_cannot_be_created_is_reported() {
    let (mut upload, _) = ServiceLibraryUpload::begin(Platform::Unix, library(1, 2));
    let _ = next(&mut upload, UploadEvent::DirectoryMissing);
    let action = next(
        &mut upload,
        UploadEvent::DirectoryNotCreated {
            directory: "/grid/libraries/1/2".to_string(),
            error: "Permission denied (os error 13)".to_string(),
        },
    );
    match action {
        UploadAction::Respond { error_message } => assert_eq!(
            error_message,
            Some(
                "Could not create the service library directory \"/grid/libraries/1/2\": Permission denied (os error 13)"
                    .to_string()
            )
        ),
        other => panic!("{:?}", other),
    }
    assert!(upload.is_finished());
}

#[test]
fn a_file_that_cannot_be_written_is_reported() {
    let (mut upload, _) = ServiceLibraryUpload::begin(Platform::Unix, library(1, 2));
    let _ = next(&mut upload, UploadEvent::DirectoryFound);
    let action = next(
        &mut upload,
        UploadEvent::FileNotWritten {
            directory: "/grid/libraries/1/2".to_string(),
            error: "No space left on device (os error 28)".to_string(),
        },
    );
    match action {
        UploadAction::Respond { error_message } => assert_eq!(
            error_message,
            Some(
                "Could not write the service library \"/grid/libraries/1/2\": No space left on device (os error 28)"
                    .to_string()
            )
        ),
        other => panic!("{:?}", other),
    }
    assert!(upload.is_finished());
}

#[test]
fn the_failure_messages_quote_the_directory() {
    assert_eq!(
        directory_failure_message(&"d".to_string(), &"e".to_string()),
        "Could not create the service library directory \"d\": e"
    );
    assert_eq!(
        write_failure_message(&"".to_string(), &"".to_string()),
        "Could not write the service library \"\": "
    );
}

#[test]
fn an_outcome_out_of_turn_ends_the_upload_with_a_message() {
    let (mut upload, _) = ServiceLibraryUpload::begin(Platform::Unix, library(1, 2));
    match next(&mut upload, UploadEvent::FileWritten) {
        UploadAction::Respond { error_message } => {
            assert_eq!(error_message, Some("`accept_service_library()`: Unhandled".to_string()))
        }
        other => panic!("{:?}", other),
    }
    assert!(upload.is_finished());
    match next(&mut upload, UploadEvent::DirectoryFound) {
        UploadAction::Respond { error_message } => {
            assert_eq!(error_message, Some("`accept_service_library()`: Unhandled".to_string()))
        }
        other => panic!("{:?}", other),
    }
    assert!(upload.is_finished());
}
