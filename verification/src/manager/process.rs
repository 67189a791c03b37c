//! What the supervisor reads from the process table, and the configuration it
//! reads back from each process's launch arguments.
//!
//! The arguments are positional. A broker is started with its address alone;
//! a worker with the broker's address, the service's id, the service's
//! version and the path of the service library, in this order. The first
//! entry of a command line is the program itself.

use crate::descriptor::{ServiceId, ServiceVersion};
use crate::manager::layout::{
    server_executable,
    server_executable_name,
    worker_executable,
    worker_executable_name,
    Platform,
};
use crate::text::{
    decimal_digits,
    decimal_text,
    decimal_value_or_zero,
    parse_decimal_or_zero,
    texts,
};
use vstd::prelude::*;
use vstd::string::*;

verus! {

/// How a broker process is set up.
#[derive(Debug)]
pub struct ServerConfiguration {
    /// The socket address the broker listens on.
    pub server_address: String,
}

/// Which service library a worker runs or an upload holds.
#[derive(Clone, Copy, Debug, PartialEq, Eq, Structural)]
pub struct ServiceLibraryConfiguration {
    pub service_id: ServiceId,
    pub service_version: ServiceVersion,
}

/// How a worker process is set up.
#[derive(Debug)]
pub struct WorkerConfiguration {
    /// The socket address of the broker the worker polls.
    pub server_address: String,
    /// The service the worker executes.
    pub service_library_configuration: Option<ServiceLibraryConfiguration>,
    /// Where the worker finds the service library. The supervisor hands the
    /// path on as it is and does not look whether anything is there.
    pub service_library_path: String,
}

/// A running broker process.
#[derive(Debug)]
pub struct ServerStatus {
    pub server_pid: u64,
    pub server_configuration: Option<ServerConfiguration>,
}

/// A running worker process.
#[derive(Debug)]
pub struct WorkerStatus {
    pub worker_pid: u64,
    pub worker_configuration: Option<WorkerConfiguration>,
}

/// The brokers and workers that run.
#[derive(Debug)]
pub struct ResponseGetStatus {
    pub server_status: Vec<ServerStatus>,
    pub worker_status: Vec<WorkerStatus>,
}

/// One entry of the operating system's process table.
#[derive(Debug)]
pub struct ProcessEntry {
    /// The name of the program.
    pub name: String,
    pub pid: u64,
    /// The program followed by the arguments it was started with.
    pub command_line: Vec<String>,
}

/// A program to start, with its arguments.
#[derive(Debug)]
pub struct LaunchCommand {
    /// The file name of the program, next to the supervisor's own program.
    pub executable: String,
    pub arguments: Vec<String>,
}

pub struct WorkerConfigurationView {
    pub server_address: Seq<char>,
    pub service_library_configuration: Option<ServiceLibraryConfiguration>,
    pub service_library_path: Seq<char>,
}

pub struct ServerStatusView {
    pub server_pid: u64,
    pub server_address: Option<Seq<char>>,
}

pub struct WorkerStatusView {
    pub worker_pid: u64,
    pub worker_configuration: Option<WorkerConfigurationView>,
}

pub struct ResponseGetStatusView {
    pub server_status: Seq<ServerStatusView>,
    pub worker_status: Seq<WorkerStatusView>,
}

pub struct ProcessView {
    pub name: Seq<char>,
    pub pid: u64,
    pub command_line: Seq<Seq<char>>,
}

pub struct LaunchCommandView {
    pub executable: Seq<char>,
    pub arguments: Seq<Seq<char>>,
}

impl View for ServerConfiguration {
    type V = Seq<char>;

    open spec fn view(&self) -> Seq<char> {
        self.server_address@
    }
}

impl View for WorkerConfiguration {
    type V = WorkerConfigurationView;

    open spec fn view(&self) -> WorkerConfigurationView {
        WorkerConfigurationView {
            server_address: self.server_address@,
            service_library_configuration: self.service_library_configuration,
            service_library_path: self.service_library_path@,
        }
    }
}

impl View for ServerStatus {
    type V = ServerStatusView;

    open spec fn view(&self) -> ServerStatusView {
        ServerStatusView {
            server_pid: self.server_pid,
            server_address: match self.server_configuration {
                Some(configuration) => Some(configuration@),
                None => None,
            },
        }
    }
}

impl View for WorkerStatus {
    type V = WorkerStatusView;

    open spec fn view(&self) -> WorkerStatusView {
        WorkerStatusView {
            worker_pid: self.worker_pid,
            worker_configuration: match self.worker_configuration {
                Some(configuration) => Some(configuration@),
                None => None,
            },
        }
    }
}

impl View for ResponseGetStatus {
    type V = ResponseGetStatusView;

    open spec fn view(&self) -> ResponseGetStatusView {
        ResponseGetStatusView {
            server_status: self.server_status@.map_values(|status: ServerStatus| status@),
            worker_status: self.worker_status@.map_values(|status: WorkerStatus| status@),
        }
    }
}

impl View for ProcessEntry {
    type V = ProcessView;

    open spec fn view(&self) -> ProcessView {
        ProcessView {
            name: self.name@,
            pid: self.pid,
            command_line: texts(self.command_line@),
        }
    }
}

impl View for LaunchCommand {
    type V = LaunchCommandView;

    open spec fn view(&self) -> LaunchCommandView {
        LaunchCommandView { executable: self.executable@, arguments: texts(self.arguments@) }
    }
}

/// The processes that a list of table entries stands for.
pub open spec fn process_views(processes: Seq<ProcessEntry>) -> Seq<ProcessView> {
    processes.map_values(|process: ProcessEntry| process@)
}

/// The entry of a command line at `position`, or `placeholder` where the
/// command line is too short.
pub open spec fn argument_or(
    command_line: Seq<Seq<char>>,
    position: int,
    placeholder: Seq<char>,
) -> Seq<char> {
    if 0 <= position < command_line.len() {
        command_line[position]
    } else {
        placeholder
    }
}

/// The broker that a process named like the broker's program is taken for.
/// Where the address is missing from the command line, a placeholder stands
/// for it: the process is listed all the same.
pub open spec fn server_status_of(process: ProcessView) -> ServerStatusView {
    ServerStatusView {
        server_pid: process.pid,
        server_address: Some(argument_or(process.command_line, 1, "n/a"@)),
    }
}

/// The worker that a process named like the worker's program is taken for.
/// An argument that is missing, or a number that cannot be read, is replaced
/// by a placeholder: the process is listed all the same.
pub open spec fn worker_status_of(process: ProcessView) -> WorkerStatusView {
    WorkerStatusView {
        worker_pid: process.pid,
        worker_configuration: Some(
            WorkerConfigurationView {
                server_address: argument_or(process.command_line, 1, "n/a"@),
                service_library_configuration: Some(
                    ServiceLibraryConfiguration {
                        service_id: decimal_value_or_zero(
                            argument_or(process.command_line, 2, "0"@),
                        ),
                        service_version: decimal_value_or_zero(
                            argument_or(process.command_line, 3, "0"@),
                        ),
                    },
                ),
                service_library_path: argument_or(process.command_line, 4, "n/a"@),
            },
        ),
    }
}

/// The brokers among `processes`: those whose name is exactly the name of
/// the broker's program, in the order of the table.
pub open spec fn server_statuses(processes: Seq<ProcessView>, platform: Platform) -> Seq<
    ServerStatusView,
> {
    processes.filter(|process: ProcessView| process.name == server_executable(platform)).map_values(
        |process: ProcessView| server_status_of(process),
    )
}

/// The workers among `processes`: those whose name is exactly the name of
/// the worker's program, in the order of the table.
pub open spec fn worker_statuses(processes: Seq<ProcessView>, platform: Platform) -> Seq<
    WorkerStatusView,
> {
    processes.filter(|process: ProcessView| process.name == worker_executable(platform)).map_values(
        |process: ProcessView| worker_status_of(process),
    )
}

/// The arguments a broker is started with.
pub open spec fn server_arguments(server_address: Seq<char>) -> Seq<Seq<char>> {
    seq![server_address]
}

/// The arguments a worker is started with.
pub open spec fn worker_arguments(
    server_address: Seq<char>,
    library: ServiceLibraryConfiguration,
    service_library_path: Seq<char>,
) -> Seq<Seq<char>> {
    seq![
        server_address,
        decimal_digits(library.service_id as nat),
        decimal_digits(library.service_version as nat),
        service_library_path,
    ]
}

/// Whether some entry of the table has the process id `pid`.
pub open spec fn has_process(processes: Seq<ProcessView>, pid: u64) -> bool {
    exists|i: int| 0 <= i < processes.len() && (#[trigger] processes[i]).pid == pid
}

/// Copies the entry of `command_line` at `position`, or `placeholder` where
/// the command line is too short.
fn argument_or_placeholder(command_line: &Vec<String>, position: usize, placeholder: &str) -> (text:
    String)
    ensures
        text@ == argument_or(texts(command_line@), position as int, placeholder@),
{
    if position < command_line.len() {
        command_line[position].clone()
    } else {
        String::from_str(placeholder)
    }
}

/// Reads a broker's configuration back from its process.
pub fn server_status_from_process(process: &ProcessEntry) -> (status: ServerStatus)
    ensures
        status@ == server_status_of(process@),
{
    let server_address = argument_or_placeholder(&process.command_line, 1, "n/a");
    ServerStatus {
        server_pid: process.pid,
        server_configuration: Some(ServerConfiguration { server_address }),
    }
}

/// Reads a worker's configuration back from its process.
pub fn worker_status_from_process(process: &ProcessEntry) -> (status: WorkerStatus)
    ensures
        status@ == worker_status_of(process@),
{
    let server_address = argument_or_placeholder(&process.command_line, 1, "n/a");
    let service_id_text = argument_or_placeholder(&process.command_line, 2, "0");
    let service_version_text = argument_or_placeholder(&process.command_line, 3, "0");
    let service_library_path = argument_or_placeholder(&process.command_line, 4, "n/a");
    let service_id = parse_decimal_or_zero(service_id_text.as_str());
    let service_version = parse_decimal_or_zero(service_version_text.as_str());
    WorkerStatus {
        worker_pid: process.pid,
        worker_configuration: Some(
            WorkerConfiguration {
                server_address,
                service_library_configuration: Some(
                    ServiceLibraryConfiguration { service_id, service_version },
                ),
                service_library_path,
            },
        ),
    }
}

/// Lists the brokers and the workers among the entries of the process table.
/// A process counts by the exact name of its program and by nothing else, and
/// every such process is listed, whatever its arguments are.
pub fn status_of_processes(processes: &Vec<ProcessEntry>, platform: Platform) -> (status:
    ResponseGetStatus)
    ensures
        status@.server_status == server_statuses(process_views(processes@), platform),
        status@.worker_status == worker_statuses(process_views(processes@), platform),
{
    let server_name = String::from_str(server_executable_name(platform));
    let worker_name = String::from_str(worker_executable_name(platform));
    let mut server_status: Vec<ServerStatus> = Vec::new();
    let mut worker_status: Vec<WorkerStatus> = Vec::new();
    let ghost all = process_views(processes@);
    let ghost is_server = |process: ProcessView| process.name == server_executable(platform);
    let ghost is_worker = |process: ProcessView| process.name == worker_executable(platform);
    let ghost to_server = |process: ProcessView| server_status_of(process);
    let ghost to_worker = |process: ProcessView| worker_status_of(process);
    proof {
        reveal(Seq::filter);
        assert(all.take(0) =~= Seq::<ProcessView>::empty());
    }
    let mut position: usize = 0;
    while position < processes.len()
        invariant
            position <= processes.len(),
            all == process_views(processes@),
            server_name@ == server_executable(platform),
            worker_name@ == worker_executable(platform),
            is_server == |process: ProcessView| process.name == server_executable(platform),
            is_worker == |process: ProcessView| process.name == worker_executable(platform),
            to_server == |process: ProcessView| server_status_of(process),
            to_worker == |process: ProcessView| worker_status_of(process),
            server_status@.map_values(|status: ServerStatus| status@) == all.take(
                position as int,
            ).filter(is_server).map_values(to_server),
            worker_status@.map_values(|status: WorkerStatus| status@) == all.take(
                position as int,
            ).filter(is_worker).map_values(to_worker),
        decreases processes.len() - position,
    {
        let process = &processes[position];
        let ghost before = all.take(position as int);
        let ghost after = all.take(position + 1);
        let ghost servers = server_status@.map_values(|status: ServerStatus| status@);
        let ghost workers = worker_status@.map_values(|status: WorkerStatus| status@);
        proof {
            reveal(Seq::filter);
            assert(after.drop_last() =~= before);
            assert(after.last() == process@);
        }
        if process.name == server_name {
            let status = server_status_from_process(process);
            server_status.push(status);
            assert(server_status@.map_values(|status: ServerStatus| status@) =~= servers.push(
                status@,
            ));
            assert(after.filter(is_server).map_values(to_server) =~= before.filter(
                is_server,
            ).map_values(to_server).push(to_server(process@)));
        }
        if process.name == worker_name {
            let status = worker_status_from_process(process);
            worker_status.push(status);
            assert(worker_status@.map_values(|status: WorkerStatus| status@) =~= workers.push(
                status@,
            ));
            assert(after.filter(is_worker).map_values(to_worker) =~= before.filter(
                is_worker,
            ).map_values(to_worker).push(to_worker(process@)));
        }
        position = position + 1;
    }
    assert(all.take(position as int) =~= all);
    ResponseGetStatus { server_status, worker_status }
}

/// Whether the process table holds a process with the id `pid`.
pub fn find_process(processes: &Vec<ProcessEntry>, pid: u64) -> (found: bool)
    ensures
        found == has_process(process_views(processes@), pid),
{
    let mut position: usize = 0;
    while position < processes.len()
        invariant
            position <= processes.len(),
            forall|i: int| 0 <= i < position ==> (#[trigger] processes[i]).pid != pid,
        decreases processes.len() - position,
    {
        if processes[position].pid == pid {
            assert(process_views(processes@)[position as int].pid == pid);
            return true;
        }
        position = position + 1;
    }
    assert forall|i: int| 0 <= i < process_views(processes@).len() implies (
    #[trigger] process_views(processes@)[i]).pid != pid by {
        assert(processes[i].pid != pid);
    }
    false
}

/// The command that starts a broker which listens on `server_address`.
pub fn server_launch(platform: Platform, configuration: &ServerConfiguration) -> (command:
    LaunchCommand)
    ensures
        command@.executable == server_executable(platform),
        command@.arguments == server_arguments(configuration.server_address@),
{
    let mut arguments: Vec<String> = Vec::new();
    arguments.push(configuration.server_address.clone());
    assert(texts(arguments@) =~= server_arguments(configuration.server_address@));
    LaunchCommand { executable: String::from_str(server_executable_name(platform)), arguments }
}

/// The command that starts the worker of `configuration`, if the
/// configuration names a service library.
pub fn worker_launch(platform: Platform, configuration: &WorkerConfiguration) -> (command: Option<
    LaunchCommand,
>)
    ensures
        match configuration.service_library_configuration {
            Some(library) => command matches Some(launch) && launch@.executable
                == worker_executable(platform) && launch@.arguments == worker_arguments(
                configuration.server_address@,
                library,
                configuration.service_library_path@,
            ),
            None => command is None,
        },
{
    match configuration.service_library_configuration {
        Some(library) => {
            let mut arguments: Vec<String> = Vec::new();
            arguments.push(configuration.server_address.clone());
            arguments.push(decimal_text(library.service_id));
            arguments.push(decimal_text(library.service_version));
            arguments.push(configuration.service_library_path.clone());
            assert(texts(arguments@) =~= worker_arguments(
                configuration.server_address@,
                library,
                configuration.service_library_path@,
            ));
            Some(
                LaunchCommand {
                    executable: String::from_str(worker_executable_name(platform)),
                    arguments,
                },
            )
        },
        None => None,
    }
}

/// A broker's launch arguments are read back as the address it was started
/// with, whatever the program's path is.
pub proof fn lemma_server_arguments_read_back(
    name: Seq<char>,
    pid: u64,
    program: Seq<char>,
    server_address: Seq<char>,
)
    ensures
        server_status_of(
            ProcessView {
                name,
                pid,
                command_line: seq![program] + server_arguments(server_address),
            },
        ) == (ServerStatusView { server_pid: pid, server_address: Some(server_address) }),
{
}

/// A worker's launch arguments are read back as the configuration it was
/// started with, whatever the program's path is.
pub proof fn lemma_worker_arguments_read_back(
    name: Seq<char>,
    pid: u64,
    program: Seq<char>,
    server_address: Seq<char>,
    library: ServiceLibraryConfiguration,
    service_library_path: Seq<char>,
)
    ensures
        worker_status_of(
            ProcessView {
                name,
                pid,
                command_line: seq![program] + worker_arguments(
                    server_address,
                    library,
                    service_library_path,
                ),
            },
        ) == (WorkerStatusView {
            worker_pid: pid,
            worker_configuration: Some(
                WorkerConfigurationView {
                    server_address,
                    service_library_configuration: Some(library),
                    service_library_path,
                },
            ),
        }),
{
    crate::text::lemma_decimal_round_trip(library.service_id);
    crate::text::lemma_decimal_round_trip(library.service_version);
}

/// Every process of the table that is named like the broker's program is
/// listed as a broker.
pub proof fn lemma_running_server_is_listed(processes: Seq<ProcessView>, platform: Platform, i: int)
    requires
        0 <= i < processes.len(),
        processes[i].name == server_executable(platform),
    ensures
        server_statuses(processes, platform).contains(server_status_of(processes[i])),
{
    let named = |process: ProcessView| process.name == server_executable(platform);
    let kept = processes.filter(named);
    processes.lemma_filter_contains(named, i);
    let k = choose|k: int| 0 <= k < kept.len() && kept[k] == processes[i];
    assert(server_statuses(processes, platform)[k] == server_status_of(processes[i]));
}

/// Every process of the table that is named like the worker's program is
/// listed as a worker.
pub proof fn lemma_running_worker_is_listed(processes: Seq<ProcessView>, platform: Platform, i: int)
    requires
        0 <= i < processes.len(),
        processes[i].name == worker_executable(platform),
    ensures
        worker_statuses(processes, platform).contains(worker_status_of(processes[i])),
{
    let named = |process: ProcessView| process.name == worker_executable(platform);
    let kept = processes.filter(named);
    processes.lemma_filter_contains(named, i);
    let k = choose|k: int| 0 <= k < kept.len() && kept[k] == processes[i];
    assert(worker_statuses(processes, platform)[k] == worker_status_of(processes[i]));
}

/// A process id that is not in the table is listed neither as a broker nor
/// as a worker: the status holds nothing of a process that is gone.
pub proof fn lemma_absent_process_is_not_listed(
    processes: Seq<ProcessView>,
    platform: Platform,
    pid: u64,
)
    requires
        !has_process(processes, pid),
    ensures
        forall|j: int|
            0 <= j < server_statuses(processes, platform).len() ==> (#[trigger] server_statuses(
                processes,
                platform,
            )[j]).server_pid != pid,
        forall|j: int|
            0 <= j < worker_statuses(processes, platform).len() ==> (#[trigger] worker_statuses(
                processes,
                platform,
            )[j]).worker_pid != pid,
{
    let is_server = |process: ProcessView| process.name == server_executable(platform);
    let is_worker = |process: ProcessView| process.name == worker_executable(platform);
    assert forall|j: int| 0 <= j < server_statuses(processes, platform).len() implies (
    #[trigger] server_statuses(processes, platform)[j]).server_pid != pid by {
        let kept = processes.filter(is_server);
        assert(kept.contains(kept[j]));
        processes.lemma_filter_contains_rev(is_server, kept[j]);
        let i = choose|i: int| 0 <= i < processes.len() && processes[i] == kept[j];
        assert(processes[i].pid != pid);
    }
    assert forall|j: int| 0 <= j < worker_statuses(processes, platform).len() implies (
    #[trigger] worker_statuses(processes, platform)[j]).worker_pid != pid by {
        let kept = processes.filter(is_worker);
        assert(kept.contains(kept[j]));
        processes.lemma_filter_contains_rev(is_worker, kept[j]);
        let i = choose|i: int| 0 <= i < processes.len() && processes[i] == kept[j];
        assert(processes[i].pid != pid);
    }
}

} // verus!
