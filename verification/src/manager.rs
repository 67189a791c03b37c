//! The process supervisor: it starts and stops the grid's processes and
//! reports which of them run. It keeps no list of its own; the operating
//! system's process table is the only record, so a supervisor that was
//! restarted sees exactly what runs.
//!
//! Nothing here touches the operating system. Each operation takes what was
//! read from it and returns what is to be done to it and what the caller is
//! told.

pub mod layout;
pub mod process;
pub mod upload;

use crate::manager::layout::{server_executable, worker_executable, Platform};
use crate::manager::process::{
    find_process,
    has_process,
    process_views,
    server_arguments,
    server_launch,
    server_statuses,
    status_of_processes,
    worker_arguments,
    worker_launch,
    worker_statuses,
    LaunchCommand,
    LaunchCommandView,
    ProcessEntry,
    ProcessView,
    ResponseGetStatus,
    ServerConfiguration,
    ServiceLibraryConfiguration,
    WorkerConfiguration,
    WorkerConfigurationView,
    WorkerStatusView,
};
use crate::manager::layout::library_directory;
use crate::manager::upload::{
    failed,
    ServiceLibraryUpload,
    UploadAction,
    UploadActionView,
    UploadStage,
};
use crate::text::optional_text;
use vstd::prelude::*;
use vstd::string::*;

verus! {

/// The supervisor. All it holds is the platform whose file names it uses.
#[derive(Clone, Copy, Debug)]
pub struct GridManagerImpl {
    platform: Platform,
}

/// What the supervisor decided on a request to start a process.
#[derive(Debug)]
pub struct StartDecision {
    /// What the caller is told: nothing where the request was in order.
    pub error_message: Option<String>,
    /// The program to start, if any. Whether it then starts is not reported
    /// to the caller and not tried again.
    pub launch: Option<LaunchCommand>,
}

/// What the supervisor decided on a request to stop a process.
#[derive(Debug)]
pub struct StopDecision {
    /// What the caller is told: nothing where the process exists.
    pub error_message: Option<String>,
    /// The process to terminate at once, if any.
    pub kill: Option<u64>,
}

/// The command that an optional launch command holds.
pub open spec fn launch_view(launch: Option<LaunchCommand>) -> Option<LaunchCommandView> {
    match launch {
        Some(command) => Some(command@),
        None => None,
    }
}

/// The command that starts the worker of `configuration`: none where the
/// configuration names no service library.
pub open spec fn worker_launch_of(
    platform: Platform,
    configuration: WorkerConfigurationView,
) -> Option<LaunchCommandView> {
    match configuration.service_library_configuration {
        Some(library) => Some(
            LaunchCommandView {
                executable: worker_executable(platform),
                arguments: worker_arguments(
                    configuration.server_address,
                    library,
                    configuration.service_library_path,
                ),
            },
        ),
        None => None,
    }
}

impl GridManagerImpl {
    /// The platform whose file names this supervisor uses.
    pub closed spec fn platform_spec(&self) -> Platform {
        self.platform
    }

    /// Makes a supervisor for `platform`.
    pub fn new(platform: Platform) -> (manager: Self)
        ensures
            manager.platform_spec() == platform,
    {
        GridManagerImpl { platform }
    }

    /// The platform whose file names this supervisor uses.
    pub fn platform(&self) -> (platform: Platform)
        ensures
            platform == self.platform_spec(),
    {
        self.platform
    }

    /// Takes an upload of a service library. Without a configuration the
    /// upload is answered at once with a message. With one, the library goes
    /// to the place that the configuration's two numbers determine, and the
    /// first thing to find out is whether its directory exists.
    pub fn accept_service_library(
        &self,
        service_library_configuration: Option<ServiceLibraryConfiguration>,
    ) -> (started: (ServiceLibraryUpload, UploadAction))
        ensures
            match service_library_configuration {
                Some(configuration) => {
                    &&& started.0 == (ServiceLibraryUpload {
                        platform: self.platform_spec(),
                        configuration,
                        stage: UploadStage::CheckingDirectory,
                    })
                    &&& started.1@ == (UploadActionView::CheckDirectory {
                        directory: library_directory(
                            configuration.service_id,
                            configuration.service_version,
                        ),
                    })
                },
                None => {
                    &&& started.0 == (ServiceLibraryUpload {
                        platform: self.platform_spec(),
                        configuration: ServiceLibraryConfiguration {
                            service_id: 0,
                            service_version: 0,
                        },
                        stage: UploadStage::Finished,
                    })
                    &&& started.1@ == failed("No service library configuration given"@)
                },
            },
    {
        match service_library_configuration {
            Some(configuration) => ServiceLibraryUpload::begin(self.platform, configuration),
            None => {
                let upload = ServiceLibraryUpload {
                    platform: self.platform,
                    configuration: ServiceLibraryConfiguration {
                        service_id: 0,
                        service_version: 0,
                    },
                    stage: UploadStage::Finished,
                };
                let action = UploadAction::Respond {
                    error_message: Some(String::from_str("No service library configuration given")),
                };
                (upload, action)
            },
        }
    }

    /// Lists the brokers and workers among `processes`, the entries of a
    /// process table that was read just now.
    pub fn get_status(&self, processes: &Vec<ProcessEntry>) -> (status: ResponseGetStatus)
        ensures
            status@.server_status == server_statuses(
                process_views(processes@),
                self.platform_spec(),
            ),
            status@.worker_status == worker_statuses(
                process_views(processes@),
                self.platform_spec(),
            ),
    {
        status_of_processes(processes, self.platform)
    }

    /// Decides on a request to start a broker: with a configuration, the
    /// broker's program is to be started with the address as its only
    /// argument; without one, the caller gets a message.
    pub fn start_server(&self, server_configuration: Option<&ServerConfiguration>) -> (decision:
        StartDecision)
        ensures
            match server_configuration {
                Some(configuration) => {
                    &&& decision.error_message is None
                    &&& launch_view(decision.launch) == Some(
                        LaunchCommandView {
                            executable: server_executable(self.platform_spec()),
                            arguments: server_arguments(configuration.server_address@),
                        },
                    )
                },
                None => {
                    &&& optional_text(decision.error_message) == Some(
                        "No server configuration given"@,
                    )
                    &&& decision.launch is None
                },
            },
    {
        match server_configuration {
            Some(configuration) => StartDecision {
                error_message: None,
                launch: Some(server_launch(self.platform, configuration)),
            },
            None => StartDecision {
                error_message: Some(String::from_str("No server configuration given")),
                launch: None,
            },
        }
    }

    /// Decides on a request to start a worker: with a configuration that
    /// names a service library, the worker's program is to be started with
    /// the broker's address, the service's id, the service's version and the
    /// library's path; without a configuration, the caller gets a message. A
    /// configuration that names no service library starts nothing and is
    /// answered without a message.
    pub fn start_worker(&self, worker_configuration: Option<&WorkerConfiguration>) -> (decision:
        StartDecision)
        ensures
            match worker_configuration {
                Some(configuration) => {
                    &&& decision.error_message is None
                    &&& launch_view(decision.launch) == worker_launch_of(
                        self.platform_spec(),
                        configuration@,
                    )
                },
                None => {
                    &&& optional_text(decision.error_message) == Some(
                        "No worker configuration given"@,
                    )
                    &&& decision.launch is None
                },
            },
    {
        match worker_configuration {
            Some(configuration) => StartDecision {
                error_message: None,
                launch: worker_launch(self.platform, configuration),
            },
            None => StartDecision {
                error_message: Some(String::from_str("No worker configuration given")),
                launch: None,
            },
        }
    }

    /// Decides on a request to stop the broker with the process id
    /// `server_pid`, given the entries of a process table that was read just
    /// now: a process with that id is to be terminated at once; where there
    /// is none, the caller gets a message.
    pub fn stop_server(&self, server_pid: u64, processes: &Vec<ProcessEntry>) -> (decision:
        StopDecision)
        ensures
            has_process(process_views(processes@), server_pid) ==> decision.kill == Some(server_pid)
                && decision.error_message is None,
            !has_process(process_views(processes@), server_pid) ==> decision.kill is None
                && optional_text(decision.error_message) == Some(
                "No server process with the given process ID"@,
            ),
    {
        if find_process(processes, server_pid) {
            StopDecision { error_message: None, kill: Some(server_pid) }
        } else {
            StopDecision {
                error_message: Some(
                    String::from_str("No server process with the given process ID"),
                ),
                kill: None,
            }
        }
    }

    /// Decides on a request to stop the worker with the process id
    /// `worker_pid`, given the entries of a process table that was read just
    /// now: a process with that id is to be terminated at once; where there
    /// is none, the caller gets a message.
    pub fn stop_worker(&self, worker_pid: u64, processes: &Vec<ProcessEntry>) -> (decision:
        StopDecision)
        ensures
            has_process(process_views(processes@), worker_pid) ==> decision.kill == Some(worker_pid)
                && decision.error_message is None,
            !has_process(process_views(processes@), worker_pid) ==> decision.kill is None
                && optional_text(decision.error_message) == Some(
                "No worker process with the given process ID"@,
            ),
    {
        if find_process(processes, worker_pid) {
            StopDecision { error_message: None, kill: Some(worker_pid) }
        } else {
            StopDecision {
                error_message: Some(
                    String::from_str("No worker process with the given process ID"),
                ),
                kill: None,
            }
        }
    }
}

/// The status reflects the processes that live. A worker that was started
/// from `configuration`, once its process is in the table under the worker
/// program's name with the arguments of the launch command, is listed with
/// its process id and with exactly that configuration.
pub proof fn lemma_status_lists_started_worker(
    platform: Platform,
    configuration: WorkerConfigurationView,
    processes: Seq<ProcessView>,
    i: int,
    program: Seq<char>,
)
    requires
        worker_launch_of(platform, configuration) is Some,
        0 <= i < processes.len(),
        processes[i].name == worker_launch_of(platform, configuration)->Some_0.executable,
        processes[i].command_line == seq![program] + worker_launch_of(
            platform,
            configuration,
        )->Some_0.arguments,
    ensures
        worker_statuses(processes, platform).contains(
            WorkerStatusView {
                worker_pid: processes[i].pid,
                worker_configuration: Some(configuration),
            },
        ),
{
    let library = configuration.service_library_configuration->Some_0;
    crate::manager::process::lemma_worker_arguments_read_back(
        processes[i].name,
        processes[i].pid,
        program,
        configuration.server_address,
        library,
        configuration.service_library_path,
    );
    crate::manager::process::lemma_running_worker_is_listed(processes, platform, i);
}

/// The status reflects the processes that live. A broker that was started to
/// listen on `server_address`, once its process is in the table under the
/// broker program's name with that address as its argument, is listed with
/// its process id and that address.
pub proof fn lemma_status_lists_started_server(
    platform: Platform,
    server_address: Seq<char>,
    processes: Seq<ProcessView>,
    i: int,
    program: Seq<char>,
)
    requires
        0 <= i < processes.len(),
        processes[i].name == server_executable(platform),
        processes[i].command_line == seq![program] + server_arguments(server_address),
    ensures
        server_statuses(processes, platform).contains(
            crate::manager::process::ServerStatusView {
                server_pid: processes[i].pid,
                server_address: Some(server_address),
            },
        ),
{
    crate::manager::process::lemma_server_arguments_read_back(
        processes[i].name,
        processes[i].pid,
        program,
        server_address,
    );
    crate::manager::process::lemma_running_server_is_listed(processes, platform, i);
}

} // verus!
