//! Where the grid's files lie and what its programs are called.
//!
//! The supervisor and the processes it starts share nothing but these names
//! and the order of the launch arguments.

use crate::descriptor::{ServiceId, ServiceVersion};
use crate::text::{decimal_digits, decimal_text};
use vstd::prelude::*;
use vstd::string::*;

verus! {

/// The family of operating system that the grid runs on. It decides the file
/// names of programs and libraries.
#[derive(Clone, Copy, Debug, PartialEq, Eq, Structural)]
pub enum Platform {
    Unix,
    Windows,
}

/// The file name of the broker's program.
pub open spec fn server_executable(platform: Platform) -> Seq<char> {
    match platform {
        Platform::Unix => "grid-server"@,
        Platform::Windows => "grid-server.exe"@,
    }
}

/// The file name of the worker's program.
pub open spec fn worker_executable(platform: Platform) -> Seq<char> {
    match platform {
        Platform::Unix => "grid-worker"@,
        Platform::Windows => "grid-worker.exe"@,
    }
}

/// The file name under which every service library is stored.
pub open spec fn service_library_file(platform: Platform) -> Seq<char> {
    match platform {
        Platform::Unix => "service_library.so"@,
        Platform::Windows => "service_library.dll"@,
    }
}

/// The directory of one service library, as path components below the
/// supervisor's base directory.
pub open spec fn library_directory(
    service_id: ServiceId,
    service_version: ServiceVersion,
) -> Seq<Seq<char>> {
    seq![
        "libraries"@,
        decimal_digits(service_id as nat),
        decimal_digits(service_version as nat),
    ]
}

/// The file of one service library, as path components below the
/// supervisor's base directory.
pub open spec fn library_path(
    platform: Platform,
    service_id: ServiceId,
    service_version: ServiceVersion,
) -> Seq<Seq<char>> {
    library_directory(service_id, service_version).push(service_library_file(platform))
}

/// The file name of the broker's program on `platform`.
pub fn server_executable_name(platform: Platform) -> (name: &'static str)
    ensures
        name@ == server_executable(platform),
{
    match platform {
        Platform::Unix => "grid-server",
        Platform::Windows => "grid-server.exe",
    }
}

/// The file name of the worker's program on `platform`.
pub fn worker_executable_name(platform: Platform) -> (name: &'static str)
    ensures
        name@ == worker_executable(platform),
{
    match platform {
        Platform::Unix => "grid-worker",
        Platform::Windows => "grid-worker.exe",
    }
}

/// The file name of a service library on `platform`.
pub fn service_library_name(platform: Platform) -> (name: &'static str)
    ensures
        name@ == service_library_file(platform),
{
    match platform {
        Platform::Unix => "service_library.so",
        Platform::Windows => "service_library.dll",
    }
}

/// The directory that holds the library of `service_version` of
/// `service_id`, as path components below the supervisor's base directory.
pub fn service_library_directory(service_id: ServiceId, service_version: ServiceVersion) -> (parts:
    Vec<String>)
    ensures
        crate::text::texts(parts@) == library_directory(service_id, service_version),
{
    let mut parts: Vec<String> = Vec::new();
    parts.push(String::from_str("libraries"));
    parts.push(decimal_text(service_id));
    parts.push(decimal_text(service_version));
    assert(crate::text::texts(parts@) =~= library_directory(service_id, service_version));
    parts
}

/// The file that holds the library of `service_version` of `service_id`, as
/// path components below the supervisor's base directory. The path depends
/// on nothing but the platform and the two numbers.
pub fn service_library_path(
    platform: Platform,
    service_id: ServiceId,
    service_version: ServiceVersion,
) -> (parts: Vec<String>)
    ensures
        crate::text::texts(parts@) == library_path(platform, service_id, service_version),
{
    let mut parts = service_library_directory(service_id, service_version);
    let ghost directory = parts@;
    parts.push(String::from_str(service_library_name(platform)));
    assert(crate::text::texts(parts@) =~= crate::text::texts(directory).push(
        service_library_file(platform),
    ));
    parts
}

/// Two service libraries are stored at the same place only if they are the
/// same version of the same service.
pub proof fn lemma_library_path_injective(
    platform: Platform,
    service_id: ServiceId,
    service_version: ServiceVersion,
    other_id: ServiceId,
    other_version: ServiceVersion,
)
    requires
        library_path(platform, service_id, service_version) == library_path(
            platform,
            other_id,
            other_version,
        ),
    ensures
        service_id == other_id,
        service_version == other_version,
{
    let a = library_path(platform, service_id, service_version);
    let b = library_path(platform, other_id, other_version);
    assert(a[1] == b[1]);
    assert(a[2] == b[2]);
    crate::text::lemma_decimal_round_trip(service_id);
    crate::text::lemma_decimal_round_trip(other_id);
    crate::text::lemma_decimal_round_trip(service_version);
    crate::text::lemma_decimal_round_trip(other_version);
}

} // verus!
