//! Storing an uploaded service library, step by step.
//!
//! The supervisor decides what is to be done on disk and what the caller is
//! told; somebody else touches the disk. Each step names one action and waits
//! for its outcome. A failure on disk never ends the upload abruptly: it ends
//! in a response that carries a message.

use crate::manager::layout::{
    library_directory,
    library_path,
    service_library_directory,
    service_library_path,
    Platform,
};
use crate::manager::process::ServiceLibraryConfiguration;
use crate::text::texts;
use vstd::prelude::*;
use vstd::string::*;

verus! {

/// How far an upload has come.
#[derive(Clone, Copy, Debug, PartialEq, Eq, Structural)]
pub enum UploadStage {
    /// Asked whether the library's directory exists.
    CheckingDirectory,
    /// Asked for the library's directory to be created.
    CreatingDirectory,
    /// Asked for the library's file to be written.
    WritingFile,
    /// The response is out.
    Finished,
}

/// One upload of a service library.
#[derive(Clone, Copy, Debug, PartialEq, Eq, Structural)]
pub struct ServiceLibraryUpload {
    pub platform: Platform,
    pub configuration: ServiceLibraryConfiguration,
    pub stage: UploadStage,
}

/// What happened on disk.
#[derive(Debug)]
pub enum UploadEvent {
    DirectoryFound,
    DirectoryMissing,
    DirectoryCreated,
    /// The directory could not be created. `directory` is its full path as
    /// the caller shows it, `error` the reason.
    DirectoryNotCreated { directory: String, error: String },
    FileWritten,
    /// The file could not be created or written. `directory` is the full path
    /// of its directory as the caller shows it, `error` the reason.
    FileNotWritten { directory: String, error: String },
}

/// What is to be done next. Paths are components below the supervisor's base
/// directory.
#[derive(Debug)]
pub enum UploadAction {
    CheckDirectory { directory: Vec<String> },
    /// Create the directory with all its parents.
    CreateDirectory { directory: Vec<String> },
    /// Write the uploaded bytes to the file, replacing what is there.
    WriteFile { path: Vec<String> },
    /// Answer the caller: with a message where the upload failed, without
    /// one where the library is stored.
    Respond { error_message: Option<String> },
}

pub enum UploadEventView {
    DirectoryFound,
    DirectoryMissing,
    DirectoryCreated,
    DirectoryNotCreated { directory: Seq<char>, error: Seq<char> },
    FileWritten,
    FileNotWritten { directory: Seq<char>, error: Seq<char> },
}

pub enum UploadActionView {
    CheckDirectory { directory: Seq<Seq<char>> },
    CreateDirectory { directory: Seq<Seq<char>> },
    WriteFile { path: Seq<Seq<char>> },
    Respond { error_message: Option<Seq<char>> },
}

impl View for UploadEvent {
    type V = UploadEventView;

    open spec fn view(&self) -> UploadEventView {
        match self {
            UploadEvent::DirectoryFound => UploadEventView::DirectoryFound,
            UploadEvent::DirectoryMissing => UploadEventView::DirectoryMissing,
            UploadEvent::DirectoryCreated => UploadEventView::DirectoryCreated,
            UploadEvent::DirectoryNotCreated { directory, error } => {
                UploadEventView::DirectoryNotCreated { directory: directory@, error: error@ }
            },
            UploadEvent::FileWritten => UploadEventView::FileWritten,
            UploadEvent::FileNotWritten { directory, error } => UploadEventView::FileNotWritten {
                directory: directory@,
                error: error@,
            },
        }
    }
}

impl View for UploadAction {
    type V = UploadActionView;

    open spec fn view(&self) -> UploadActionView {
        match self {
            UploadAction::CheckDirectory { directory } => UploadActionView::CheckDirectory {
                directory: texts(directory@),
            },
            UploadAction::CreateDirectory { directory } => UploadActionView::CreateDirectory {
                directory: texts(directory@),
            },
            UploadAction::WriteFile { path } => UploadActionView::WriteFile { path: texts(path@) },
            UploadAction::Respond { error_message } => UploadActionView::Respond {
                error_message: match error_message {
                    Some(message) => Some(message@),
                    None => None,
                },
            },
        }
    }
}

/// The message for a directory that could not be created.
pub open spec fn directory_failure(directory: Seq<char>, error: Seq<char>) -> Seq<char> {
    "Could not create the service library directory \""@ + directory + "\": "@ + error
}

/// The message for a file that could not be written.
pub open spec fn write_failure(directory: Seq<char>, error: Seq<char>) -> Seq<char> {
    "Could not write the service library \""@ + directory + "\": "@ + error
}

/// The response without a message: the library is stored.
pub open spec fn stored() -> UploadActionView {
    UploadActionView::Respond { error_message: None }
}

/// The response that carries `message`.
pub open spec fn failed(message: Seq<char>) -> UploadActionView {
    UploadActionView::Respond { error_message: Some(message) }
}

impl ServiceLibraryUpload {
    /// The upload once the response is out.
    pub open spec fn finished(self) -> ServiceLibraryUpload {
        ServiceLibraryUpload { stage: UploadStage::Finished, ..self }
    }

    /// The upload at `stage`.
    pub open spec fn at(self, stage: UploadStage) -> ServiceLibraryUpload {
        ServiceLibraryUpload { stage, ..self }
    }

    /// The action that writes this upload's file.
    pub open spec fn write_file(self) -> UploadActionView {
        UploadActionView::WriteFile {
            path: library_path(
                self.platform,
                self.configuration.service_id,
                self.configuration.service_version,
            ),
        }
    }

    /// The directory of this upload's file.
    pub open spec fn directory(self) -> Seq<Seq<char>> {
        library_directory(self.configuration.service_id, self.configuration.service_version)
    }

    /// What the upload does on `event`: its stage afterwards and the next
    /// action. An existing directory is not created again; a missing one is
    /// created before the file is written. An event that does not answer the
    /// pending action ends the upload with a message.
    pub open spec fn step(self, event: UploadEventView) -> (
        ServiceLibraryUpload,
        UploadActionView,
    ) {
        match (self.stage, event) {
            (UploadStage::CheckingDirectory, UploadEventView::DirectoryFound) => (
                self.at(UploadStage::WritingFile),
                self.write_file(),
            ),
            (UploadStage::CheckingDirectory, UploadEventView::DirectoryMissing) => (
                self.at(UploadStage::CreatingDirectory),
                UploadActionView::CreateDirectory { directory: self.directory() },
            ),
            (UploadStage::CreatingDirectory, UploadEventView::DirectoryCreated) => (
                self.at(UploadStage::WritingFile),
                self.write_file(),
            ),
            (
                UploadStage::CreatingDirectory,
                UploadEventView::DirectoryNotCreated { directory, error },
            ) => (self.finished(), failed(directory_failure(directory, error))),
            (UploadStage::WritingFile, UploadEventView::FileWritten) => (self.finished(), stored()),
            (UploadStage::WritingFile, UploadEventView::FileNotWritten { directory, error }) => (
                self.finished(),
                failed(write_failure(directory, error)),
            ),
            _ => (self.finished(), failed("`accept_service_library()`: Unhandled"@)),
        }
    }

    /// Starts the upload of the library that `configuration` names: the first
    /// thing to find out is whether its directory exists.
    pub fn begin(platform: Platform, configuration: ServiceLibraryConfiguration) -> (started: (
        ServiceLibraryUpload,
        UploadAction,
    ))
        ensures
            started.0 == (ServiceLibraryUpload {
                platform,
                configuration,
                stage: UploadStage::CheckingDirectory,
            }),
            started.1@ == (UploadActionView::CheckDirectory {
                directory: library_directory(
                    configuration.service_id,
                    configuration.service_version,
                ),
            }),
    {
        let upload = ServiceLibraryUpload {
            platform,
            configuration,
            stage: UploadStage::CheckingDirectory,
        };
        let directory = service_library_directory(
            configuration.service_id,
            configuration.service_version,
        );
        (upload, UploadAction::CheckDirectory { directory })
    }

    /// Whether the response is out.
    pub fn is_finished(&self) -> (finished: bool)
        ensures
            finished == (self.stage == UploadStage::Finished),
    {
        match self.stage {
            UploadStage::Finished => true,
            _ => false,
        }
    }

    fn directory_parts(&self) -> (parts: Vec<String>)
        ensures
            texts(parts@) == self.directory(),
    {
        service_library_directory(
            self.configuration.service_id,
            self.configuration.service_version,
        )
    }

    fn write_file_action(&self) -> (action: UploadAction)
        ensures
            action@ == self.write_file(),
    {
        UploadAction::WriteFile {
            path: service_library_path(
                self.platform,
                self.configuration.service_id,
                self.configuration.service_version,
            ),
        }
    }

    /// Takes the outcome of the pending action and names the next one.
    pub fn advance(&mut self, event: UploadEvent) -> (action: UploadAction)
        ensures
            (*final(self), action@) == old(self).step(event@),
    {
        let stage = self.stage;
        match (stage, event) {
            (UploadStage::CheckingDirectory, UploadEvent::DirectoryFound) => {
                self.stage = UploadStage::WritingFile;
                self.write_file_action()
            },
            (UploadStage::CheckingDirectory, UploadEvent::DirectoryMissing) => {
                self.stage = UploadStage::CreatingDirectory;
                UploadAction::CreateDirectory { directory: self.directory_parts() }
            },
            (UploadStage::CreatingDirectory, UploadEvent::DirectoryCreated) => {
                self.stage = UploadStage::WritingFile;
                self.write_file_action()
            },
            (
                UploadStage::CreatingDirectory,
                UploadEvent::DirectoryNotCreated { directory, error },
            ) => {
                self.stage = UploadStage::Finished;
                UploadAction::Respond {
                    error_message: Some(directory_failure_message(&directory, &error)),
                }
            },
            (UploadStage::WritingFile, UploadEvent::FileWritten) => {
                self.stage = UploadStage::Finished;
                UploadAction::Respond { error_message: None }
            },
            (UploadStage::WritingFile, UploadEvent::FileNotWritten { directory, error }) => {
                self.stage = UploadStage::Finished;
                UploadAction::Respond {
                    error_message: Some(write_failure_message(&directory, &error)),
                }
            },
            _ => {
                self.stage = UploadStage::Finished;
                UploadAction::Respond {
                    error_message: Some(String::from_str("`accept_service_library()`: Unhandled")),
                }
            },
        }
    }
}

/// Writes the message for a directory that could not be created.
pub fn directory_failure_message(directory: &String, error: &String) -> (message: String)
    ensures
        message@ == directory_failure(directory@, error@),
{
    let message = String::from_str("Could not create the service library directory \"").concat(
        directory.as_str(),
    ).concat("\": ").concat(error.as_str());
    assert(message@ =~= directory_failure(directory@, error@));
    message
}

/// Writes the message for a file that could not be written.
pub fn write_failure_message(directory: &String, error: &String) -> (message: String)
    ensures
        message@ == write_failure(directory@, error@),
{
    let message = String::from_str("Could not write the service library \"").concat(
        directory.as_str(),
    ).concat("\": ").concat(error.as_str());
    assert(message@ =~= write_failure(directory@, error@));
    message
}

/// Whatever happens on disk, an upload is over after at most three
/// outcomes, and it ends in a response.
pub proof fn lemma_upload_ends(
    platform: Platform,
    configuration: ServiceLibraryConfiguration,
    first: UploadEventView,
    second: UploadEventView,
    third: UploadEventView,
)
    ensures
        ({
            let start = ServiceLibraryUpload {
                platform,
                configuration,
                stage: UploadStage::CheckingDirectory,
            };
            let one = start.step(first);
            let two = one.0.step(second);
            let three = two.0.step(third);
            &&& three.0.stage == UploadStage::Finished
            &&& one.0.stage == UploadStage::Finished ==> one.1 is Respond
            &&& two.0.stage == UploadStage::Finished ==> two.1 is Respond
            &&& three.1 is Respond
        }),
{
}

/// A response without a message comes only after the file was written.
pub proof fn lemma_stored_only_when_written(upload: ServiceLibraryUpload, event: UploadEventView)
    requires
        upload.step(event).1 == stored(),
    ensures
        upload.stage == UploadStage::WritingFile,
        event is FileWritten,
{
}

} // verus!
