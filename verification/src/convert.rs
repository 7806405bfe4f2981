//! The conversion of one candidate, as a state machine.
//!
//! The machine decides what is to be done next; its driver does it and
//! reports how it went. Whatever the driver reports, the machine reaches its
//! end after at most three steps, with exactly one outcome.

use crate::mapping::{map_path, mapped_path};
use crate::path::{before_last_component, directory_of};
use vstd::prelude::*;

verus! {

/// The quality, out of 100, at which every output file is encoded.
pub const JPG_QUALITY: u8 = 95;

/// How the conversion of one candidate ended.
#[derive(Debug, PartialEq, Eq)]
pub enum ConversionOutcome {
    /// The output file was written.
    Success,
    /// The source file could not be read or decoded.
    ReadFailure(String),
    /// The image could not be encoded or the output file not written.
    WriteFailure(String),
    /// The directory for the output file could not be created.
    DirCreateFailure(String),
    /// The candidate does not lie below the input root.
    PathMappingFailure,
}

/// A `ConversionOutcome` as a mathematical value.
pub enum Outcome {
    Success,
    ReadFailure(Seq<char>),
    WriteFailure(Seq<char>),
    DirCreateFailure(Seq<char>),
    PathMappingFailure,
}

impl View for ConversionOutcome {
    type V = Outcome;

    open spec fn view(&self) -> Outcome {
        match self {
            ConversionOutcome::Success => Outcome::Success,
            ConversionOutcome::ReadFailure(reason) => Outcome::ReadFailure(reason@),
            ConversionOutcome::WriteFailure(reason) => Outcome::WriteFailure(reason@),
            ConversionOutcome::DirCreateFailure(reason) => Outcome::DirCreateFailure(reason@),
            ConversionOutcome::PathMappingFailure => Outcome::PathMappingFailure,
        }
    }
}

impl Clone for ConversionOutcome {
    fn clone(&self) -> (copy: ConversionOutcome)
        ensures
            copy == *self,
    {
        match self {
            ConversionOutcome::Success => ConversionOutcome::Success,
            ConversionOutcome::ReadFailure(reason) => ConversionOutcome::ReadFailure(
                reason.clone(),
            ),
            ConversionOutcome::WriteFailure(reason) => ConversionOutcome::WriteFailure(
                reason.clone(),
            ),
            ConversionOutcome::DirCreateFailure(reason) => ConversionOutcome::DirCreateFailure(
                reason.clone(),
            ),
            ConversionOutcome::PathMappingFailure => ConversionOutcome::PathMappingFailure,
        }
    }
}

/// What the driver is to do next for a candidate.
#[derive(Debug, PartialEq, Eq)]
pub enum Action {
    /// Create the directory at `path`, with every directory above it that is
    /// missing. That it exists already is no failure.
    CreateDirectory { path: String },
    /// Read and decode the image at `source`.
    Decode { source: String },
    /// Encode the decoded image as JPEG at `quality` and write it to
    /// `destination`.
    Encode { destination: String, quality: u8 },
    /// Nothing more: report the outcome and count the candidate as done.
    Report { outcome: ConversionOutcome },
}

/// An `Action` as a mathematical value.
pub enum Task {
    CreateDirectory { path: Seq<char> },
    Decode { source: Seq<char> },
    Encode { destination: Seq<char>, quality: u8 },
    Report { outcome: Outcome },
}

impl View for Action {
    type V = Task;

    open spec fn view(&self) -> Task {
        match self {
            Action::CreateDirectory { path } => Task::CreateDirectory { path: path@ },
            Action::Decode { source } => Task::Decode { source: source@ },
            Action::Encode { destination, quality } => Task::Encode {
                destination: destination@,
                quality: *quality,
            },
            Action::Report { outcome } => Task::Report { outcome: outcome@ },
        }
    }
}

impl Clone for Action {
    fn clone(&self) -> (copy: Action)
        ensures
            copy == *self,
    {
        match self {
            Action::CreateDirectory { path } => Action::CreateDirectory { path: path.clone() },
            Action::Decode { source } => Action::Decode { source: source.clone() },
            Action::Encode { destination, quality } => Action::Encode {
                destination: destination.clone(),
                quality: *quality,
            },
            Action::Report { outcome } => Action::Report { outcome: outcome.clone() },
        }
    }
}

/// The conversion of one candidate, at some point of its course.
#[derive(Debug, PartialEq, Eq)]
pub enum Job {
    /// The output path is known; its directory is yet to be ensured.
    AwaitingDirectory { source: String, destination: String },
    /// The directory exists; the source is yet to be decoded.
    AwaitingDecode { source: String, destination: String },
    /// The source is decoded; the output is yet to be encoded and written.
    AwaitingEncode { destination: String },
    /// The conversion is over.
    Finished { outcome: ConversionOutcome },
}

/// A `Job` as a mathematical value.
pub enum Stage {
    AwaitingDirectory { source: Seq<char>, destination: Seq<char> },
    AwaitingDecode { source: Seq<char>, destination: Seq<char> },
    AwaitingEncode { destination: Seq<char> },
    Finished { outcome: Outcome },
}

impl View for Job {
    type V = Stage;

    open spec fn view(&self) -> Stage {
        match self {
            Job::AwaitingDirectory { source, destination } => Stage::AwaitingDirectory {
                source: source@,
                destination: destination@,
            },
            Job::AwaitingDecode { source, destination } => Stage::AwaitingDecode {
                source: source@,
                destination: destination@,
            },
            Job::AwaitingEncode { destination } => Stage::AwaitingEncode {
                destination: destination@,
            },
            Job::Finished { outcome } => Stage::Finished { outcome: outcome@ },
        }
    }
}

impl Clone for Job {
    fn clone(&self) -> (copy: Job)
        ensures
            copy == *self,
    {
        match self {
            Job::AwaitingDirectory { source, destination } => Job::AwaitingDirectory {
                source: source.clone(),
                destination: destination.clone(),
            },
            Job::AwaitingDecode { source, destination } => Job::AwaitingDecode {
                source: source.clone(),
                destination: destination.clone(),
            },
            Job::AwaitingEncode { destination } => Job::AwaitingEncode {
                destination: destination.clone(),
            },
            Job::Finished { outcome } => Job::Finished { outcome: outcome.clone() },
        }
    }
}

/// Where the conversion of a candidate begins: at the directory of its output
/// path, or at its end where the candidate has no output path.
pub open spec fn begun(candidate: Seq<char>, input_root: Seq<char>, output_root: Seq<char>) -> Stage {
    match mapped_path(candidate, input_root, output_root) {
        Some(destination) => Stage::AwaitingDirectory { source: candidate, destination },
        None => Stage::Finished { outcome: Outcome::PathMappingFailure },
    }
}

/// What is to be done at a stage.
pub open spec fn task_at(stage: Stage) -> Task {
    match stage {
        Stage::AwaitingDirectory { source, destination } => Task::CreateDirectory {
            path: before_last_component(destination),
        },
        Stage::AwaitingDecode { source, destination } => Task::Decode { source },
        Stage::AwaitingEncode { destination } => Task::Encode {
            destination,
            quality: JPG_QUALITY,
        },
        Stage::Finished { outcome } => Task::Report { outcome },
    }
}

/// The stage that follows once the task of `stage` was attempted: `failure`
/// is `None` where it succeeded, and the reason where it failed. A failure
/// ends the conversion; nothing follows the end.
pub open spec fn after(stage: Stage, failure: Option<Seq<char>>) -> Stage {
    match stage {
        Stage::AwaitingDirectory { source, destination } => match failure {
            None => Stage::AwaitingDecode { source, destination },
            Some(reason) => Stage::Finished { outcome: Outcome::DirCreateFailure(reason) },
        },
        Stage::AwaitingDecode { source, destination } => match failure {
            None => Stage::AwaitingEncode { destination },
            Some(reason) => Stage::Finished { outcome: Outcome::ReadFailure(reason) },
        },
        Stage::AwaitingEncode { destination } => match failure {
            None => Stage::Finished { outcome: Outcome::Success },
            Some(reason) => Stage::Finished { outcome: Outcome::WriteFailure(reason) },
        },
        Stage::Finished { outcome } => stage,
    }
}

/// The most tasks that can still be attempted from a stage.
pub open spec fn steps_left(stage: Stage) -> nat {
    match stage {
        Stage::AwaitingDirectory { .. } => 3,
        Stage::AwaitingDecode { .. } => 2,
        Stage::AwaitingEncode { .. } => 1,
        Stage::Finished { .. } => 0,
    }
}

/// The reason of a failed attempt, or `None` for an attempt that succeeded.
pub open spec fn failure_of(result: Result<(), String>) -> Option<Seq<char>> {
    match result {
        Ok(_) => None,
        Err(reason) => Some(reason@),
    }
}

/// How the three attempts of one conversion went, as its driver reports
/// them: for each, `None` where it succeeded and the reason where it failed.
/// What is reported of an attempt that was never made does not matter.
pub struct Reports {
    /// The attempt to create the directory of the output file.
    pub directory: Option<Seq<char>>,
    /// The attempt to read and decode the source.
    pub decode: Option<Seq<char>>,
    /// The attempt to encode and write the output.
    pub encode: Option<Seq<char>>,
}

/// The stage at which a conversion stands once its driver has made the
/// attempts it was asked for and reported them.
pub open spec fn run(stage: Stage, reports: Reports) -> Stage {
    after(after(after(stage, reports.directory), reports.decode), reports.encode)
}

/// The outcome of the conversion of a candidate under the given reports.
pub open spec fn outcome_of(
    candidate: Seq<char>,
    input_root: Seq<char>,
    output_root: Seq<char>,
    reports: Reports,
) -> Outcome {
    run(begun(candidate, input_root, output_root), reports)->outcome
}

/// Every attempt brings a conversion nearer to its end, whether it succeeds
/// or fails, and a failure ends it at once.
pub proof fn lemma_each_step_nears_the_end(stage: Stage, failure: Option<Seq<char>>)
    ensures
        stage is Finished ==> after(stage, failure) == stage,
        !(stage is Finished) ==> steps_left(after(stage, failure)) < steps_left(stage),
        !(stage is Finished) && failure is Some ==> after(stage, failure) is Finished,
{
}

/// Whatever is reported of its attempts, a conversion has ended after them.
/// It has ended in success exactly where the candidate has an output path
/// and no attempt failed; otherwise its outcome is the first failure.
pub proof fn lemma_every_job_finishes(
    candidate: Seq<char>,
    input_root: Seq<char>,
    output_root: Seq<char>,
    reports: Reports,
)
    ensures
        run(begun(candidate, input_root, output_root), reports) is Finished,
        outcome_of(candidate, input_root, output_root, reports) == if mapped_path(
            candidate,
            input_root,
            output_root,
        ) is None {
            Outcome::PathMappingFailure
        } else if reports.directory is Some {
            Outcome::DirCreateFailure(reports.directory->0)
        } else if reports.decode is Some {
            Outcome::ReadFailure(reports.decode->0)
        } else if reports.encode is Some {
            Outcome::WriteFailure(reports.encode->0)
        } else {
            Outcome::Success
        },
{
}

impl Job {
    /// Begins the conversion of `candidate`: maps its path below
    /// `output_root`, and ends the conversion at once where that fails.
    pub fn start(candidate: &str, input_root: &str, output_root: &str) -> (job: Job)
        ensures
            job@ == begun(candidate@, input_root@, output_root@),
    {
        match map_path(candidate, input_root, output_root) {
            Ok(destination) => Job::AwaitingDirectory { source: candidate.to_owned(), destination },
            Err(_) => Job::Finished { outcome: ConversionOutcome::PathMappingFailure },
        }
    }

    /// What the driver is to do now.
    pub fn action(&self) -> (action: Action)
        ensures
            action@ == task_at(self@),
    {
        match self {
            Job::AwaitingDirectory { source, destination } => Action::CreateDirectory {
                path: directory_of(destination.as_str()),
            },
            Job::AwaitingDecode { source, destination } => Action::Decode {
                source: source.clone(),
            },
            Job::AwaitingEncode { destination } => Action::Encode {
                destination: destination.clone(),
                quality: JPG_QUALITY,
            },
            Job::Finished { outcome } => Action::Report { outcome: outcome.clone() },
        }
    }

    /// Takes in how the attempt at the current action went, and moves on.
    pub fn advance(self, result: Result<(), String>) -> (next: Job)
        ensures
            next@ == after(self@, failure_of(result)),
    {
        match self {
            Job::AwaitingDirectory { source, destination } => match result {
                Ok(_) => Job::AwaitingDecode { source, destination },
                Err(reason) => Job::Finished {
                    outcome: ConversionOutcome::DirCreateFailure(reason),
                },
            },
            Job::AwaitingDecode { source, destination } => match result {
                Ok(_) => Job::AwaitingEncode { destination },
                Err(reason) => Job::Finished { outcome: ConversionOutcome::ReadFailure(reason) },
            },
            Job::AwaitingEncode { destination } => match result {
                Ok(_) => Job::Finished { outcome: ConversionOutcome::Success },
                Err(reason) => Job::Finished { outcome: ConversionOutcome::WriteFailure(reason) },
            },
            Job::Finished { outcome } => Job::Finished { outcome },
        }
    }

    /// Whether the conversion is over.
    pub fn is_finished(&self) -> (finished: bool)
        ensures
            finished == (self@ is Finished),
    {
        match self {
            Job::Finished { .. } => true,
            _ => false,
        }
    }
}

} // verus!
