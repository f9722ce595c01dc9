//! Serving a request to convert a file.
//!
//! Serving a request is a sequence of steps. A step says what to do next;
//! doing it gives a reply, and the reply decides the next step.

use crate::client::{ConvertRequest, Duration};
use crate::encrypted::{determine_input_file_condition, ConditionStep, FileCondition};
use crate::error::{LambdaError, LambdaErrorResponse};
use crate::office::{ConvertMessage, OfficeConvertError, OfficeRunnerError};
use crate::path::PathParts;
use crate::storage::{stream_output_file, stream_source_file, OutputStep, SourceStep};
use crate::temp_files::{cleanup, CleanupStep};
use crate::text;
use vstd::prelude::*;

verus! {

/// Whether a conversion failed because the file is protected by a password:
/// LibreOffice refused it as such, or it looks so.
pub open spec fn is_locked(message: Seq<char>, condition: FileCondition) -> bool {
    text::occurs(message, "Unsupported URL"@) || condition is LikelyEncrypted
}

/// Whether a conversion failed because the file is damaged: LibreOffice could
/// not make a document of it, or it looks so.
pub open spec fn is_damaged(message: Seq<char>, condition: FileCondition) -> bool {
    text::occurs(message, "loadComponentFromURL returned an empty reference"@)
        || condition is LikelyCorrupted
}

/// Whether `error` is what the failure of a conversion is reported as, given
/// what LibreOffice said and the condition of the file. A file that is both
/// protected and damaged is reported as protected.
pub open spec fn reported_as(
    message: Seq<char>,
    condition: FileCondition,
    error: LambdaError,
) -> bool {
    if is_locked(message, condition) {
        error is FileLikelyEncrypted
    } else if is_damaged(message, condition) {
        error is FileLikelyCorrupted
    } else {
        error matches LambdaError::ConvertFailed(said) && said@ == message
    }
}

/// The error that the failure of a conversion is reported as.
pub fn conversion_error(message: String, condition: FileCondition) -> (error: LambdaError)
    ensures
        reported_as(message@, condition, error),
{
    // File was encrypted with a password
    if text::contains(message.as_str(), "Unsupported URL") {
        return LambdaError::FileLikelyEncrypted;
    }
    // File is malformed or corrupted
    if text::contains(message.as_str(), "loadComponentFromURL returned an empty reference") {
        return match condition {
            FileCondition::Normal => LambdaError::FileLikelyCorrupted,
            FileCondition::LikelyCorrupted => LambdaError::FileLikelyCorrupted,
            FileCondition::LikelyEncrypted => LambdaError::FileLikelyEncrypted,
        };
    }
    match condition {
        FileCondition::LikelyCorrupted => LambdaError::FileLikelyCorrupted,
        FileCondition::LikelyEncrypted => LambdaError::FileLikelyEncrypted,
        FileCondition::Normal => LambdaError::ConvertFailed(message),
    }
}

/// What to do next to convert a file.
#[derive(Debug)]
pub enum ConvertStep {
    /// Stream the source file to the local file `input_path`
    FetchSource { request: ConvertRequest, input_path: PathParts, output_path: PathParts },
    /// Have LibreOffice convert the file `input_path` to the file `output_path`
    RunOffice {
        dest_bucket: String,
        dest_key: String,
        input_path: PathParts,
        output_path: PathParts,
    },
    /// Find out the condition of the file `input_path`, which LibreOffice did
    /// not convert
    InspectInput { input_path: PathParts, error: OfficeConvertError },
    /// Stream the converted file `output_path` to its destination
    StoreOutput { dest_bucket: String, dest_key: String, output_path: PathParts },
    /// Nothing: the file is converted, or not
    Done(Result<(), LambdaError>),
}

/// How a step went.
#[derive(Debug)]
pub enum ConvertReply {
    /// The source file was streamed, or not
    SourceFetched(Result<(), LambdaError>),
    /// LibreOffice converted the file, or did not, or could not be asked
    OfficeReplied(Result<Result<(), OfficeConvertError>, LambdaError>),
    /// The condition of the local file, or none where it could not be read
    InputInspected(Result<FileCondition, ()>),
    /// The converted file was streamed, or not
    OutputStored(Result<(), LambdaError>),
}

impl ConvertStep {
    /// Whether a reply answers this step.
    pub open spec fn expects(self, reply: ConvertReply) -> bool {
        match self {
            ConvertStep::FetchSource { .. } => reply is SourceFetched,
            ConvertStep::RunOffice { .. } => reply is OfficeReplied,
            ConvertStep::InspectInput { .. } => reply is InputInspected,
            ConvertStep::StoreOutput { .. } => reply is OutputStored,
            ConvertStep::Done(_) => false,
        }
    }

    /// Whether conversion ends with this step because of an error.
    pub open spec fn fails_with(self, error: LambdaError) -> bool {
        self == ConvertStep::Done(Err(error))
    }

    /// Whether `next` is the step that a reply to this one calls for.
    pub open spec fn leads_to(self, reply: ConvertReply, next: ConvertStep) -> bool {
        match (self, reply) {
            (_, ConvertReply::SourceFetched(Err(error))) => next.fails_with(error),
            (_, ConvertReply::OfficeReplied(Err(error))) => next.fails_with(error),
            (_, ConvertReply::OutputStored(Err(error))) => next.fails_with(error),
            (_, ConvertReply::InputInspected(Err(_))) => next.fails_with(
                LambdaError::ReadFileIntegrity,
            ),
            (
                ConvertStep::FetchSource { request, input_path, output_path },
                ConvertReply::SourceFetched(Ok(_)),
            ) => next == (ConvertStep::RunOffice {
                dest_bucket: request.dest_bucket,
                dest_key: request.dest_key,
                input_path,
                output_path,
            }),
            (
                ConvertStep::RunOffice { dest_bucket, dest_key, input_path, output_path },
                ConvertReply::OfficeReplied(Ok(Ok(_))),
            ) => next == (ConvertStep::StoreOutput { dest_bucket, dest_key, output_path }),
            (
                ConvertStep::RunOffice { dest_bucket, dest_key, input_path, output_path },
                ConvertReply::OfficeReplied(Ok(Err(error))),
            ) => next == (ConvertStep::InspectInput { input_path, error }),
            (
                ConvertStep::InspectInput { input_path, error },
                ConvertReply::InputInspected(Ok(condition)),
            ) => next matches ConvertStep::Done(Err(report)) && reported_as(
                error.message_text(),
                condition,
                report,
            ),
            (_, ConvertReply::OutputStored(Ok(_))) => next == ConvertStep::Done(Ok(())),
            _ => false,
        }
    }

    /// The step after this one.
    pub fn resume(self, reply: ConvertReply) -> (next: ConvertStep)
        requires
            self.expects(reply),
        ensures
            self.leads_to(reply, next),
    {
        match (self, reply) {
            (_, ConvertReply::SourceFetched(Err(error))) => ConvertStep::Done(Err(error)),
            (_, ConvertReply::OfficeReplied(Err(error))) => ConvertStep::Done(Err(error)),
            (_, ConvertReply::OutputStored(Err(error))) => ConvertStep::Done(Err(error)),
            (_, ConvertReply::InputInspected(Err(_))) => ConvertStep::Done(
                Err(LambdaError::ReadFileIntegrity),
            ),
            (
                ConvertStep::FetchSource { request, input_path, output_path },
                ConvertReply::SourceFetched(Ok(_)),
            ) => ConvertStep::RunOffice {
                dest_bucket: request.dest_bucket,
                dest_key: request.dest_key,
                input_path,
                output_path,
            },
            (
                ConvertStep::RunOffice { dest_bucket, dest_key, input_path, output_path },
                ConvertReply::OfficeReplied(Ok(result)),
            ) => match result {
                Ok(_) => ConvertStep::StoreOutput { dest_bucket, dest_key, output_path },
                Err(error) => ConvertStep::InspectInput { input_path, error },
            },
            (
                ConvertStep::InspectInput { input_path, error },
                ConvertReply::InputInspected(Ok(condition)),
            ) => ConvertStep::Done(Err(conversion_error(error.message(), condition))),
            (_, _) => ConvertStep::Done(Ok(())),
        }
    }
}

impl ConvertStep {
    /// Whether `first` is the first step of the transfer that this step asks
    /// for: from where the request says to the input file.
    pub open spec fn starts_source(self, first: SourceStep) -> bool {
        self matches ConvertStep::FetchSource { request, input_path, .. } && (
        first matches SourceStep::GetObject { bucket, key, file_path } && bucket
            == request.source_bucket && key == request.source_key && file_path@ == input_path@)
    }

    /// The first step of the transfer that this step asks for, if it asks for
    /// one.
    pub fn source(&self) -> (res: Option<SourceStep>)
        ensures
            res is Some == self is FetchSource,
            res matches Some(first) ==> self.starts_source(first),
    {
        match self {
            ConvertStep::FetchSource { request, input_path, .. } => Some(
                stream_source_file(
                    request.source_bucket.clone(),
                    request.source_key.clone(),
                    input_path.clone(),
                ),
            ),
            _ => None,
        }
    }

    /// Whether `message` is what the office runner is sent in this step: the
    /// input file and the output file.
    pub open spec fn sends(self, message: ConvertMessage) -> bool {
        self matches ConvertStep::RunOffice { input_path, output_path, .. } && message.input_path@
            == input_path@ && message.output_path@ == output_path@
    }

    /// What the office runner is sent in this step, if it is sent anything.
    pub fn message(&self) -> (res: Option<ConvertMessage>)
        ensures
            res is Some == self is RunOffice,
            res matches Some(message) ==> self.sends(message),
    {
        match self {
            ConvertStep::RunOffice { input_path, output_path, .. } => Some(
                ConvertMessage {
                    input_path: input_path.clone(),
                    output_path: output_path.clone(),
                },
            ),
            _ => None,
        }
    }

    /// Whether `first` is the first step of the inspection that this step asks
    /// for: of the input file.
    pub open spec fn starts_inspection<E>(self, first: ConditionStep<E>) -> bool {
        self matches ConvertStep::InspectInput { input_path, .. } && (
        first matches ConditionStep::OpenFile(path) && path@ == input_path@)
    }

    /// The first step of the inspection that this step asks for, if it asks for
    /// one.
    pub fn inspection<E>(&self) -> (res: Option<ConditionStep<E>>)
        ensures
            res is Some == self is InspectInput,
            res matches Some(first) ==> self.starts_inspection(first),
    {
        match self {
            ConvertStep::InspectInput { input_path, .. } => Some(
                determine_input_file_condition(input_path.clone()),
            ),
            _ => None,
        }
    }

    /// Whether `first` is the first step of the upload that this step asks for:
    /// from the output file to where the request says.
    pub open spec fn starts_output(self, first: OutputStep) -> bool {
        self matches ConvertStep::StoreOutput { dest_bucket, dest_key, output_path } && (
        first matches OutputStep::OpenFile { bucket, key, file_path } && bucket == dest_bucket
            && key == dest_key && file_path@ == output_path@)
    }

    /// The first step of the upload that this step asks for, if it asks for one.
    pub fn output(&self) -> (res: Option<OutputStep>)
        ensures
            res is Some == self is StoreOutput,
            res matches Some(first) ==> self.starts_output(first),
    {
        match self {
            ConvertStep::StoreOutput { dest_bucket, dest_key, output_path } => Some(
                stream_output_file(dest_bucket.clone(), dest_key.clone(), output_path.clone()),
            ),
            _ => None,
        }
    }
}

/// Converts the file that a request names, by way of the local files
/// `input_path` and `output_path`: the first step
pub fn convert(request: ConvertRequest, input_path: PathParts, output_path: PathParts) -> (step:
    ConvertStep)
    ensures
        step == (ConvertStep::FetchSource { request, input_path, output_path }),
{
    ConvertStep::FetchSource { request, input_path, output_path }
}

/// Whether `steps` is a run of a conversion from its first step on, answered
/// by `replies`.
pub open spec fn is_convert_run(
    request: ConvertRequest,
    input_path: PathParts,
    output_path: PathParts,
    steps: Seq<ConvertStep>,
    replies: Seq<ConvertReply>,
) -> bool {
    &&& steps.len() == replies.len() + 1
    &&& steps[0] == (ConvertStep::FetchSource { request, input_path, output_path })
    &&& forall|i: int|
        #![trigger replies[i]]
        0 <= i < replies.len() ==> steps[i].expects(replies[i]) && steps[i].leads_to(
            replies[i],
            steps[i + 1],
        )
}

/// The steps of a conversion one by one, as far as it goes.
proof fn lemma_convert_run(
    request: ConvertRequest,
    input_path: PathParts,
    output_path: PathParts,
    steps: Seq<ConvertStep>,
    replies: Seq<ConvertReply>,
)
    requires
        is_convert_run(request, input_path, output_path, steps, replies),
    ensures
        replies.len() <= 3,
        replies.len() > 0 ==> steps[0].expects(replies[0]) && steps[0].leads_to(
            replies[0],
            steps[1],
        ),
        replies.len() > 1 ==> steps[1].expects(replies[1]) && steps[1].leads_to(
            replies[1],
            steps[2],
        ),
        replies.len() > 2 ==> steps[2].expects(replies[2]) && steps[2].leads_to(
            replies[2],
            steps[3],
        ),
{
    if replies.len() > 3 {
        // Naming a reply brings in what is known of the step that it answers
        let (first, second) = (replies[0], replies[1]);
        let (third, fourth) = (replies[2], replies[3]);
        assert(steps[3].expects(fourth));
    }
}

/// A conversion succeeds exactly where the source was fetched, LibreOffice
/// converted it, and the output was stored.
pub proof fn law_conversion_succeeds(
    request: ConvertRequest,
    input_path: PathParts,
    output_path: PathParts,
    steps: Seq<ConvertStep>,
    replies: Seq<ConvertReply>,
)
    requires
        is_convert_run(request, input_path, output_path, steps, replies),
    ensures
        steps.last() == ConvertStep::Done(Ok(())) <==> {
            &&& replies.len() == 3
            &&& replies[0] matches ConvertReply::SourceFetched(Ok(_))
            &&& replies[1] matches ConvertReply::OfficeReplied(Ok(Ok(_)))
            &&& replies[2] matches ConvertReply::OutputStored(Ok(_))
        },
{
    lemma_convert_run(request, input_path, output_path, steps, replies);
}

/// The file that is fetched is the one that LibreOffice converts and that is
/// inspected where it does not; what LibreOffice is told to write is what is
/// stored.
pub proof fn law_works_on_the_given_files(
    request: ConvertRequest,
    input_path: PathParts,
    output_path: PathParts,
    steps: Seq<ConvertStep>,
    replies: Seq<ConvertReply>,
    i: int,
)
    requires
        is_convert_run(request, input_path, output_path, steps, replies),
        0 <= i < steps.len(),
    ensures
        match steps[i] {
            ConvertStep::FetchSource { request: asked, input_path: input, output_path: output } =>
                asked == request && input == input_path && output == output_path,
            ConvertStep::RunOffice { dest_bucket, dest_key, input_path: input, output_path: output } =>
                dest_bucket == request.dest_bucket && dest_key == request.dest_key && input
                    == input_path && output == output_path,
            ConvertStep::InspectInput { input_path: input, error } => input == input_path,
            ConvertStep::StoreOutput { dest_bucket, dest_key, output_path: output } => dest_bucket
                == request.dest_bucket && dest_key == request.dest_key && output == output_path,
            ConvertStep::Done(_) => true,
        },
{
    lemma_convert_run(request, input_path, output_path, steps, replies);
}

/// Only what LibreOffice converted is stored: the file that it was told to
/// write, where the request says.
pub proof fn law_stores_only_converted_files(
    request: ConvertRequest,
    input_path: PathParts,
    output_path: PathParts,
    steps: Seq<ConvertStep>,
    replies: Seq<ConvertReply>,
    i: int,
)
    requires
        is_convert_run(request, input_path, output_path, steps, replies),
        0 <= i < steps.len(),
        steps[i] is StoreOutput,
    ensures
        i == 2,
        steps[1] == (ConvertStep::RunOffice {
            dest_bucket: request.dest_bucket,
            dest_key: request.dest_key,
            input_path,
            output_path,
        }),
        replies[1] matches ConvertReply::OfficeReplied(Ok(Ok(_))),
        steps[2] == (ConvertStep::StoreOutput {
            dest_bucket: request.dest_bucket,
            dest_key: request.dest_key,
            output_path,
        }),
{
    lemma_convert_run(request, input_path, output_path, steps, replies);
}

/// A conversion that LibreOffice refused is reported as such: protected,
/// damaged or failed, by what LibreOffice said and by the condition of the
/// file; or as unreadable where the file could not be read again.
pub proof fn law_refused_conversion_is_reported(
    request: ConvertRequest,
    input_path: PathParts,
    output_path: PathParts,
    steps: Seq<ConvertStep>,
    replies: Seq<ConvertReply>,
    refusal: OfficeConvertError,
)
    requires
        is_convert_run(request, input_path, output_path, steps, replies),
        replies.len() == 3,
        replies[1] == ConvertReply::OfficeReplied(Ok(Err(refusal))),
    ensures
        replies[2] matches ConvertReply::InputInspected(inspected) && (match inspected {
            Ok(condition) => steps.last() matches ConvertStep::Done(Err(report)) && reported_as(
                refusal.message_text(),
                condition,
                report,
            ),
            Err(_) => steps.last() == ConvertStep::Done(Err(LambdaError::ReadFileIntegrity)),
        }),
{
    lemma_convert_run(request, input_path, output_path, steps, replies);
}

/// How long a conversion may take in nanoseconds, given the configured number
/// of seconds; none where what is configured is no number.
pub open spec fn configured_timeout(value: Option<String>) -> Option<nat> {
    match value {
        None => Some(crate::client::seconds(60)),
        Some(value) => match text::number(value@) {
            Some(secs) => Some(crate::client::seconds(secs)),
            None => None,
        },
    }
}

/// Whether a result is the configured timeout, or the error where there is none.
pub open spec fn is_timeout(value: Option<String>, result: Result<Duration, LambdaError>) -> bool {
    match result {
        Ok(timeout) => configured_timeout(value) == Some(timeout@),
        Err(error) => configured_timeout(value) is None
            && error is InvalidConvertTimeoutSeconds,
    }
}

/// How long a conversion may take, given the configured number of seconds:
/// one minute unless configured.
pub fn convert_timeout(value: Option<String>) -> (res: Result<Duration, LambdaError>)
    ensures
        is_timeout(value, res),
{
    match value {
        None => Ok(Duration::from_secs(60)),
        Some(value) => match text::parse_number(value.as_str()) {
            Some(secs) => Ok(Duration::from_secs(secs)),
            None => Err(LambdaError::InvalidConvertTimeoutSeconds),
        },
    }
}

/// What to do next to have what requests are served with.
#[derive(Debug)]
pub enum DependencyStep {
    /// Look for an office install
    FindInstall,
    /// Make the path of the office install absolute
    MakeAbsolute(PathParts),
    /// Start the office runner
    StartRunner(PathParts),
    /// Read the configured timeout
    ReadTimeout,
    /// Nothing: requests can be served with this timeout, or they cannot
    Done(Result<Duration, LambdaError>),
}

/// How a step went.
#[derive(Debug)]
pub enum DependencyReply {
    /// The office install that was found, if one was
    InstallFound(Option<PathParts>),
    /// The absolute path, or none
    Absolute(Result<PathParts, ()>),
    /// The office runner was started, or not
    RunnerStarted(Result<(), OfficeRunnerError>),
    /// The configured timeout, if one is configured
    TimeoutRead(Option<String>),
}

impl DependencyStep {
    /// Whether a reply answers this step.
    pub open spec fn expects(self, reply: DependencyReply) -> bool {
        match self {
            DependencyStep::FindInstall => reply is InstallFound,
            DependencyStep::MakeAbsolute(_) => reply is Absolute,
            DependencyStep::StartRunner(_) => reply is RunnerStarted,
            DependencyStep::ReadTimeout => reply is TimeoutRead,
            DependencyStep::Done(_) => false,
        }
    }

    /// Whether set-up ends with this step because of an error.
    pub open spec fn fails_with(self, error: LambdaError) -> bool {
        self == DependencyStep::Done(Err(error))
    }

    /// Whether `next` is the step that a reply calls for.
    pub open spec fn leads_to(self, reply: DependencyReply, next: DependencyStep) -> bool {
        match reply {
            DependencyReply::InstallFound(Some(path)) => next == DependencyStep::MakeAbsolute(path),
            DependencyReply::InstallFound(None) => next.fails_with(LambdaError::OfficePathMissing),
            DependencyReply::Absolute(Ok(path)) => next == DependencyStep::StartRunner(path),
            DependencyReply::Absolute(Err(_)) => next.fails_with(LambdaError::OfficePathAbsolute),
            DependencyReply::RunnerStarted(Ok(_)) => next is ReadTimeout,
            DependencyReply::RunnerStarted(Err(_)) => next.fails_with(
                LambdaError::InitializeOffice,
            ),
            DependencyReply::TimeoutRead(value) => next matches DependencyStep::Done(result)
                && is_timeout(value, result),
        }
    }

    /// The step after this one.
    pub fn resume(self, reply: DependencyReply) -> (next: DependencyStep)
        requires
            self.expects(reply),
        ensures
            self.leads_to(reply, next),
    {
        match reply {
            DependencyReply::InstallFound(Some(path)) => DependencyStep::MakeAbsolute(path),
            DependencyReply::InstallFound(None) => DependencyStep::Done(
                Err(LambdaError::OfficePathMissing),
            ),
            DependencyReply::Absolute(Ok(path)) => DependencyStep::StartRunner(path),
            DependencyReply::Absolute(Err(_)) => DependencyStep::Done(
                Err(LambdaError::OfficePathAbsolute),
            ),
            DependencyReply::RunnerStarted(Ok(_)) => DependencyStep::ReadTimeout,
            DependencyReply::RunnerStarted(Err(_)) => DependencyStep::Done(
                Err(LambdaError::InitializeOffice),
            ),
            DependencyReply::TimeoutRead(value) => DependencyStep::Done(convert_timeout(value)),
        }
    }
}

/// Sets up what requests are served with, given the configured path of the
/// office install: the first step
pub fn dependencies(office_path: Option<PathParts>) -> (step: DependencyStep)
    ensures
        step == match office_path {
            Some(path) => DependencyStep::MakeAbsolute(path),
            // Fall back to automatic detection when not provided
            None => DependencyStep::FindInstall,
        },
{
    match office_path {
        Some(path) => DependencyStep::MakeAbsolute(path),
        None => DependencyStep::FindInstall,
    }
}

/// Whether `steps` is a run of the set-up from its first step on, answered by
/// `replies`.
pub open spec fn is_dependency_run(
    office_path: Option<PathParts>,
    steps: Seq<DependencyStep>,
    replies: Seq<DependencyReply>,
) -> bool {
    &&& steps.len() == replies.len() + 1
    &&& steps[0] == match office_path {
        Some(path) => DependencyStep::MakeAbsolute(path),
        None => DependencyStep::FindInstall,
    }
    &&& forall|i: int|
        #![trigger replies[i]]
        0 <= i < replies.len() ==> steps[i].expects(replies[i]) && steps[i].leads_to(
            replies[i],
            steps[i + 1],
        )
}

/// The steps of the set-up one by one, as far as it goes.
proof fn lemma_dependency_run(
    office_path: Option<PathParts>,
    steps: Seq<DependencyStep>,
    replies: Seq<DependencyReply>,
)
    requires
        is_dependency_run(office_path, steps, replies),
    ensures
        replies.len() <= if office_path is Some { 3int } else { 4int },
        replies.len() > 0 ==> steps[0].expects(replies[0]) && steps[0].leads_to(
            replies[0],
            steps[1],
        ),
        replies.len() > 1 ==> steps[1].expects(replies[1]) && steps[1].leads_to(
            replies[1],
            steps[2],
        ),
        replies.len() > 2 ==> steps[2].expects(replies[2]) && steps[2].leads_to(
            replies[2],
            steps[3],
        ),
        replies.len() > 3 ==> steps[3].expects(replies[3]) && steps[3].leads_to(
            replies[3],
            steps[4],
        ),
{
    // Naming a reply brings in what is known of the step that it answers
    let (first, second, third) = (replies[0], replies[1], replies[2]);
    let (fourth, fifth) = (replies[3], replies[4]);
    if replies.len() > 4 {
        assert(steps[4].expects(fifth));
    } else if replies.len() > 3 && office_path is Some {
        assert(steps[3].expects(fourth));
    }
}

/// Requests are served only where the office runner was started, with the
/// absolute form of the configured path, or of the one that was found where
/// none is configured; and with the configured timeout.
pub proof fn law_ready_means_runner_started(
    office_path: Option<PathParts>,
    steps: Seq<DependencyStep>,
    replies: Seq<DependencyReply>,
    timeout: Duration,
)
    requires
        is_dependency_run(office_path, steps, replies),
        steps.last() == DependencyStep::Done(Ok(timeout)),
    ensures
        ({
            let n = replies.len() as int;
            &&& n == if office_path is Some { 3int } else { 4int }
            &&& office_path is None ==> (replies[0] matches DependencyReply::InstallFound(Some(path))
                && steps[1] == DependencyStep::MakeAbsolute(path))
            &&& replies[n - 3] matches DependencyReply::Absolute(Ok(path)) && steps[n - 2]
                == DependencyStep::StartRunner(path)
            &&& replies[n - 2] matches DependencyReply::RunnerStarted(Ok(_))
            &&& replies[n - 1] matches DependencyReply::TimeoutRead(value) && configured_timeout(
                value,
            ) == Some(timeout@)
        }),
{
    lemma_dependency_run(office_path, steps, replies);
}

/// What to do next to serve a request.
#[derive(Debug)]
pub enum HandleStep {
    /// Set up what requests are served with
    InitDependencies(ConvertRequest),
    /// Set up the directory for temporary files
    SetupTempDir { request: ConvertRequest, timeout: Duration },
    /// Set up the paths of the temporary files in a directory
    SetupTempPaths { request: ConvertRequest, timeout: Duration, temp_dir: PathParts },
    /// Convert the file, for no longer than the timeout
    Convert {
        request: ConvertRequest,
        timeout: Duration,
        input_path: PathParts,
        output_path: PathParts,
    },
    /// Start to clear the temporary files away, in the background
    Cleanup { input_path: PathParts, output_path: PathParts },
    /// Abort the process, so that the next request gets a new one
    Abort,
    /// Nothing: the request is served, or not
    Done(Result<(), LambdaError>),
}

/// How a step went.
#[derive(Debug)]
pub enum HandleReply {
    /// What requests are served with is set up, with the timeout, or not
    DependenciesReady(Result<Duration, LambdaError>),
    /// The directory for temporary files
    TempDirReady(Result<PathParts, LambdaError>),
    /// The paths of the input and of the output, or none
    TempPathsReady(Result<(PathParts, PathParts), ()>),
    /// How the conversion went
    Converted(Result<(), LambdaError>),
    /// The conversion did not end before the timeout
    TimedOut,
    /// Clearing away was started
    CleanupStarted,
}

impl HandleStep {
    /// Whether a reply answers this step.
    pub open spec fn expects(self, reply: HandleReply) -> bool {
        match self {
            HandleStep::InitDependencies(_) => reply is DependenciesReady,
            HandleStep::SetupTempDir { .. } => reply is TempDirReady,
            HandleStep::SetupTempPaths { .. } => reply is TempPathsReady,
            HandleStep::Convert { .. } => reply is Converted || reply is TimedOut,
            HandleStep::Cleanup { .. } => reply is CleanupStarted,
            HandleStep::Abort => false,
            HandleStep::Done(_) => false,
        }
    }

    /// The step after this one.
    pub open spec fn after(self, reply: HandleReply) -> HandleStep {
        match (self, reply) {
            (_, HandleReply::DependenciesReady(Err(error))) => HandleStep::Done(Err(error)),
            (_, HandleReply::TempDirReady(Err(error))) => HandleStep::Done(Err(error)),
            (_, HandleReply::TempPathsReady(Err(_))) => HandleStep::Done(
                Err(LambdaError::SetupTempPathFailed),
            ),
            (_, HandleReply::Converted(Err(error))) => HandleStep::Done(Err(error)),
            (_, HandleReply::TimedOut) => HandleStep::Abort,
            (
                HandleStep::InitDependencies(request),
                HandleReply::DependenciesReady(Ok(timeout)),
            ) => HandleStep::SetupTempDir { request, timeout },
            (
                HandleStep::SetupTempDir { request, timeout },
                HandleReply::TempDirReady(Ok(temp_dir)),
            ) => HandleStep::SetupTempPaths { request, timeout, temp_dir },
            (
                HandleStep::SetupTempPaths { request, timeout, temp_dir },
                HandleReply::TempPathsReady(Ok((input_path, output_path))),
            ) => HandleStep::Convert { request, timeout, input_path, output_path },
            (
                HandleStep::Convert { request, timeout, input_path, output_path },
                HandleReply::Converted(Ok(_)),
            ) => HandleStep::Cleanup { input_path, output_path },
            (_, HandleReply::CleanupStarted) => HandleStep::Done(Ok(())),
            _ => self,
        }
    }

    /// The step after this one.
    pub fn resume(self, reply: HandleReply) -> (next: HandleStep)
        requires
            self.expects(reply),
        ensures
            next == self.after(reply),
    {
        match (self, reply) {
            (_, HandleReply::DependenciesReady(Err(error))) => HandleStep::Done(Err(error)),
            (_, HandleReply::TempDirReady(Err(error))) => HandleStep::Done(Err(error)),
            (_, HandleReply::TempPathsReady(Err(_))) => HandleStep::Done(
                Err(LambdaError::SetupTempPathFailed),
            ),
            (_, HandleReply::Converted(Err(error))) => HandleStep::Done(Err(error)),
            (_, HandleReply::TimedOut) => HandleStep::Abort,
            (
                HandleStep::InitDependencies(request),
                HandleReply::DependenciesReady(Ok(timeout)),
            ) => HandleStep::SetupTempDir { request, timeout },
            (
                HandleStep::SetupTempDir { request, timeout },
                HandleReply::TempDirReady(Ok(temp_dir)),
            ) => HandleStep::SetupTempPaths { request, timeout, temp_dir },
            (
                HandleStep::SetupTempPaths { request, timeout, temp_dir },
                HandleReply::TempPathsReady(Ok((input_path, output_path))),
            ) => HandleStep::Convert { request, timeout, input_path, output_path },
            (
                HandleStep::Convert { request, timeout, input_path, output_path },
                HandleReply::Converted(Ok(_)),
            ) => HandleStep::Cleanup { input_path, output_path },
            (_, HandleReply::CleanupStarted) => HandleStep::Done(Ok(())),
            (step, _) => step,
        }
    }
}

/// Another copy of a request.
fn copied(request: &ConvertRequest) -> (res: ConvertRequest)
    ensures
        res == *request,
{
    ConvertRequest {
        source_bucket: request.source_bucket.clone(),
        source_key: request.source_key.clone(),
        dest_bucket: request.dest_bucket.clone(),
        dest_key: request.dest_key.clone(),
    }
}

impl HandleStep {
    /// Whether `first` is the first step of the conversion that this step asks
    /// for: of the request, by way of the input file and the output file.
    pub open spec fn starts_conversion(self, first: ConvertStep) -> bool {
        self matches HandleStep::Convert { request, timeout, input_path, output_path } && (
        first matches ConvertStep::FetchSource { request: asked, input_path: input, output_path: output }
            && asked == request && input@ == input_path@ && output@ == output_path@)
    }

    /// The first step of the conversion that this step asks for, if it asks for
    /// one.
    pub fn conversion(&self) -> (res: Option<ConvertStep>)
        ensures
            res is Some == self is Convert,
            res matches Some(first) ==> self.starts_conversion(first),
    {
        match self {
            HandleStep::Convert { request, input_path, output_path, .. } => Some(
                convert(copied(request), input_path.clone(), output_path.clone()),
            ),
            _ => None,
        }
    }

    /// Whether `first` is the first step of the clearing away that this step
    /// asks for.
    pub open spec fn starts_cleanup(self, first: CleanupStep) -> bool {
        self matches HandleStep::Cleanup { input_path, output_path } && (
        first matches CleanupStep::CheckInput { input, output } && input@ == input_path@ && output@
            == output_path@)
    }

    /// The first step of the clearing away that this step asks for, if it asks
    /// for one.
    pub fn clearing(&self) -> (res: Option<CleanupStep>)
        ensures
            res is Some == self is Cleanup,
            res matches Some(first) ==> self.starts_cleanup(first),
    {
        match self {
            HandleStep::Cleanup { input_path, output_path } => Some(
                cleanup(input_path.clone(), output_path.clone()),
            ),
            _ => None,
        }
    }
}

/// The first step of serving a request that reads, or does not read, where
/// `ready` is the timeout that the process was set up with, if it was.
pub open spec fn handling_starts(
    parsed: Result<ConvertRequest, String>,
    ready: Option<Duration>,
) -> HandleStep {
    match (parsed, ready) {
        (Err(text), _) => HandleStep::Done(Err(LambdaError::ParseRequest(text))),
        (Ok(request), None) => HandleStep::InitDependencies(request),
        (Ok(request), Some(timeout)) => HandleStep::SetupTempDir { request, timeout },
    }
}

/// Serves a request, or says why it does not read: the first step. What
/// requests are served with is set up unless it was before in this process;
/// `ready` is the timeout that came of it.
pub fn handle_request(parsed: Result<ConvertRequest, String>, ready: Option<Duration>) -> (step:
    HandleStep)
    ensures
        step == handling_starts(parsed, ready),
{
    match parsed {
        Err(text) => HandleStep::Done(Err(LambdaError::ParseRequest(text))),
        Ok(request) => match ready {
            None => HandleStep::InitDependencies(request),
            Some(timeout) => HandleStep::SetupTempDir { request, timeout },
        },
    }
}

/// The answer to a request that was served.
#[derive(Debug)]
pub struct Output {
    pub success: bool,
}

/// The answer to a request: success where it was served, and the reason and
/// the message of the error where it was not.
pub fn function_handler(result: Result<(), LambdaError>) -> (res: Result<
    Output,
    LambdaErrorResponse,
>)
    ensures
        match result {
            Ok(_) => res matches Ok(output) && output.success,
            Err(error) => res matches Err(response) && response@ == error@,
        },
{
    match result {
        Ok(_) => Ok(Output { success: true }),
        Err(error) => Err(LambdaErrorResponse::from(error)),
    }
}

/// Whether `steps` is a run of serving a request from its first step on,
/// answered by `replies`.
pub open spec fn is_handle_run(
    parsed: Result<ConvertRequest, String>,
    ready: Option<Duration>,
    steps: Seq<HandleStep>,
    replies: Seq<HandleReply>,
) -> bool {
    &&& steps.len() == replies.len() + 1
    &&& steps[0] == handling_starts(parsed, ready)
    &&& forall|i: int|
        #![trigger replies[i]]
        0 <= i < replies.len() ==> steps[i].expects(replies[i]) && steps[i + 1] == steps[i].after(
            replies[i],
        )
}

/// The error that a reply brings, if it brings one.
pub open spec fn failure(reply: HandleReply) -> Option<LambdaError> {
    match reply {
        HandleReply::DependenciesReady(Err(error)) => Some(error),
        HandleReply::TempDirReady(Err(error)) => Some(error),
        HandleReply::TempPathsReady(Err(_)) => Some(LambdaError::SetupTempPathFailed),
        HandleReply::Converted(Err(error)) => Some(error),
        _ => None,
    }
}

/// The steps of serving a request one by one, as far as it goes.
proof fn lemma_handle_run(
    parsed: Result<ConvertRequest, String>,
    ready: Option<Duration>,
    steps: Seq<HandleStep>,
    replies: Seq<HandleReply>,
)
    requires
        is_handle_run(parsed, ready, steps, replies),
    ensures
        parsed is Err ==> replies.len() == 0,
        replies.len() <= if ready is Some { 4int } else { 5int },
        replies.len() > 0 ==> steps[0].expects(replies[0]) && steps[1] == steps[0].after(
            replies[0],
        ),
        replies.len() > 1 ==> steps[1].expects(replies[1]) && steps[2] == steps[1].after(
            replies[1],
        ),
        replies.len() > 2 ==> steps[2].expects(replies[2]) && steps[3] == steps[2].after(
            replies[2],
        ),
        replies.len() > 3 ==> steps[3].expects(replies[3]) && steps[4] == steps[3].after(
            replies[3],
        ),
        replies.len() > 4 ==> steps[4].expects(replies[4]) && steps[5] == steps[4].after(
            replies[4],
        ),
{
    // Naming a reply brings in what is known of the step that it answers
    let (first, second, third) = (replies[0], replies[1], replies[2]);
    let (fourth, fifth, sixth) = (replies[3], replies[4], replies[5]);
    if replies.len() > 5 {
        assert(steps[5].expects(sixth));
    } else if replies.len() > 4 && ready is Some {
        assert(steps[4].expects(fifth));
    }
}

/// A request that does not read is answered with what is wrong with it, and
/// nothing is done about it.
pub proof fn law_unreadable_request_is_refused(
    text: String,
    ready: Option<Duration>,
    steps: Seq<HandleStep>,
    replies: Seq<HandleReply>,
)
    requires
        is_handle_run(Err(text), ready, steps, replies),
    ensures
        steps == seq![HandleStep::Done(Err(LambdaError::ParseRequest(text)))],
{
    lemma_handle_run(Err(text), ready, steps, replies);
}

/// A request that reads and is not served is answered with the first error
/// that came up: all went well before it, and nothing is done after it.
pub proof fn law_first_error_is_answered(
    request: ConvertRequest,
    ready: Option<Duration>,
    steps: Seq<HandleStep>,
    replies: Seq<HandleReply>,
    error: LambdaError,
)
    requires
        is_handle_run(Ok(request), ready, steps, replies),
        steps.last() == HandleStep::Done(Err(error)),
    ensures
        replies.len() > 0,
        failure(replies.last()) == Some(error),
        forall|i: int| 0 <= i < replies.len() - 1 ==> failure(#[trigger] replies[i]) is None,
{
    lemma_handle_run(Ok(request), ready, steps, replies);
}

/// A request is answered with success exactly where its file was converted
/// in time and clearing its temporary files away was started.
pub proof fn law_success_means_converted(
    request: ConvertRequest,
    ready: Option<Duration>,
    steps: Seq<HandleStep>,
    replies: Seq<HandleReply>,
)
    requires
        is_handle_run(Ok(request), ready, steps, replies),
    ensures
        steps.last() == HandleStep::Done(Ok(())) <==> {
            let n = replies.len() as int;
            &&& n == if ready is Some { 4int } else { 5int }
            &&& ready is None ==> (replies[0] matches HandleReply::DependenciesReady(Ok(_)))
            &&& replies[n - 4] matches HandleReply::TempDirReady(Ok(_))
            &&& replies[n - 3] matches HandleReply::TempPathsReady(Ok(_))
            &&& replies[n - 2] matches HandleReply::Converted(Ok(_))
            &&& replies[n - 1] is CleanupStarted
        },
{
    lemma_handle_run(Ok(request), ready, steps, replies);
}

/// A conversion is made for the request of the caller, with the files that
/// were set up for it, and is given the timeout that the process was set up
/// with.
pub proof fn law_converts_what_was_set_up(
    request: ConvertRequest,
    ready: Option<Duration>,
    steps: Seq<HandleStep>,
    replies: Seq<HandleReply>,
    i: int,
)
    requires
        is_handle_run(Ok(request), ready, steps, replies),
        0 <= i < steps.len(),
    ensures
        steps[i] matches HandleStep::Convert {
            request: asked,
            timeout,
            input_path,
            output_path,
        } ==> {
            &&& asked == request
            &&& match ready {
                Some(before) => timeout == before,
                None => replies[0] == HandleReply::DependenciesReady(Ok(timeout)),
            }
            &&& i > 0
            &&& replies[i - 1] == HandleReply::TempPathsReady(Ok((input_path, output_path)))
        },
{
    lemma_handle_run(Ok(request), ready, steps, replies);
}

/// The temporary files that are cleared away are those that the conversion
/// used, and they are cleared away only after it succeeded.
pub proof fn law_cleans_up_what_was_converted(
    request: ConvertRequest,
    ready: Option<Duration>,
    steps: Seq<HandleStep>,
    replies: Seq<HandleReply>,
    i: int,
)
    requires
        is_handle_run(Ok(request), ready, steps, replies),
        0 <= i < steps.len(),
    ensures
        steps[i] matches HandleStep::Cleanup { input_path: input, output_path: output } ==> i > 0 && (
        steps[i - 1] matches HandleStep::Convert { input_path, output_path, .. } && input_path
            == input && output_path == output) && (replies[i - 1] matches HandleReply::Converted(
            Ok(_),
        )),
{
    lemma_handle_run(Ok(request), ready, steps, replies);
}

/// The process is aborted exactly where a conversion does not end in time.
pub proof fn law_aborts_on_timeout(
    request: ConvertRequest,
    ready: Option<Duration>,
    steps: Seq<HandleStep>,
    replies: Seq<HandleReply>,
)
    requires
        is_handle_run(Ok(request), ready, steps, replies),
    ensures
        steps.last() is Abort <==> replies.len() > 0 && replies.last() is TimedOut,
{
    lemma_handle_run(Ok(request), ready, steps, replies);
}

/// A request and how it was served, as far as that went.
pub struct Serving {
    pub parsed: Result<ConvertRequest, String>,
    pub steps: Seq<HandleStep>,
    pub replies: Seq<HandleReply>,
}

impl Serving {
    /// The timeout that the process was set up with while this request was
    /// served, if it was.
    pub open spec fn set_up(self) -> Option<Duration> {
        if self.replies.len() > 0 {
            match self.replies[0] {
                HandleReply::DependenciesReady(Ok(timeout)) => Some(timeout),
                _ => None,
            }
        } else {
            None
        }
    }
}

/// The timeout that the process was set up with while these requests were
/// served one after the other, if it was. A set-up that succeeded is kept, and
/// one that failed is not.
pub open spec fn kept(servings: Seq<Serving>) -> Option<Duration>
    decreases servings.len(),
{
    if servings.len() == 0 {
        None
    } else {
        match kept(servings.drop_last()) {
            Some(timeout) => Some(timeout),
            None => servings.last().set_up(),
        }
    }
}

/// Whether requests are served one after the other in one process: each with
/// the set-up that was kept of those before it.
pub open spec fn is_process(servings: Seq<Serving>) -> bool {
    forall|k: int|
        #![trigger servings[k]]
        0 <= k < servings.len() ==> is_handle_run(
            servings[k].parsed,
            kept(servings.take(k)),
            servings[k].steps,
            servings[k].replies,
        )
}

/// What was kept stays.
proof fn lemma_kept_stays(servings: Seq<Serving>, j: int, k: int)
    requires
        0 <= j <= k <= servings.len(),
        kept(servings.take(j)) is Some,
    ensures
        kept(servings.take(k)) == kept(servings.take(j)),
    decreases k - j,
{
    if j < k {
        lemma_kept_stays(servings, j, k - 1);
        assert(servings.take(k).drop_last() == servings.take(k - 1));
    }
}

/// Once the process was set up while a request was served, that set-up is the
/// one that is kept for every later request.
pub proof fn law_first_set_up_is_kept(servings: Seq<Serving>, j: int, k: int, timeout: Duration)
    requires
        is_process(servings),
        0 <= j < k <= servings.len(),
        servings[j].set_up() == Some(timeout),
    ensures
        kept(servings.take(k)) == Some(timeout),
{
    let former = servings[j];
    let ready = kept(servings.take(j));
    if ready is Some {
        lemma_ready_needs_no_set_up(former, ready, 0);
    }
    assert(servings.take(j + 1).drop_last() == servings.take(j));
    assert(servings.take(j + 1).last() == former);
    lemma_kept_stays(servings, j + 1, k);
}

/// Once the process was set up while a request was served, no later request
/// sets it up again, and every later conversion is given the timeout of that
/// set-up.
pub proof fn law_set_up_is_kept(
    servings: Seq<Serving>,
    j: int,
    k: int,
    timeout: Duration,
    i: int,
)
    requires
        is_process(servings),
        0 <= j < k < servings.len(),
        servings[j].set_up() == Some(timeout),
        0 <= i < servings[k].steps.len(),
    ensures
        !(servings[k].steps[i] is InitDependencies),
        servings[k].set_up() is None,
        servings[k].steps[i] matches HandleStep::Convert { timeout: given, .. } ==> given
            == timeout,
{
    law_first_set_up_is_kept(servings, j, k, timeout);
    let later = servings[k];
    lemma_ready_needs_no_set_up(later, Some(timeout), i);
    lemma_ready_sets_timeout(later, timeout, i);
}

/// Where the process was set up before, every step that bears a timeout bears
/// the one of that set-up.
proof fn lemma_ready_sets_timeout(serving: Serving, before: Duration, i: int)
    requires
        is_handle_run(serving.parsed, Some(before), serving.steps, serving.replies),
        0 <= i < serving.steps.len(),
    ensures
        !(serving.steps[i] is InitDependencies),
        match serving.steps[i] {
            HandleStep::SetupTempDir { timeout, .. } => timeout == before,
            HandleStep::SetupTempPaths { timeout, .. } => timeout == before,
            HandleStep::Convert { timeout, .. } => timeout == before,
            _ => true,
        },
    decreases i,
{
    if i > 0 {
        lemma_ready_sets_timeout(serving, before, i - 1);
        let reply = serving.replies[i - 1];
        assert(serving.steps[i - 1].expects(reply));
        assert(serving.steps[i] == serving.steps[i - 1].after(reply));
    }
}

/// Where the process was set up before, it is not set up again.
proof fn lemma_ready_needs_no_set_up(serving: Serving, ready: Option<Duration>, i: int)
    requires
        is_handle_run(serving.parsed, ready, serving.steps, serving.replies),
        ready is Some,
        0 <= i < serving.steps.len(),
    ensures
        !(serving.steps[i] is InitDependencies),
        serving.set_up() is None,
    decreases i,
{
    if serving.replies.len() > 0 {
        assert(serving.steps[0].expects(serving.replies[0]));
    }
    if i > 0 {
        lemma_ready_needs_no_set_up(serving, ready, i - 1);
        let reply = serving.replies[i - 1];
        assert(serving.steps[i] == serving.steps[i - 1].after(reply));
    }
}

/// A request that reads sets the process up where no request before it did.
/// Where that fails, the request is answered with the error as it came, and the
/// failure is not kept: the next request that reads tries again.
pub proof fn law_failed_set_up_is_tried_again(servings: Seq<Serving>, k: int)
    requires
        is_process(servings),
        0 <= k < servings.len(),
        forall|j: int| 0 <= j < k ==> (#[trigger] servings[j]).set_up() is None,
    ensures
        servings[k].parsed matches Ok(request) ==> servings[k].steps[0]
            == HandleStep::InitDependencies(request),
        servings[k].replies.len() > 0 ==> (
        servings[k].replies[0] matches HandleReply::DependenciesReady(Err(error)) ==> {
            &&& servings[k].steps.len() == 2
            &&& servings[k].steps[1] == HandleStep::Done(Err(error))
            &&& servings[k].set_up() is None
            &&& k + 1 < servings.len() ==> (servings[k + 1].parsed matches Ok(request)
                ==> servings[k + 1].steps[0] == HandleStep::InitDependencies(request))
        }),
{
    let serving = servings[k];
    lemma_nothing_kept(servings, k);
    lemma_handle_run(serving.parsed, kept(servings.take(k)), serving.steps, serving.replies);
    assert(servings.take(k + 1).drop_last() == servings.take(k));
    if k + 1 < servings.len() {
        let next = servings[k + 1];
        lemma_handle_run(next.parsed, kept(servings.take(k + 1)), next.steps, next.replies);
    }
}

/// Nothing is kept where no request set the process up.
proof fn lemma_nothing_kept(servings: Seq<Serving>, k: int)
    requires
        0 <= k <= servings.len(),
        forall|j: int| 0 <= j < k ==> (#[trigger] servings[j]).set_up() is None,
    ensures
        kept(servings.take(k)) is None,
    decreases k,
{
    if k > 0 {
        lemma_nothing_kept(servings, k - 1);
        assert(servings.take(k).drop_last() == servings.take(k - 1));
        assert(servings.take(k).last() == servings[k - 1]);
    }
}

/// A conversion that failed is reported as protected where LibreOffice spoke of
/// an unsupported URL or the file looks protected; else as damaged where
/// LibreOffice got no document or the file looks damaged; else in the words of
/// LibreOffice.
pub proof fn law_failures_are_told_apart(
    message: Seq<char>,
    condition: FileCondition,
    error: LambdaError,
)
    requires
        reported_as(message, condition, error),
    ensures
        ({
            let locked = text::occurs(message, "Unsupported URL"@) || condition
                == FileCondition::LikelyEncrypted;
            let damaged = text::occurs(
                message,
                "loadComponentFromURL returned an empty reference"@,
            ) || condition == FileCondition::LikelyCorrupted;
            &&& error is FileLikelyEncrypted <==> locked
            &&& error is FileLikelyCorrupted <==> damaged && !locked
            &&& !locked && !damaged ==> (error matches LambdaError::ConvertFailed(said) && said@
                == message)
        }),
{
}

/// A step of a conversion takes every reply of its own kind, and no other.
pub proof fn law_conversion_takes_replies(step: ConvertStep, reply: ConvertReply)
    ensures
        step.expects(reply) <==> {
            ||| step is FetchSource && reply is SourceFetched
            ||| step is RunOffice && reply is OfficeReplied
            ||| step is InspectInput && reply is InputInspected
            ||| step is StoreOutput && reply is OutputStored
        },
{
}

/// A source that was fetched is converted, whatever it is; what was converted
/// is stored; and what was stored ends the conversion with success.
pub proof fn law_conversion_goes_on(
    request: ConvertRequest,
    input_path: PathParts,
    output_path: PathParts,
    steps: Seq<ConvertStep>,
    replies: Seq<ConvertReply>,
    i: int,
)
    requires
        is_convert_run(request, input_path, output_path, steps, replies),
        0 <= i < replies.len(),
    ensures
        replies[i] matches ConvertReply::SourceFetched(Ok(_)) ==> steps[i + 1] == (
        ConvertStep::RunOffice {
            dest_bucket: request.dest_bucket,
            dest_key: request.dest_key,
            input_path,
            output_path,
        }),
        replies[i] matches ConvertReply::OfficeReplied(Ok(Ok(_))) ==> steps[i + 1] == (
        ConvertStep::StoreOutput {
            dest_bucket: request.dest_bucket,
            dest_key: request.dest_key,
            output_path,
        }),
        replies[i] matches ConvertReply::OutputStored(Ok(_)) ==> steps[i + 1] == ConvertStep::Done(
            Ok(()),
        ),
{
    law_works_on_the_given_files(request, input_path, output_path, steps, replies, i);
    let reply = replies[i];
    assert(steps[i].expects(reply) && steps[i].leads_to(reply, steps[i + 1]));
}

/// Whatever LibreOffice says against a file, the input file is inspected next,
/// and what it said is kept for the report.
pub proof fn law_refused_file_is_inspected(
    request: ConvertRequest,
    input_path: PathParts,
    output_path: PathParts,
    steps: Seq<ConvertStep>,
    replies: Seq<ConvertReply>,
    i: int,
    refusal: OfficeConvertError,
)
    requires
        is_convert_run(request, input_path, output_path, steps, replies),
        0 <= i < replies.len(),
        replies[i] == ConvertReply::OfficeReplied(Ok(Err(refusal))),
    ensures
        i == 1,
        steps[2] == (ConvertStep::InspectInput { input_path, error: refusal }),
{
    lemma_convert_run(request, input_path, output_path, steps, replies);
    law_works_on_the_given_files(request, input_path, output_path, steps, replies, i);
    let reply = replies[i];
    assert(steps[i].expects(reply) && steps[i].leads_to(reply, steps[i + 1]));
}

/// A conversion ends with the first error, as it came; where the file that was
/// refused cannot be read, it ends with that.
pub proof fn law_conversion_ends_with_the_first_error(
    request: ConvertRequest,
    input_path: PathParts,
    output_path: PathParts,
    steps: Seq<ConvertStep>,
    replies: Seq<ConvertReply>,
    i: int,
)
    requires
        is_convert_run(request, input_path, output_path, steps, replies),
        0 <= i < replies.len(),
    ensures
        replies[i] matches ConvertReply::SourceFetched(Err(error)) ==> steps[i + 1]
            == ConvertStep::Done(Err(error)),
        replies[i] matches ConvertReply::OfficeReplied(Err(error)) ==> steps[i + 1]
            == ConvertStep::Done(Err(error)),
        replies[i] matches ConvertReply::OutputStored(Err(error)) ==> steps[i + 1]
            == ConvertStep::Done(Err(error)),
        replies[i] matches ConvertReply::InputInspected(Err(_)) ==> steps[i + 1]
            == ConvertStep::Done(Err(LambdaError::ReadFileIntegrity)),
{
    let reply = replies[i];
    assert(steps[i].expects(reply) && steps[i].leads_to(reply, steps[i + 1]));
}

/// A conversion fails only where something failed: the source could not be
/// fetched, the office runner not be asked, the output not be stored, with that
/// very error; or LibreOffice refused the file, and its inspection decides what
/// that is reported as.
pub proof fn law_conversion_fails_only_by_a_failure(
    request: ConvertRequest,
    input_path: PathParts,
    output_path: PathParts,
    steps: Seq<ConvertStep>,
    replies: Seq<ConvertReply>,
    error: LambdaError,
)
    requires
        is_convert_run(request, input_path, output_path, steps, replies),
        steps.last() == ConvertStep::Done(Err(error)),
    ensures
        replies.len() > 0,
        match replies.last() {
            ConvertReply::SourceFetched(Err(cause)) => error == cause,
            ConvertReply::OfficeReplied(Err(cause)) => error == cause,
            ConvertReply::OutputStored(Err(cause)) => error == cause,
            ConvertReply::InputInspected(Err(_)) => error is ReadFileIntegrity,
            ConvertReply::InputInspected(Ok(condition)) => replies.len() == 3 && (
            replies[1] matches ConvertReply::OfficeReplied(Ok(Err(refusal))) && reported_as(
                refusal.message_text(),
                condition,
                error,
            )),
            _ => false,
        },
{
    lemma_convert_run(request, input_path, output_path, steps, replies);
}

/// What a conversion hands down is what it was asked for: the transfer fetches
/// the source of the request to the input file, LibreOffice gets the input file
/// and the output file, the input file is inspected, and the upload puts the
/// output file where the request says.
pub proof fn law_conversion_hands_down_what_it_was_asked<E>(
    request: ConvertRequest,
    error: OfficeConvertError,
    input_path: PathParts,
    output_path: PathParts,
    source: SourceStep,
    message: ConvertMessage,
    inspection: ConditionStep<E>,
    output: OutputStep,
)
    ensures
        (ConvertStep::FetchSource { request, input_path, output_path }).starts_source(source) <==> (
        source matches SourceStep::GetObject { bucket, key, file_path } && bucket
            == request.source_bucket && key == request.source_key && file_path@ == input_path@),
        (ConvertStep::RunOffice {
            dest_bucket: request.dest_bucket,
            dest_key: request.dest_key,
            input_path,
            output_path,
        }).sends(message) <==> message.input_path@ == input_path@ && message.output_path@
            == output_path@,
        (ConvertStep::InspectInput { input_path, error }).starts_inspection(inspection) <==> (
        inspection matches ConditionStep::OpenFile(opened) && opened@ == input_path@),
        (ConvertStep::StoreOutput {
            dest_bucket: request.dest_bucket,
            dest_key: request.dest_key,
            output_path,
        }).starts_output(output) <==> (
        output matches OutputStep::OpenFile { bucket, key, file_path } && bucket
            == request.dest_bucket && key == request.dest_key && file_path@ == output_path@),
{
}

/// What serving a request hands down is what it was asked for: the conversion
/// of the request by way of the files that were set up, and the clearing away of
/// those files.
pub proof fn law_serving_hands_down_what_it_was_asked(
    request: ConvertRequest,
    timeout: Duration,
    input_path: PathParts,
    output_path: PathParts,
    conversion: ConvertStep,
    clearing: CleanupStep,
)
    ensures
        (HandleStep::Convert { request, timeout, input_path, output_path }).starts_conversion(
            conversion,
        ) <==> (conversion matches ConvertStep::FetchSource {
            request: asked,
            input_path: input,
            output_path: output,
        } && asked == request && input@ == input_path@ && output@ == output_path@),
        (HandleStep::Cleanup { input_path, output_path }).starts_cleanup(clearing) <==> (
        clearing matches CleanupStep::CheckInput { input, output } && input@ == input_path@
            && output@ == output_path@),
{
}

/// A conversion may take a minute, or as many seconds as the configured number
/// says; what is no number is refused.
pub proof fn law_timeout_is_configured(value: String, result: Result<Duration, LambdaError>)
    ensures
        is_timeout(None, result) <==> (result matches Ok(timeout) && timeout@ == 60_000_000_000),
        is_timeout(Some(value), result) <==> match text::number(value@) {
            Some(secs) => result matches Ok(timeout) && timeout@ == secs as nat * 1_000_000_000,
            None => result matches Err(error) && error is InvalidConvertTimeoutSeconds,
        },
{
}

/// The set-up takes every reply of the kind that was asked for.
pub proof fn law_set_up_takes_replies(step: DependencyStep, reply: DependencyReply)
    ensures
        step.expects(reply) <==> {
            ||| step is FindInstall && reply is InstallFound
            ||| step is MakeAbsolute && reply is Absolute
            ||| step is StartRunner && reply is RunnerStarted
            ||| step is ReadTimeout && reply is TimeoutRead
        },
{
}

/// The set-up goes on as long as nothing fails, with what was found: the path
/// of the install is made absolute, the runner is started with that, and the
/// timeout is read; each failure ends it with its own error.
pub proof fn law_set_up_goes_on(
    office_path: Option<PathParts>,
    steps: Seq<DependencyStep>,
    replies: Seq<DependencyReply>,
    i: int,
)
    requires
        is_dependency_run(office_path, steps, replies),
        0 <= i < replies.len(),
    ensures
        match replies[i] {
            DependencyReply::InstallFound(Some(found)) => steps[i + 1]
                == DependencyStep::MakeAbsolute(found),
            DependencyReply::InstallFound(None) => steps[i + 1] == DependencyStep::Done(
                Err(LambdaError::OfficePathMissing),
            ),
            DependencyReply::Absolute(Ok(full)) => steps[i + 1] == DependencyStep::StartRunner(
                full,
            ),
            DependencyReply::Absolute(Err(_)) => steps[i + 1] == DependencyStep::Done(
                Err(LambdaError::OfficePathAbsolute),
            ),
            DependencyReply::RunnerStarted(Ok(_)) => steps[i + 1] is ReadTimeout,
            DependencyReply::RunnerStarted(Err(_)) => steps[i + 1] == DependencyStep::Done(
                Err(LambdaError::InitializeOffice),
            ),
            DependencyReply::TimeoutRead(None) => steps[i + 1] matches DependencyStep::Done(
                Ok(timeout),
            ) && timeout@ == 60_000_000_000,
            DependencyReply::TimeoutRead(Some(value)) => match text::number(value@) {
                Some(secs) => steps[i + 1] matches DependencyStep::Done(Ok(timeout)) && timeout@
                    == secs as nat * 1_000_000_000,
                None => steps[i + 1] == DependencyStep::Done(
                    Err(LambdaError::InvalidConvertTimeoutSeconds),
                ),
            },
        },
        steps[0] == match office_path {
            Some(configured) => DependencyStep::MakeAbsolute(configured),
            None => DependencyStep::FindInstall,
        },
{
    let reply = replies[i];
    assert(steps[i].expects(reply) && steps[i].leads_to(reply, steps[i + 1]));
}

/// Serving a request takes every reply of the kind that was asked for.
pub proof fn law_serving_takes_replies(step: HandleStep, reply: HandleReply)
    ensures
        step.expects(reply) <==> {
            ||| step is InitDependencies && reply is DependenciesReady
            ||| step is SetupTempDir && reply is TempDirReady
            ||| step is SetupTempPaths && reply is TempPathsReady
            ||| step is Convert && (reply is Converted || reply is TimedOut)
            ||| step is Cleanup && reply is CleanupStarted
        },
{
}

/// A request is served from what was set up on: what does not read is refused
/// with what is wrong with it, and a process that was set up is not set up
/// again.
pub proof fn law_serving_starts(
    request: ConvertRequest,
    text: String,
    timeout: Duration,
    ready: Option<Duration>,
)
    ensures
        handling_starts(Ok(request), None) == HandleStep::InitDependencies(request),
        handling_starts(Ok(request), Some(timeout)) == (HandleStep::SetupTempDir {
            request,
            timeout,
        }),
        handling_starts(Err(text), ready) == HandleStep::Done(
            Err(LambdaError::ParseRequest(text)),
        ),
{
}

/// Serving a request goes on as long as nothing fails, with what came before:
/// the request and the timeout are carried along, the directory is the one that
/// the paths are set up in, the paths are the ones that are converted between,
/// and they are the ones that are cleared away in the end.
pub proof fn law_serving_goes_on(
    parsed: Result<ConvertRequest, String>,
    ready: Option<Duration>,
    steps: Seq<HandleStep>,
    replies: Seq<HandleReply>,
    i: int,
)
    requires
        is_handle_run(parsed, ready, steps, replies),
        0 <= i < replies.len(),
    ensures
        replies[i] matches HandleReply::DependenciesReady(Ok(given)) ==> (
        steps[i] matches HandleStep::InitDependencies(asked) && steps[i + 1] == (
        HandleStep::SetupTempDir { request: asked, timeout: given })),
        replies[i] matches HandleReply::TempDirReady(Ok(dir)) ==> (
        steps[i] matches HandleStep::SetupTempDir { request, timeout } && steps[i + 1] == (
        HandleStep::SetupTempPaths { request, timeout, temp_dir: dir })),
        replies[i] matches HandleReply::TempPathsReady(Ok(files)) ==> (
        steps[i] matches HandleStep::SetupTempPaths { request, timeout, .. } && steps[i + 1] == (
        HandleStep::Convert { request, timeout, input_path: files.0, output_path: files.1 })),
        replies[i] matches HandleReply::Converted(Ok(_)) ==> (
        steps[i] matches HandleStep::Convert { input_path, output_path, .. } && steps[i + 1] == (
        HandleStep::Cleanup { input_path, output_path })),
        replies[i] is CleanupStarted ==> steps[i + 1] == HandleStep::Done(Ok(())),
{
    let reply = replies[i];
    assert(steps[i].expects(reply));
}

/// Serving a request ends with the first error, as it came, and is aborted where
/// the conversion takes too long.
pub proof fn law_serving_ends_with_the_first_error(
    parsed: Result<ConvertRequest, String>,
    ready: Option<Duration>,
    steps: Seq<HandleStep>,
    replies: Seq<HandleReply>,
    i: int,
)
    requires
        is_handle_run(parsed, ready, steps, replies),
        0 <= i < replies.len(),
    ensures
        replies[i] matches HandleReply::DependenciesReady(Err(error)) ==> steps[i + 1]
            == HandleStep::Done(Err(error)),
        replies[i] matches HandleReply::TempDirReady(Err(error)) ==> steps[i + 1]
            == HandleStep::Done(Err(error)),
        replies[i] matches HandleReply::TempPathsReady(Err(_)) ==> steps[i + 1] == HandleStep::Done(
            Err(LambdaError::SetupTempPathFailed),
        ),
        replies[i] matches HandleReply::Converted(Err(error)) ==> steps[i + 1] == HandleStep::Done(
            Err(error),
        ),
        replies[i] is TimedOut ==> steps[i + 1] is Abort,
{
    let reply = replies[i];
    assert(steps[i].expects(reply));
}

/// A request that reads is refused only where something failed, and with that
/// very error.
pub proof fn law_serving_fails_only_by_a_failure(
    request: ConvertRequest,
    ready: Option<Duration>,
    steps: Seq<HandleStep>,
    replies: Seq<HandleReply>,
    error: LambdaError,
)
    requires
        is_handle_run(Ok(request), ready, steps, replies),
        steps.last() == HandleStep::Done(Err(error)),
    ensures
        replies.len() > 0,
        match replies.last() {
            HandleReply::DependenciesReady(Err(cause)) => error == cause,
            HandleReply::TempDirReady(Err(cause)) => error == cause,
            HandleReply::TempPathsReady(Err(_)) => error is SetupTempPathFailed,
            HandleReply::Converted(Err(cause)) => error == cause,
            _ => false,
        },
{
    let n = replies.len() - 1;
    let reply = replies[n];
    assert(steps[n].expects(reply));
    law_serving_goes_on(Ok(request), ready, steps, replies, n);
    law_serving_ends_with_the_first_error(Ok(request), ready, steps, replies, n);
}

/// A request that was served is answered with success, and any other with the
/// code and the description of its error.
pub proof fn law_requests_are_answered(
    served: Result<(), LambdaError>,
    answer: Result<Output, LambdaErrorResponse>,
)
    requires
        call_ensures(function_handler, (served,), answer),
    ensures
        served is Ok <==> answer is Ok,
        answer matches Ok(output) ==> output.success,
        served matches Err(error) ==> (answer matches Err(response) && response.reason@
            == error@.reason && response.message@ == error@.message),
{
}

/// Serving, converting and setting up start with what was asked for, and every
/// step is followed by one that its reply calls for.
pub proof fn law_serving_starts_and_follows(
    parsed: Result<ConvertRequest, String>,
    ready: Option<Duration>,
    first: HandleStep,
    step: HandleStep,
    reply: HandleReply,
    next: HandleStep,
    asking: &HandleStep,
    conversion: Option<ConvertStep>,
    clearing: Option<CleanupStep>,
)
    requires
        call_ensures(handle_request, (parsed, ready), first),
        call_ensures(HandleStep::resume, (step, reply), next),
        call_ensures(HandleStep::conversion, (asking,), conversion),
        call_ensures(HandleStep::clearing, (asking,), clearing),
    ensures
        first == handling_starts(parsed, ready),
        next == step.after(reply),
        asking is Convert <==> conversion is Some,
        conversion matches Some(begun) ==> asking.starts_conversion(begun),
        asking is Cleanup <==> clearing is Some,
        clearing matches Some(begun) ==> asking.starts_cleanup(begun),
{
}

/// A conversion starts with what was asked for, every step is followed by one
/// that its reply calls for, and what it hands down it was asked for.
pub proof fn law_conversion_starts_and_follows<E>(
    request: ConvertRequest,
    input_path: PathParts,
    output_path: PathParts,
    first: ConvertStep,
    step: ConvertStep,
    reply: ConvertReply,
    next: ConvertStep,
    asking: &ConvertStep,
    source: Option<SourceStep>,
    message: Option<ConvertMessage>,
    inspection: Option<ConditionStep<E>>,
    output: Option<OutputStep>,
)
    requires
        call_ensures(convert, (request, input_path, output_path), first),
        call_ensures(ConvertStep::resume, (step, reply), next),
        call_ensures(ConvertStep::source, (asking,), source),
        call_ensures(ConvertStep::message, (asking,), message),
        call_ensures(ConvertStep::inspection::<E>, (asking,), inspection),
        call_ensures(ConvertStep::output, (asking,), output),
    ensures
        first == (ConvertStep::FetchSource { request, input_path, output_path }),
        step.leads_to(reply, next),
        asking is FetchSource <==> source is Some,
        source matches Some(begun) ==> asking.starts_source(begun),
        asking is RunOffice <==> message is Some,
        message matches Some(message) ==> asking.sends(message),
        asking is InspectInput <==> inspection is Some,
        inspection matches Some(begun) ==> asking.starts_inspection(begun),
        asking is StoreOutput <==> output is Some,
        output matches Some(begun) ==> asking.starts_output(begun),
{
}

/// The set-up starts with the configured install, or by looking for one; every
/// step is followed by one that its reply calls for; and timeouts and reports
/// are as configured and as said.
pub proof fn law_set_up_starts_and_follows(
    office_path: Option<PathParts>,
    first: DependencyStep,
    step: DependencyStep,
    reply: DependencyReply,
    next: DependencyStep,
    value: Option<String>,
    timeout: Result<Duration, LambdaError>,
    message: String,
    condition: FileCondition,
    report: LambdaError,
)
    requires
        call_ensures(dependencies, (office_path,), first),
        call_ensures(DependencyStep::resume, (step, reply), next),
        call_ensures(convert_timeout, (value,), timeout),
        call_ensures(conversion_error, (message, condition), report),
    ensures
        office_path matches Some(configured) ==> first == DependencyStep::MakeAbsolute(configured),
        office_path is None ==> first is FindInstall,
        step.leads_to(reply, next),
        is_timeout(value, timeout),
        reported_as(message@, condition, report),
{
}

} // verus!
