//! Running LibreOffice.
//!
//! The office runner, and each conversion that it makes, is a sequence of
//! steps. A step says what to do next; doing it gives a reply, and the reply
//! decides the next step.

use crate::error::LambdaError;
use crate::path;
use crate::path::{PartView, PathParts};
use vstd::prelude::*;

verus! {

/// Why the office runner did not start.
#[derive(Debug, Clone)]
pub enum OfficeRunnerError {
    /// Error within LibreOffice; the text says which
    OfficeError(String),
    /// Error starting the runner task
    TaskClosed,
}

/// Why a file was not converted.
#[derive(Debug, Clone)]
pub enum OfficeConvertError {
    /// Error within LibreOffice; the text says which
    OfficeError(String),
    /// LibreOffice did not write the converted file
    ConvertFailure,
}

impl OfficeRunnerError {
    /// The description of an error.
    pub open spec fn message_text(self) -> Seq<char> {
        match self {
            OfficeRunnerError::OfficeError(text) => text@,
            OfficeRunnerError::TaskClosed => "office runner task closed unexpectedly"@,
        }
    }

    /// The description of this error.
    pub fn message(&self) -> (res: String)
        ensures
            res@ == self.message_text(),
    {
        match self {
            OfficeRunnerError::OfficeError(text) => text.clone(),
            OfficeRunnerError::TaskClosed => "office runner task closed unexpectedly".to_owned(),
        }
    }
}

impl OfficeConvertError {
    /// The description of an error.
    pub open spec fn message_text(self) -> Seq<char> {
        match self {
            OfficeConvertError::OfficeError(text) => text@,
            OfficeConvertError::ConvertFailure => "failed to convert file"@,
        }
    }

    /// The description of this error.
    pub fn message(&self) -> (res: String)
        ensures
            res@ == self.message_text(),
    {
        match self {
            OfficeConvertError::OfficeError(text) => text.clone(),
            OfficeConvertError::ConvertFailure => "failed to convert file".to_owned(),
        }
    }
}

/// Whether a path that is written down like this starts at the root.
pub open spec fn starts_at_root(path: Seq<u8>) -> bool {
    path.len() > 0 && path[0] == 47
}

/// The URL under which LibreOffice finds the file whose absolute path is
/// written down like this, as `DocUrl::from_path` of the crate `libreofficekit`
/// writes it.
pub uninterp spec fn document_url(path: Seq<u8>) -> Seq<char>;

/// The URL under which LibreOffice finds the file with an absolute path.
pub open spec fn url_of(path: Seq<PartView>) -> Seq<char> {
    document_url(path::path_bytes(path))
}

/// Whether a result is one that asking for the URL of a file can give: an
/// absolute path has its URL, and only a relative one may have none.
pub open spec fn is_url_for(path: Seq<PartView>, result: Result<String, String>) -> bool {
    match result {
        Ok(url) => path::is_absolute(path) ==> url@ == url_of(path),
        Err(_) => !path::is_absolute(path),
    }
}

/// `DocUrl::from_path` of the crate `libreofficekit` turns the path of a file
/// into the URL that LibreOffice takes; `Display` shows the URL. The path is
/// handed over as text, with a replacement character where its bytes are none,
/// which is how the function reads every path. An absolute
/// path, which on the Unix systems that this is for starts with a slash, always
/// has one, and it depends on the path alone. A relative path is read in the
/// working directory of the process, so of it nothing is claimed. Where there
/// is no URL the text of the error is handed back.
#[verifier::external_body]
fn doc_url_from_path(path: &Vec<u8>) -> (res: Result<String, String>)
    ensures
        match res {
            Ok(url) => starts_at_root(path@) ==> url@ == document_url(path@),
            Err(_) => !starts_at_root(path@),
        },
{
    match libreofficekit::DocUrl::from_path(String::from_utf8_lossy(path).into_owned()) {
        Ok(url) => Ok(url.to_string()),
        Err(error) => Err(error.to_string()),
    }
}

/// The URL under which LibreOffice finds a file, if it has one.
fn file_url(path: &PathParts) -> (res: Result<String, String>)
    ensures
        is_url_for(path@, res),
{
    proof {
        if path::is_absolute(path@) {
            path::lemma_absolute_bytes(path@);
        }
    }
    doc_url_from_path(&path.bytes())
}

/// What to do next to convert a document.
#[derive(Debug)]
pub enum DocumentStep {
    /// Load the document under `url`, with `options`
    Load { url: String, options: &'static str, output_url: String },
    /// Save the document that was loaded under `url`, in `format`
    Save { url: String, format: &'static str },
    /// Nothing: the document is converted, or not
    Done(Result<(), OfficeConvertError>),
}

/// How a step went.
#[derive(Debug)]
pub enum DocumentReply {
    /// The document was loaded, or the error of LibreOffice
    Loaded(Result<(), String>),
    /// Whether the document was saved, or the error of LibreOffice
    Saved(Result<bool, String>),
}

impl DocumentStep {
    /// Whether a reply answers this step.
    pub open spec fn expects(self, reply: DocumentReply) -> bool {
        match self {
            DocumentStep::Load { .. } => reply is Loaded,
            DocumentStep::Save { .. } => reply is Saved,
            DocumentStep::Done(_) => false,
        }
    }

    /// The step after this one.
    pub open spec fn after(self, reply: DocumentReply) -> DocumentStep {
        match (self, reply) {
            (_, DocumentReply::Loaded(Err(text))) => DocumentStep::Done(
                Err(OfficeConvertError::OfficeError(text)),
            ),
            (_, DocumentReply::Saved(Err(text))) => DocumentStep::Done(
                Err(OfficeConvertError::OfficeError(text)),
            ),
            (
                DocumentStep::Load { url, options, output_url },
                DocumentReply::Loaded(Ok(_)),
            ) => DocumentStep::Save { url: output_url, format: "pdf" },
            (_, DocumentReply::Saved(Ok(saved))) => if saved {
                DocumentStep::Done(Ok(()))
            } else {
                DocumentStep::Done(Err(OfficeConvertError::ConvertFailure))
            },
            _ => self,
        }
    }

    /// The step after this one.
    pub fn resume(self, reply: DocumentReply) -> (next: DocumentStep)
        requires
            self.expects(reply),
        ensures
            next == self.after(reply),
    {
        match (self, reply) {
            (_, DocumentReply::Loaded(Err(text))) => DocumentStep::Done(
                Err(OfficeConvertError::OfficeError(text)),
            ),
            (_, DocumentReply::Saved(Err(text))) => DocumentStep::Done(
                Err(OfficeConvertError::OfficeError(text)),
            ),
            (
                DocumentStep::Load { url, options, output_url },
                DocumentReply::Loaded(Ok(_)),
            ) => DocumentStep::Save { url: output_url, format: "pdf" },
            (_, DocumentReply::Saved(Ok(saved))) => if saved {
                DocumentStep::Done(Ok(()))
            } else {
                DocumentStep::Done(Err(OfficeConvertError::ConvertFailure))
            },
            (step, _) => step,
        }
    }
}

/// The first step of a conversion with these URLs: the document is loaded from
/// the first and will be saved to the second, unless one of them is missing.
pub open spec fn opens(
    input: Result<String, String>,
    output: Result<String, String>,
    step: DocumentStep,
) -> bool {
    match (input, output) {
        (Err(text), _) => step == DocumentStep::Done(Err(OfficeConvertError::OfficeError(text))),
        (Ok(_), Err(text)) => step == DocumentStep::Done(
            Err(OfficeConvertError::OfficeError(text)),
        ),
        (Ok(url), Ok(output_url)) => step == (DocumentStep::Load {
            url,
            options: "InteractionHandler=0,Batch=1",
            output_url,
        }),
    }
}

/// The first step of a conversion with these URLs.
pub fn open_document(input: Result<String, String>, output: Result<String, String>) -> (step:
    DocumentStep)
    ensures
        opens(input, output, step),
{
    match (input, output) {
        (Err(text), _) => DocumentStep::Done(Err(OfficeConvertError::OfficeError(text))),
        (Ok(_), Err(text)) => DocumentStep::Done(Err(OfficeConvertError::OfficeError(text))),
        (Ok(url), Ok(output_url)) => DocumentStep::Load {
            url,
            options: "InteractionHandler=0,Batch=1",
            output_url,
        },
    }
}

/// Whether `step` is the first one of converting the document at one path into
/// PDF format at another. Where both paths are absolute, the document is loaded
/// from the URL of the first and will be saved to the URL of the second.
pub open spec fn starts_conversion(
    temp_in: Seq<PartView>,
    temp_out: Seq<PartView>,
    step: DocumentStep,
) -> bool {
    &&& exists|input: Result<String, String>, output: Result<String, String>|
        is_url_for(temp_in, input) && is_url_for(temp_out, output) && #[trigger] opens(
            input,
            output,
            step,
        )
    &&& path::is_absolute(temp_in) && path::is_absolute(temp_out) ==> (
    step matches DocumentStep::Load { url, options, output_url } && url@ == url_of(temp_in)
        && options@ == "InteractionHandler=0,Batch=1"@ && output_url@ == url_of(temp_out))
}

/// Converts the document at one path into PDF format at another: the first
/// step
pub fn convert_document(temp_in: &PathParts, temp_out: &PathParts) -> (step: DocumentStep)
    ensures
        starts_conversion(temp_in@, temp_out@, step),
{
    let input: Result<String, String> = file_url(temp_in);
    let output: Result<String, String> = file_url(temp_out);
    let step: DocumentStep = open_document(input, output);
    assert(opens(input, output, step));
    step
}

/// A file for the office runner to convert.
#[derive(Debug)]
pub struct ConvertMessage {
    /// Input file path
    pub input_path: PathParts,
    /// Output file path
    pub output_path: PathParts,
}

/// What to do next to run LibreOffice.
#[derive(Debug)]
pub enum RunnerStep {
    /// Create the office instance from its install path
    CreateOffice(PathParts),
    /// Have LibreOffice ask for passwords
    SetFeatures,
    /// Have LibreOffice report to [`on_callback`]
    RegisterCallback,
    /// Report that the runner has started
    ReportStarted,
    /// Wait for the next file to convert
    Receive,
    /// Convert a file
    Convert(ConvertMessage),
    /// Tell the sender of the file how its conversion went
    Reply { input_path: PathParts, result: Result<(), OfficeConvertError> },
    /// Report that the runner did not start
    ReportFailed(OfficeRunnerError),
    /// Nothing: the runner has stopped
    Stopped,
}

/// How a step went.
#[derive(Debug)]
pub enum RunnerReply {
    /// The office instance was created, or the error of LibreOffice
    OfficeCreated(Result<(), String>),
    /// The features were set, or the error of LibreOffice
    FeaturesSet(Result<(), String>),
    /// The callback was registered, or the error of LibreOffice
    CallbackRegistered(Result<(), String>),
    /// The start, or the failure to start, was reported
    Reported,
    /// A file to convert, or none where no more will come
    Received(Option<ConvertMessage>),
    /// How the conversion went
    Converted(Result<(), OfficeConvertError>),
    /// The sender of the file was told
    Replied,
}

impl RunnerStep {
    /// Whether a reply answers this step.
    pub open spec fn expects(self, reply: RunnerReply) -> bool {
        match self {
            RunnerStep::CreateOffice(_) => reply is OfficeCreated,
            RunnerStep::SetFeatures => reply is FeaturesSet,
            RunnerStep::RegisterCallback => reply is CallbackRegistered,
            RunnerStep::ReportStarted => reply is Reported,
            RunnerStep::Receive => reply is Received,
            RunnerStep::Convert(_) => reply is Converted,
            RunnerStep::Reply { .. } => reply is Replied,
            RunnerStep::ReportFailed(_) => reply is Reported,
            RunnerStep::Stopped => false,
        }
    }

    /// The step after this one: LibreOffice is set up and the start reported,
    /// or the first failure; then files are converted one by one, each sender
    /// is told, until no more will come.
    pub open spec fn after(self, reply: RunnerReply) -> RunnerStep {
        match (self, reply) {
            (_, RunnerReply::OfficeCreated(Ok(_))) => RunnerStep::SetFeatures,
            (_, RunnerReply::OfficeCreated(Err(text))) => RunnerStep::ReportFailed(
                OfficeRunnerError::OfficeError(text),
            ),
            (_, RunnerReply::FeaturesSet(Ok(_))) => RunnerStep::RegisterCallback,
            (_, RunnerReply::FeaturesSet(Err(text))) => RunnerStep::ReportFailed(
                OfficeRunnerError::OfficeError(text),
            ),
            (_, RunnerReply::CallbackRegistered(Ok(_))) => RunnerStep::ReportStarted,
            (_, RunnerReply::CallbackRegistered(Err(text))) => RunnerStep::ReportFailed(
                OfficeRunnerError::OfficeError(text),
            ),
            (RunnerStep::ReportStarted, RunnerReply::Reported) => RunnerStep::Receive,
            (_, RunnerReply::Reported) => RunnerStep::Stopped,
            (_, RunnerReply::Received(Some(message))) => RunnerStep::Convert(message),
            (_, RunnerReply::Received(None)) => RunnerStep::Stopped,
            (RunnerStep::Convert(message), RunnerReply::Converted(result)) => RunnerStep::Reply {
                input_path: message.input_path,
                result,
            },
            (_, RunnerReply::Replied) => RunnerStep::Receive,
            _ => self,
        }
    }

    /// The file that is being converted in this step: the one that LibreOffice
    /// asks about when it asks for a password.
    pub open spec fn input_in_hand(self) -> Option<PathParts> {
        match self {
            RunnerStep::Convert(message) => Some(message.input_path),
            RunnerStep::Reply { input_path, .. } => Some(input_path),
            _ => None,
        }
    }

    /// The file that is being converted in this step.
    pub fn current_input(&self) -> (res: Option<&PathParts>)
        ensures
            match res {
                Some(input) => self.input_in_hand() == Some(*input),
                None => self.input_in_hand() is None,
            },
    {
        match self {
            RunnerStep::Convert(message) => Some(&message.input_path),
            RunnerStep::Reply { input_path, .. } => Some(input_path),
            _ => None,
        }
    }

    /// Whether `first` is the first step of the conversion that this step asks
    /// for.
    pub open spec fn starts_document(self, first: DocumentStep) -> bool {
        self matches RunnerStep::Convert(message) && starts_conversion(
            message.input_path@,
            message.output_path@,
            first,
        )
    }

    /// The first step of the conversion that this step asks for, if it asks for
    /// one.
    pub fn document(&self) -> (res: Option<DocumentStep>)
        ensures
            res is Some == self is Convert,
            res matches Some(first) ==> self.starts_document(first),
    {
        match self {
            RunnerStep::Convert(message) => Some(
                convert_document(&message.input_path, &message.output_path),
            ),
            _ => None,
        }
    }

    /// The step after this one.
    pub fn resume(self, reply: RunnerReply) -> (next: RunnerStep)
        requires
            self.expects(reply),
        ensures
            next == self.after(reply),
    {
        match (self, reply) {
            (_, RunnerReply::OfficeCreated(Ok(_))) => RunnerStep::SetFeatures,
            (_, RunnerReply::OfficeCreated(Err(text))) => RunnerStep::ReportFailed(
                OfficeRunnerError::OfficeError(text),
            ),
            (_, RunnerReply::FeaturesSet(Ok(_))) => RunnerStep::RegisterCallback,
            (_, RunnerReply::FeaturesSet(Err(text))) => RunnerStep::ReportFailed(
                OfficeRunnerError::OfficeError(text),
            ),
            (_, RunnerReply::CallbackRegistered(Ok(_))) => RunnerStep::ReportStarted,
            (_, RunnerReply::CallbackRegistered(Err(text))) => RunnerStep::ReportFailed(
                OfficeRunnerError::OfficeError(text),
            ),
            (RunnerStep::ReportStarted, RunnerReply::Reported) => RunnerStep::Receive,
            (_, RunnerReply::Reported) => RunnerStep::Stopped,
            (_, RunnerReply::Received(Some(message))) => RunnerStep::Convert(message),
            (_, RunnerReply::Received(None)) => RunnerStep::Stopped,
            (RunnerStep::Convert(message), RunnerReply::Converted(result)) => RunnerStep::Reply {
                input_path: message.input_path,
                result,
            },
            (_, RunnerReply::Replied) => RunnerStep::Receive,
            (step, _) => step,
        }
    }
}

/// Main event loop for an office runner: the first step
pub fn office_runner(office_path: PathParts) -> (step: RunnerStep)
    ensures
        step == RunnerStep::CreateOffice(office_path),
{
    RunnerStep::CreateOffice(office_path)
}

/// What starting the office runner comes to, given what it reported, or that
/// it went away without a report.
pub fn create_office_runner(report: Option<Result<(), OfficeRunnerError>>) -> (res: Result<
    (),
    OfficeRunnerError,
>)
    ensures
        res == match report {
            Some(result) => result,
            None => Err(OfficeRunnerError::TaskClosed),
        },
{
    match report {
        Some(result) => result,
        None => Err(OfficeRunnerError::TaskClosed),
    }
}

/// What asking the office runner to convert a file comes to: whether the file
/// could be handed over, and what the runner answered, if it did.
pub fn runner_answer(
    sent: bool,
    answer: Option<Result<(), OfficeConvertError>>,
) -> (res: Result<Result<(), OfficeConvertError>, LambdaError>)
    ensures
        res == if !sent {
            Err(LambdaError::RunOffice)
        } else {
            match answer {
                Some(result) => Ok(result),
                None => Err(LambdaError::ResponseError),
            }
        },
{
    if !sent {
        return Err(LambdaError::RunOffice);
    }
    match answer {
        Some(result) => Ok(result),
        None => Err(LambdaError::ResponseError),
    }
}

/// What LibreOffice calls back about.
#[derive(Debug, Clone, Copy, PartialEq, Eq, Structural)]
pub enum Callback {
    /// The document in hand is protected by a password
    DocumentPassword,
    /// LibreOffice wants to show a dialog
    JsDialog,
    /// Anything else
    Other,
}

/// What to do about a callback.
#[derive(Debug)]
pub enum CallbackAction {
    /// Nothing
    Ignore,
    /// Tell LibreOffice that there is no password for the document under a URL
    DeclinePassword { url: String },
    /// Note down the dialog that LibreOffice wants to show
    NoteDialog,
}

/// What a document that asks for a password calls for, given its URL.
pub open spec fn declines(url: Result<String, String>) -> CallbackAction {
    match url {
        Ok(url) => CallbackAction::DeclinePassword { url },
        Err(_) => CallbackAction::Ignore,
    }
}

/// What a document that asks for a password calls for, given its URL.
pub fn decline_password(url: Result<String, String>) -> (action: CallbackAction)
    ensures
        action == declines(url),
{
    match url {
        Ok(url) => CallbackAction::DeclinePassword { url },
        Err(_) => CallbackAction::Ignore,
    }
}

/// What a callback calls for while the file `current_input` is converted, or
/// none is: a document that asks for a password is told that there is none.
pub fn on_callback(callback: Callback, current_input: Option<&PathParts>) -> (action: CallbackAction)
    ensures
        match (callback, current_input) {
            (Callback::DocumentPassword, Some(input)) => exists|url: Result<String, String>|
                is_url_for(input@, url) && action == #[trigger] declines(url),
            (Callback::JsDialog, _) => action is NoteDialog,
            _ => action is Ignore,
        },
        callback is DocumentPassword ==> (current_input matches Some(input) ==> (
        path::is_absolute(input@) ==> (action matches CallbackAction::DeclinePassword { url }
            && url@ == url_of(input@)))),
{
    match callback {
        Callback::DocumentPassword => match current_input {
            Some(input) => {
                let url: Result<String, String> = file_url(input);
                let action: CallbackAction = decline_password(url);
                assert(action == declines(url));
                action
            },
            None => CallbackAction::Ignore,
        },
        Callback::JsDialog => CallbackAction::NoteDialog,
        Callback::Other => CallbackAction::Ignore,
    }
}

/// Whether `steps` is a run of the office runner from its first step on,
/// answered by `replies`.
pub open spec fn is_runner_run(steps: Seq<RunnerStep>, replies: Seq<RunnerReply>) -> bool {
    &&& steps.len() == replies.len() + 1
    &&& steps[0] is CreateOffice
    &&& forall|i: int|
        #![trigger replies[i]]
        0 <= i < replies.len() ==> steps[i].expects(replies[i]) && steps[i + 1] == steps[i].after(
            replies[i],
        )
}

/// How often the runner reported that it has started, or that it did not.
pub open spec fn reports(replies: Seq<RunnerReply>) -> nat
    decreases replies.len(),
{
    if replies.len() == 0 {
        0
    } else if replies.last() is Reported {
        reports(replies.drop_last()) + 1
    } else {
        reports(replies.drop_last())
    }
}

/// How the conversions went, in their order.
pub open spec fn results(replies: Seq<RunnerReply>) -> Seq<Result<(), OfficeConvertError>>
    decreases replies.len(),
{
    if replies.len() == 0 {
        Seq::empty()
    } else {
        let before = results(replies.drop_last());
        match replies.last() {
            RunnerReply::Converted(result) => before.push(result),
            _ => before,
        }
    }
}

/// The files that were received to convert, in their order.
pub open spec fn received(replies: Seq<RunnerReply>) -> Seq<ConvertMessage>
    decreases replies.len(),
{
    if replies.len() == 0 {
        Seq::empty()
    } else {
        let before = received(replies.drop_last());
        match replies.last() {
            RunnerReply::Received(Some(message)) => before.push(message),
            _ => before,
        }
    }
}

/// What senders were told, in that order, each with the file that it is about.
pub open spec fn told(
    steps: Seq<RunnerStep>,
    replies: Seq<RunnerReply>,
) -> Seq<(PathParts, Result<(), OfficeConvertError>)>
    decreases replies.len(),
{
    if replies.len() == 0 {
        Seq::empty()
    } else {
        let before = told(steps, replies.drop_last());
        match (steps[replies.len() - 1], replies.last()) {
            (RunnerStep::Reply { input_path, result }, RunnerReply::Replied) => before.push(
                (input_path, result),
            ),
            _ => before,
        }
    }
}

/// What was told depends on the steps that were answered alone.
proof fn lemma_told_ignores_end(
    steps: Seq<RunnerStep>,
    other: Seq<RunnerStep>,
    replies: Seq<RunnerReply>,
)
    requires
        forall|i: int| 0 <= i < replies.len() ==> steps[i] == other[i],
    ensures
        told(steps, replies) == told(other, replies),
    decreases replies.len(),
{
    if replies.len() > 0 {
        lemma_told_ignores_end(steps, other, replies.drop_last());
    }
}

/// Whether the first `n` senders were told how the conversions of their own
/// files went.
pub open spec fn answers_match(
    answers: Seq<(PathParts, Result<(), OfficeConvertError>)>,
    messages: Seq<ConvertMessage>,
    results: Seq<Result<(), OfficeConvertError>>,
) -> bool {
    &&& answers.len() <= messages.len()
    &&& answers.len() <= results.len()
    &&& forall|i: int|
        0 <= i < answers.len() ==> #[trigger] answers[i] == (messages[i].input_path, results[i])
}

/// What holds at every point of a run.
proof fn lemma_runner_run(steps: Seq<RunnerStep>, replies: Seq<RunnerReply>)
    requires
        is_runner_run(steps, replies),
    ensures
        ({
            let answers = told(steps, replies);
            let (messages, made) = (received(replies), results(replies));
            let n = answers.len();
            &&& answers_match(answers, messages, made)
            &&& match steps.last() {
                RunnerStep::Receive => reports(replies) == 1 && messages.len() == n && made.len()
                    == n,
                RunnerStep::Convert(message) => reports(replies) == 1 && messages.len() == n + 1
                    && made.len() == n && messages.last() == message,
                RunnerStep::Reply { input_path, result } => reports(replies) == 1 && messages.len()
                    == n + 1 && made.len() == n + 1 && messages.last().input_path == input_path
                    && made.last() == result,
                RunnerStep::Stopped => reports(replies) == 1 && messages.len() == n && made.len()
                    == n,
                _ => reports(replies) == 0 && messages.len() == n == made.len() == 0,
            }
        }),
    decreases replies.len(),
{
    if replies.len() > 0 {
        let n = replies.len() - 1;
        let fewer = steps.drop_last();
        let before = replies.drop_last();
        assert forall|i: int| #![trigger before[i]] 0 <= i < before.len() implies fewer[i].expects(
            before[i],
        ) && fewer[i + 1] == fewer[i].after(before[i]) by {
            assert(replies[i] == before[i]);
        }
        lemma_runner_run(fewer, before);
        lemma_told_ignores_end(steps, fewer, before);
        assert(steps[n].expects(replies[n]) && steps[n + 1] == steps[n].after(replies[n]));
        assert(fewer.last() == steps[n]);
    }
}

/// The runner reports once, before it takes the first file: that it has
/// started, or that it did not.
pub proof fn law_start_is_reported_once(steps: Seq<RunnerStep>, replies: Seq<RunnerReply>)
    requires
        is_runner_run(steps, replies),
    ensures
        reports(replies) <= 1,
        steps.last() is Receive || steps.last() is Convert || steps.last() is Reply
            || steps.last() is Stopped ==> reports(replies) == 1,
{
    lemma_runner_run(steps, replies);
}

/// The runner takes files only where the office instance was created, the
/// features were set and the callback was registered.
pub proof fn law_takes_files_only_when_set_up(steps: Seq<RunnerStep>, replies: Seq<RunnerReply>)
    requires
        is_runner_run(steps, replies),
        steps.last() is ReportStarted || steps.last() is Receive || steps.last() is Convert
            || steps.last() is Reply,
    ensures
        replies.len() >= 3,
        replies[0] matches RunnerReply::OfficeCreated(Ok(_)),
        replies[1] matches RunnerReply::FeaturesSet(Ok(_)),
        replies[2] matches RunnerReply::CallbackRegistered(Ok(_)),
{
    // Naming a reply brings in what is known of the step that it answers
    let (first, second, third) = (replies[0], replies[1], replies[2]);
    let (fourth, fifth) = (replies[3], replies[4]);
    if replies.len() > 4 {
        assert(steps[4].expects(fifth));
    }
}

/// The runner converts files one by one, in the order in which they come, and
/// tells each sender how the conversion of its own file went; when it waits
/// for another file, or has stopped, every sender was told.
pub proof fn law_every_sender_is_told(steps: Seq<RunnerStep>, replies: Seq<RunnerReply>)
    requires
        is_runner_run(steps, replies),
    ensures
        answers_match(told(steps, replies), received(replies), results(replies)),
        steps.last() is Receive || steps.last() is Stopped ==> told(steps, replies).len()
            == received(replies).len(),
        received(replies).len() <= told(steps, replies).len() + 1,
{
    lemma_runner_run(steps, replies);
}

/// LibreOffice is told of a file in hand exactly while that file is converted
/// and its sender is told.
pub proof fn law_input_in_hand(steps: Seq<RunnerStep>, replies: Seq<RunnerReply>)
    requires
        is_runner_run(steps, replies),
    ensures
        steps.last().input_in_hand() is Some == (steps.last() is Convert || steps.last() is Reply),
        steps.last().input_in_hand() is Some ==> received(replies).len() > 0
            && steps.last().input_in_hand() == Some(received(replies).last().input_path),
{
    lemma_runner_run(steps, replies);
}

/// Whether `steps` is a run of converting a document from its first step on,
/// answered by `replies`.
pub open spec fn is_document_run(steps: Seq<DocumentStep>, replies: Seq<DocumentReply>) -> bool {
    &&& steps.len() == replies.len() + 1
    &&& !(steps[0] is Save)
    &&& forall|i: int|
        #![trigger replies[i]]
        0 <= i < replies.len() ==> steps[i].expects(replies[i]) && steps[i + 1] == steps[i].after(
            replies[i],
        )
}

/// The document between two absolute paths is converted exactly where it was
/// loaded from the URL of the first and saved to the URL of the second, in PDF
/// format.
pub proof fn law_document_is_converted(
    temp_in: Seq<PartView>,
    temp_out: Seq<PartView>,
    steps: Seq<DocumentStep>,
    replies: Seq<DocumentReply>,
)
    requires
        is_document_run(steps, replies),
        starts_conversion(temp_in, temp_out, steps[0]),
        path::is_absolute(temp_in),
        path::is_absolute(temp_out),
    ensures
        steps[0] matches DocumentStep::Load { url, .. } && url@ == url_of(temp_in),
        steps.len() > 1 && steps[1] is Save ==> (
        steps[1] matches DocumentStep::Save { url, format } && url@ == url_of(temp_out) && format@
            == "pdf"@),
        steps.last() == DocumentStep::Done(Ok(())) <==> {
            &&& replies.len() == 2
            &&& replies[0] matches DocumentReply::Loaded(Ok(_))
            &&& replies[1] == DocumentReply::Saved(Ok(true))
            &&& steps[1] is Save
        },
{
    // Naming a reply brings in what is known of the step that it answers
    let (first, second, third) = (replies[0], replies[1], replies[2]);
}

/// What went wrong is told in the words of LibreOffice, where there are any.
pub proof fn law_office_errors_keep_their_words(text: String)
    ensures
        OfficeConvertError::OfficeError(text).message_text() == text@,
        OfficeConvertError::ConvertFailure.message_text() == "failed to convert file"@,
        OfficeRunnerError::OfficeError(text).message_text() == text@,
        OfficeRunnerError::TaskClosed.message_text() == "office runner task closed unexpectedly"@,
{
}

/// An absolute path has a URL, and the one of the path as it is written down.
pub proof fn law_absolute_paths_have_urls(path: Seq<PartView>, result: Result<String, String>)
    requires
        is_url_for(path, result),
        path.len() > 0,
        path[0] == PartView::Root,
    ensures
        result matches Ok(url) && url@ == document_url(path::path_bytes(path)),
{
}

/// A document with two URLs is loaded from the first, without questions to
/// anyone, and is to be saved to the second; one that lacks a URL fails with
/// what was said about the first that is missing.
pub proof fn law_documents_are_opened(
    input: Result<String, String>,
    output: Result<String, String>,
    step: DocumentStep,
)
    requires
        opens(input, output, step),
    ensures
        input matches Ok(from) ==> (output matches Ok(to) ==> (
        step matches DocumentStep::Load { url, options, output_url } && url == from && output_url
            == to && options@ == "InteractionHandler=0,Batch=1"@)),
        input matches Err(text) ==> step == DocumentStep::Done(
            Err(OfficeConvertError::OfficeError(text)),
        ),
        input is Ok ==> (output matches Err(text) ==> step == DocumentStep::Done(
            Err(OfficeConvertError::OfficeError(text)),
        )),
{
}

/// A conversion takes every reply of the kind that was asked for.
pub proof fn law_conversion_takes_replies(step: DocumentStep, reply: DocumentReply)
    ensures
        step.expects(reply) <==> {
            ||| step is Load && reply is Loaded
            ||| step is Save && reply is Saved
        },
{
}

/// A document that was loaded is saved as PDF where it was to be saved; one
/// that was saved is converted; and whatever LibreOffice says against it is
/// what the conversion fails with.
pub proof fn law_conversion_goes_on(steps: Seq<DocumentStep>, replies: Seq<DocumentReply>, i: int)
    requires
        is_document_run(steps, replies),
        0 <= i < replies.len(),
    ensures
        replies[i] matches DocumentReply::Loaded(Ok(_)) ==> (
        steps[i] matches DocumentStep::Load { output_url, .. } && (
        steps[i + 1] matches DocumentStep::Save { url, format } && url == output_url && format@
            == "pdf"@)),
        replies[i] matches DocumentReply::Loaded(Err(text)) ==> steps[i + 1] == DocumentStep::Done(
            Err(OfficeConvertError::OfficeError(text)),
        ),
        replies[i] matches DocumentReply::Saved(Err(text)) ==> steps[i + 1] == DocumentStep::Done(
            Err(OfficeConvertError::OfficeError(text)),
        ),
        replies[i] == DocumentReply::Saved(Ok(true)) ==> steps[i + 1] == DocumentStep::Done(Ok(())),
        replies[i] == DocumentReply::Saved(Ok(false)) ==> steps[i + 1] == DocumentStep::Done(
            Err(OfficeConvertError::ConvertFailure),
        ),
{
    let reply = replies[i];
    assert(steps[i].expects(reply));
}

/// A document that asks for a password is told that it has none, by its own
/// URL.
pub proof fn law_passwords_are_declined(url: String, text: String)
    ensures
        declines(Ok(url)) == (CallbackAction::DeclinePassword { url }),
        declines(Err(text)) is Ignore,
{
}

/// The runner takes every reply of the kind that was asked for.
pub proof fn law_runner_takes_replies(step: RunnerStep, reply: RunnerReply)
    ensures
        step.expects(reply) <==> {
            ||| step is CreateOffice && reply is OfficeCreated
            ||| step is SetFeatures && reply is FeaturesSet
            ||| step is RegisterCallback && reply is CallbackRegistered
            ||| step is ReportStarted && reply is Reported
            ||| step is Receive && reply is Received
            ||| step is Convert && reply is Converted
            ||| step is Reply && reply is Replied
            ||| step is ReportFailed && reply is Reported
        },
{
}

/// The runner sets LibreOffice up part by part, and reports the first failure
/// in the words of LibreOffice, or that it has started.
pub proof fn law_runner_starts(steps: Seq<RunnerStep>, replies: Seq<RunnerReply>, i: int)
    requires
        is_runner_run(steps, replies),
        0 <= i < replies.len(),
    ensures
        replies[i] matches RunnerReply::OfficeCreated(Ok(_)) ==> steps[i + 1] is SetFeatures,
        replies[i] matches RunnerReply::FeaturesSet(Ok(_)) ==> steps[i + 1] is RegisterCallback,
        replies[i] matches RunnerReply::CallbackRegistered(Ok(_)) ==> steps[i + 1] is ReportStarted,
        replies[i] matches RunnerReply::OfficeCreated(Err(text)) ==> steps[i + 1]
            == RunnerStep::ReportFailed(OfficeRunnerError::OfficeError(text)),
        replies[i] matches RunnerReply::FeaturesSet(Err(text)) ==> steps[i + 1]
            == RunnerStep::ReportFailed(OfficeRunnerError::OfficeError(text)),
        replies[i] matches RunnerReply::CallbackRegistered(Err(text)) ==> steps[i + 1]
            == RunnerStep::ReportFailed(OfficeRunnerError::OfficeError(text)),
        steps[i] is ReportStarted ==> steps[i + 1] is Receive,
        steps[i] is ReportFailed ==> steps[i + 1] is Stopped,
{
    let reply = replies[i];
    assert(steps[i].expects(reply));
}

/// Every file that comes is converted, its sender is told how that went, and
/// whatever the sender was told, the runner then waits for the next file.
pub proof fn law_runner_goes_on(steps: Seq<RunnerStep>, replies: Seq<RunnerReply>, i: int)
    requires
        is_runner_run(steps, replies),
        0 <= i < replies.len(),
    ensures
        replies[i] matches RunnerReply::Received(Some(message)) ==> steps[i + 1]
            == RunnerStep::Convert(message),
        replies[i] matches RunnerReply::Converted(how) ==> (
        steps[i] matches RunnerStep::Convert(message) && steps[i + 1] == (RunnerStep::Reply {
            input_path: message.input_path,
            result: how,
        })),
        steps[i] is Reply ==> steps[i + 1] is Receive,
        replies[i] == RunnerReply::Received(None) ==> steps[i + 1] is Stopped,
{
    let reply = replies[i];
    assert(steps[i].expects(reply));
}

/// The runner stops only where no more files will come, or where it did not
/// start: no file that it converts, or fails to convert, ends it.
pub proof fn law_runner_stops_only_without_files(
    steps: Seq<RunnerStep>,
    replies: Seq<RunnerReply>,
    i: int,
)
    requires
        is_runner_run(steps, replies),
        0 <= i < replies.len(),
        steps[i + 1] is Stopped,
    ensures
        replies[i] == RunnerReply::Received(None) || steps[i] is ReportFailed,
        i + 1 == replies.len(),
{
    let reply = replies[i];
    assert(steps[i].expects(reply));
    if i + 1 < replies.len() {
        let after = replies[i + 1];
        assert(steps[i + 1].expects(after));
    }
}

/// The runner fails to start only where LibreOffice could not be set up: what
/// it reports is what was said about that.
pub proof fn law_runner_reports_what_failed(
    steps: Seq<RunnerStep>,
    replies: Seq<RunnerReply>,
    i: int,
    error: OfficeRunnerError,
)
    requires
        is_runner_run(steps, replies),
        0 <= i < steps.len(),
        steps[i] == RunnerStep::ReportFailed(error),
    ensures
        i > 0,
        match replies[i - 1] {
            RunnerReply::OfficeCreated(Err(text)) => error == OfficeRunnerError::OfficeError(text),
            RunnerReply::FeaturesSet(Err(text)) => error == OfficeRunnerError::OfficeError(text),
            RunnerReply::CallbackRegistered(Err(text)) => error == OfficeRunnerError::OfficeError(
                text,
            ),
            _ => false,
        },
{
    let reply = replies[i - 1];
    assert(steps[i - 1].expects(reply) && steps[i] == steps[i - 1].after(reply));
}

/// While a file is converted, and while its sender is told, it is the file in
/// hand, and at no other time is there one.
pub proof fn law_file_in_hand(step: RunnerStep)
    ensures
        step matches RunnerStep::Convert(message) ==> step.input_in_hand() == Some(
            message.input_path,
        ),
        step matches RunnerStep::Reply { input_path, .. } ==> step.input_in_hand() == Some(
            input_path,
        ),
        !(step is Convert) && !(step is Reply) ==> step.input_in_hand() is None,
{
}

/// A file that could not be handed to the runner, and one that the runner did
/// not answer for, are told apart; any answer, good or bad, is passed on as it
/// is. So is what the runner reported of its start.
pub proof fn law_answers_of_the_runner(
    sent: bool,
    answer: Option<Result<(), OfficeConvertError>>,
    told: Result<Result<(), OfficeConvertError>, LambdaError>,
    report: Option<Result<(), OfficeRunnerError>>,
    started: Result<(), OfficeRunnerError>,
)
    requires
        call_ensures(runner_answer, (sent, answer), told),
        call_ensures(create_office_runner, (report,), started),
    ensures
        !sent ==> (told matches Err(error) && error is RunOffice),
        sent && answer is None ==> (told matches Err(error) && error is ResponseError),
        sent ==> (answer matches Some(result) ==> (told matches Ok(passed) && passed == result)),
        report matches Some(result) ==> started == result,
        report is None ==> (started matches Err(error) && error is TaskClosed),
{
}

/// A callback for a password is answered by the URL of the file in hand, one
/// for a dialog is noted, and any other is left alone.
pub proof fn law_answers_to_callbacks(
    callback: Callback,
    input: Option<&PathParts>,
    action: CallbackAction,
    url: Result<String, String>,
    declined: CallbackAction,
)
    requires
        call_ensures(on_callback, (callback, input), action),
        call_ensures(decline_password, (url,), declined),
    ensures
        callback is JsDialog ==> action is NoteDialog,
        callback is Other ==> action is Ignore,
        callback is DocumentPassword && input is None ==> action is Ignore,
        callback is DocumentPassword ==> (input matches Some(file) ==> (path::is_absolute(file@)
            ==> (action matches CallbackAction::DeclinePassword { url } && url@
            == document_url(path::path_bytes(file@))))),
        callback is DocumentPassword ==> !(action is NoteDialog),
        declined == declines(url),
{
}

/// The runner starts with the install that it was given, conversions with the
/// files, and every step is followed by the one that its reply calls for.
pub proof fn law_runner_starts_and_follows(
    office_path: PathParts,
    first: RunnerStep,
    step: RunnerStep,
    reply: RunnerReply,
    next: RunnerStep,
    asking: &RunnerStep,
    document: Option<DocumentStep>,
    in_hand: Option<&PathParts>,
)
    requires
        call_ensures(office_runner, (office_path,), first),
        call_ensures(RunnerStep::resume, (step, reply), next),
        call_ensures(RunnerStep::document, (asking,), document),
        call_ensures(RunnerStep::current_input, (asking,), in_hand),
    ensures
        first == RunnerStep::CreateOffice(office_path),
        next == step.after(reply),
        asking is Convert <==> document is Some,
        asking matches RunnerStep::Convert(message) ==> (document matches Some(opened)
            && starts_conversion(message.input_path@, message.output_path@, opened)),
        match in_hand {
            Some(file) => asking.input_in_hand() == Some(*file),
            None => asking.input_in_hand() is None,
        },
{
}

/// A conversion starts with the URLs of its files, and every step is followed by
/// the one that its reply calls for.
pub proof fn law_documents_start_and_follow(
    temp_in: &PathParts,
    temp_out: &PathParts,
    first: DocumentStep,
    input: Result<String, String>,
    output: Result<String, String>,
    opened: DocumentStep,
    step: DocumentStep,
    reply: DocumentReply,
    next: DocumentStep,
)
    requires
        call_ensures(convert_document, (temp_in, temp_out), first),
        call_ensures(open_document, (input, output), opened),
        call_ensures(DocumentStep::resume, (step, reply), next),
    ensures
        starts_conversion(temp_in@, temp_out@, first),
        path::is_absolute(temp_in@) && path::is_absolute(temp_out@) ==> (
        first matches DocumentStep::Load { url, options, output_url } && url@ == document_url(
            path::path_bytes(temp_in@),
        ) && options@ == "InteractionHandler=0,Batch=1"@ && output_url@ == document_url(
            path::path_bytes(temp_out@),
        )),
        opens(input, output, opened),
        next == step.after(reply),
{
}

/// Errors are described as their texts say.
pub proof fn law_descriptions_of_office_errors(
    runner: &OfficeRunnerError,
    runner_text: String,
    convert: &OfficeConvertError,
    convert_text: String,
)
    requires
        call_ensures(OfficeRunnerError::message, (runner,), runner_text),
        call_ensures(OfficeConvertError::message, (convert,), convert_text),
    ensures
        runner_text@ == runner.message_text(),
        convert_text@ == convert.message_text(),
{
}

} // verus!
