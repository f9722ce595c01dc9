//! A client of the conversion lambda.
//!
//! A request is a sequence of steps. A step says what to do next; doing it
//! gives a reply, and the reply decides the next step.

use aws_sdk_lambda::error::SdkError;
use aws_sdk_lambda::operation::invoke::InvokeError;
use crate::error::LambdaError;
use crate::text;
use std::sync::Arc;
use vstd::prelude::*;

verus! {

/// How many nanoseconds make up a second.
pub const NANOS_PER_SEC: u32 = 1_000_000_000;

/// A span of time: whole seconds, and nanoseconds short of another second.
#[derive(Debug, Clone, Copy, PartialEq, Eq)]
pub struct Duration {
    secs: u64,
    nanos: u32,
}

impl View for Duration {
    type V = nat;

    /// The length of the span in nanoseconds.
    closed spec fn view(&self) -> nat {
        self.secs as nat * NANOS_PER_SEC as nat + self.nanos as nat
    }
}

/// The length of so many seconds, in nanoseconds.
pub open spec fn seconds(secs: u64) -> nat {
    secs as nat * NANOS_PER_SEC as nat
}

impl Duration {
    #[verifier::type_invariant]
    spec fn well_formed(self) -> bool {
        self.nanos < NANOS_PER_SEC
    }

    /// The span of so many seconds and nanoseconds, where the nanoseconds fall
    /// short of another second.
    pub fn new(secs: u64, nanos: u32) -> (res: Option<Duration>)
        ensures
            res is Some == (nanos < NANOS_PER_SEC),
            res matches Some(span) ==> span@ == seconds(secs) + nanos,
    {
        if nanos < NANOS_PER_SEC {
            Some(Duration { secs, nanos })
        } else {
            None
        }
    }

    /// The span of so many seconds.
    pub fn from_secs(secs: u64) -> (res: Duration)
        ensures
            res@ == seconds(secs),
    {
        Duration { secs, nanos: 0 }
    }

    /// The whole seconds of the span.
    pub fn as_secs(&self) -> (res: u64)
        ensures
            res as nat == self@ / NANOS_PER_SEC as nat,
    {
        proof {
            use_type_invariant(self);
        }
        self.secs
    }

    /// The nanoseconds of the span behind its whole seconds.
    pub fn subsec_nanos(&self) -> (res: u32)
        ensures
            res as nat == self@ % NANOS_PER_SEC as nat,
    {
        proof {
            use_type_invariant(self);
        }
        self.nanos
    }
}

/// How the lambda is called.
#[derive(Debug, Clone, PartialEq, Eq)]
pub struct OfficeConvertLambdaOptions {
    /// The name or ARN of the Lambda function, version, or alias.
    pub function_name: String,
    /// Specify a version or alias to invoke a published version of the function.
    pub qualifier: Option<String>,
    /// The identifier of the tenant in a multi-tenant Lambda function.
    pub tenant_id: Option<String>,
    /// Number of retry attempts to perform
    pub retry_attempts: usize,
    /// Time to wait between retry attempts
    pub retry_wait: Duration,
}

impl Default for OfficeConvertLambdaOptions {
    fn default() -> (res: Self)
        ensures
            res.function_name@ == Seq::<char>::empty(),
            res.qualifier is None,
            res.tenant_id is None,
            res.retry_attempts == 3,
            res.retry_wait@ == seconds(1),
    {
        OfficeConvertLambdaOptions {
            function_name: String::new(),
            qualifier: None,
            tenant_id: None,
            retry_attempts: 3,
            retry_wait: Duration::from_secs(1),
        }
    }
}

/// A request to convert a file that is present in S3.
#[derive(Debug)]
pub struct ConvertRequest {
    /// Bucket the input source file is within
    pub source_bucket: String,
    /// Key within the source bucket for the source file
    pub source_key: String,
    /// Bucket to store the output file
    pub dest_bucket: String,
    /// Key within the `dest_bucket` for the output file
    pub dest_key: String,
}

/// Error returned by the lambda
#[derive(Debug)]
pub struct OfficeLambdaError {
    pub reason: String,
    pub message: String,
}

/// Error that could occur when requesting a conversion
#[derive(Debug)]
pub enum ConvertError {
    /// Failed to serialize the request or deserialize the response
    Serde(serde_json::Error),
    /// Failed to convert the file
    Invoke(SdkError<InvokeError>),
    /// Error from the lambda itself
    Lambda(OfficeLambdaError),
}

impl From<serde_json::Error> for ConvertError {
    fn from(error: serde_json::Error) -> (res: Self) {
        ConvertError::Serde(error)
    }
}

impl vstd::std_specs::convert::FromSpecImpl<serde_json::Error> for ConvertError {
    open spec fn obeys_from_spec() -> bool {
        true
    }

    open spec fn from_spec(error: serde_json::Error) -> Self {
        ConvertError::Serde(error)
    }
}

impl From<SdkError<InvokeError>> for ConvertError {
    fn from(error: SdkError<InvokeError>) -> (res: Self) {
        ConvertError::Invoke(error)
    }
}

impl vstd::std_specs::convert::FromSpecImpl<SdkError<InvokeError>> for ConvertError {
    open spec fn obeys_from_spec() -> bool {
        true
    }

    open spec fn from_spec(error: SdkError<InvokeError>) -> Self {
        ConvertError::Invoke(error)
    }
}

impl From<OfficeLambdaError> for ConvertError {
    fn from(error: OfficeLambdaError) -> (res: Self) {
        ConvertError::Lambda(error)
    }
}

impl vstd::std_specs::convert::FromSpecImpl<OfficeLambdaError> for ConvertError {
    open spec fn obeys_from_spec() -> bool {
        true
    }

    open spec fn from_spec(error: OfficeLambdaError) -> Self {
        ConvertError::Lambda(error)
    }
}

impl OfficeLambdaError {
    /// The error as it is shown to people: the message, and the reason in brackets.
    pub fn describe(&self) -> (res: String)
        ensures
            res@ == self.message@ + " ("@ + self.reason@ + ")"@,
    {
        self.message.clone().concat(" (").concat(self.reason.as_str()).concat(")")
    }
}

/// Whether a failure with this reason may go away by itself.
pub open spec fn is_passing(reason: Seq<char>) -> bool {
    ||| reason == "SETUP_TEMP_DIR_FAILED"@
    ||| reason == "SETUP_TEMP_FAILED"@
    ||| reason == "RUN_OFFICE"@
    ||| reason == "RESPONSE_ERROR"@
}

impl ConvertError {
    /// Whether another attempt may succeed: the lambda could not be invoked,
    /// or it failed for a reason that may go away by itself.
    pub open spec fn retryable(self) -> bool {
        match self {
            ConvertError::Serde(_) => false,
            ConvertError::Invoke(_) => true,
            ConvertError::Lambda(error) => is_passing(error.reason@),
        }
    }

    /// Whether another attempt may succeed.
    pub fn is_retry(&self) -> (res: bool)
        ensures
            res == self.retryable(),
    {
        match self {
            // Cannot retry serde failures
            ConvertError::Serde(_) => false,
            // Should retry lambda invoke errors
            ConvertError::Invoke(_) => true,
            // Error reasons that can be retried
            ConvertError::Lambda(error) => {
                let reason: &str = error.reason.as_str();
                text::same(reason, "SETUP_TEMP_DIR_FAILED") || text::same(
                    reason,
                    "SETUP_TEMP_FAILED",
                ) || text::same(reason, "RUN_OFFICE") || text::same(reason, "RESPONSE_ERROR")
            },
        }
    }
}

/// The client: how the lambda is called, and what it is called with.
#[derive(Debug)]
pub struct OfficeConvertLambda {
    client: aws_sdk_lambda::Client,
    options: Arc<OfficeConvertLambdaOptions>,
}

impl OfficeConvertLambda {
    /// What requests are sent with.
    pub closed spec fn sender(self) -> aws_sdk_lambda::Client {
        self.client
    }

    /// How requests are sent.
    pub closed spec fn settings(self) -> OfficeConvertLambdaOptions {
        *self.options
    }

    /// A client that sends its requests with `client`, as `options` say.
    pub fn new(client: aws_sdk_lambda::Client, options: OfficeConvertLambdaOptions) -> (res: Self)
        ensures
            res.sender() == client,
            res.settings() == options,
    {
        OfficeConvertLambda { client, options: Arc::new(options) }
    }

    /// What requests are sent with.
    pub fn client(&self) -> (res: &aws_sdk_lambda::Client)
        ensures
            *res == self.sender(),
    {
        &self.client
    }

    /// How requests are sent.
    pub fn options(&self) -> (res: &OfficeConvertLambdaOptions)
        ensures
            *res == self.settings(),
    {
        &*self.options
    }
}

impl Clone for OfficeConvertLambda {
    fn clone(&self) -> (res: Self)
        ensures
            res.sender() == self.sender(),
            res.settings() == self.settings(),
    {
        OfficeConvertLambda { client: self.client.clone(), options: self.options.clone() }
    }
}

/// What to do next to have a file converted.
#[derive(Debug)]
pub enum ConvertCall {
    /// Invoke the lambda with the request; `made` invocations failed before
    Invoke { request: ConvertRequest, made: usize },
    /// Wait before the next retry; retry number `made` failed
    Wait { request: ConvertRequest, made: usize, wait: Duration },
    /// Nothing: the call is over
    Done(Result<(), ConvertError>),
}

/// How a step of a call went.
#[derive(Debug)]
pub enum CallReply {
    /// The lambda was invoked
    Invoked(Result<(), ConvertError>),
    /// The wait is over
    Waited,
}

impl ConvertCall {
    /// Whether a reply answers this step.
    pub open spec fn expects(self, reply: CallReply) -> bool {
        match self {
            ConvertCall::Invoke { .. } => reply is Invoked,
            ConvertCall::Wait { .. } => reply is Waited,
            ConvertCall::Done(_) => false,
        }
    }

    /// Whether a step belongs to a call with these options.
    pub open spec fn is_within(self, options: OfficeConvertLambdaOptions) -> bool {
        match self {
            ConvertCall::Invoke { made, .. } => made <= options.retry_attempts,
            ConvertCall::Wait { made, .. } => made < options.retry_attempts,
            ConvertCall::Done(_) => true,
        }
    }

    /// The step after this one, in a call with these options.
    pub open spec fn after(self, options: OfficeConvertLambdaOptions, reply: CallReply) -> ConvertCall {
        match (self, reply) {
            (ConvertCall::Invoke { request, made }, CallReply::Invoked(Err(error))) => {
                if made == 0 && options.retry_attempts > 0 {
                    ConvertCall::Invoke { request, made: 1 }
                } else if 0 < made < options.retry_attempts && error.retryable() {
                    ConvertCall::Wait { request, made, wait: options.retry_wait }
                } else {
                    ConvertCall::Done(Err(error))
                }
            },
            (
                ConvertCall::Invoke { request, made },
                CallReply::Invoked(Ok(done)),
            ) => ConvertCall::Done(Ok(done)),
            (ConvertCall::Wait { request, made, wait }, CallReply::Waited) => ConvertCall::Invoke {
                request,
                made: (made + 1) as usize,
            },
            _ => self,
        }
    }

    /// The step after this one, in a call with these options.
    pub fn resume(self, options: &OfficeConvertLambdaOptions, reply: CallReply) -> (next:
        ConvertCall)
        requires
            self.expects(reply),
            self.is_within(*options),
        ensures
            next == self.after(*options, reply),
            next.is_within(*options),
    {
        match (self, reply) {
            (ConvertCall::Invoke { request, made }, CallReply::Invoked(outcome)) => match outcome {
                Ok(done) => ConvertCall::Done(Ok(done)),
                Err(error) => if made == 0 {
                    if options.retry_attempts > 0 {
                        ConvertCall::Invoke { request, made: 1 }
                    } else {
                        ConvertCall::Done(Err(error))
                    }
                } else if made < options.retry_attempts && error.is_retry() {
                    ConvertCall::Wait { request, made, wait: options.retry_wait }
                } else {
                    ConvertCall::Done(Err(error))
                },
            },
            (ConvertCall::Wait { request, made, wait }, CallReply::Waited) => ConvertCall::Invoke {
                request,
                made: made + 1,
            },
            (step, _) => step,
        }
    }
}

impl OfficeConvertLambda {
    /// Perform an invoke of the convert lambda using a [ConvertRequest] based
    /// on files already present in S3: the first step
    ///
    /// Will attempt to retry on failure based on the current options
    pub fn convert(&self, request: ConvertRequest) -> (step: ConvertCall)
        ensures
            step == (ConvertCall::Invoke { request, made: 0 }),
            step.is_within(self.settings()),
    {
        ConvertCall::Invoke { request, made: 0 }
    }
}

/// Whether `steps` is a run of a call from its first step on, answered by
/// `replies`.
pub open spec fn is_call_run(
    options: OfficeConvertLambdaOptions,
    request: ConvertRequest,
    steps: Seq<ConvertCall>,
    replies: Seq<CallReply>,
) -> bool {
    &&& steps.len() == replies.len() + 1
    &&& steps[0] == (ConvertCall::Invoke { request, made: 0 })
    &&& forall|i: int|
        #![trigger replies[i]]
        0 <= i < replies.len() ==> steps[i].expects(replies[i]) && steps[i + 1] == steps[i].after(
            options,
            replies[i],
        )
}

/// How the invocations went, in their order.
pub open spec fn outcomes(replies: Seq<CallReply>) -> Seq<Result<(), ConvertError>>
    decreases replies.len(),
{
    if replies.len() == 0 {
        Seq::empty()
    } else {
        match replies.last() {
            CallReply::Invoked(outcome) => outcomes(replies.drop_last()).push(outcome),
            CallReply::Waited => outcomes(replies.drop_last()),
        }
    }
}

/// How often the call waited.
pub open spec fn waits(replies: Seq<CallReply>) -> nat
    decreases replies.len(),
{
    if replies.len() == 0 {
        0
    } else if replies.last() is Waited {
        waits(replies.drop_last()) + 1
    } else {
        waits(replies.drop_last())
    }
}

/// Whether invocation number `i`, counted from zero, is the last one: it
/// succeeded, or it used up the retry attempts, or it was a retry that failed
/// for good. The first invocation is retried whatever it failed with.
pub open spec fn settles(attempts: usize, i: int, outcome: Result<(), ConvertError>) -> bool {
    outcome is Ok || i == attempts || (i > 0 && !outcome->Err_0.retryable())
}

/// Whether no invocation before number `n` is the last one.
pub open spec fn unsettled_before(
    attempts: usize,
    n: int,
    outcomes: Seq<Result<(), ConvertError>>,
) -> bool {
    forall|i: int| 0 <= i < n ==> !settles(attempts, i, #[trigger] outcomes[i])
}

/// What holds at every point of a call.
proof fn lemma_call_run(
    options: OfficeConvertLambdaOptions,
    request: ConvertRequest,
    steps: Seq<ConvertCall>,
    replies: Seq<CallReply>,
)
    requires
        is_call_run(options, request, steps, replies),
    ensures
        ({
            let told = outcomes(replies);
            let n = told.len() as int;
            match steps.last() {
                ConvertCall::Invoke { request: carried, made } => {
                    &&& carried == request
                    &&& n == made <= options.retry_attempts
                    &&& unsettled_before(options.retry_attempts, n, told)
                    &&& waits(replies) == if made == 0 { 0 } else { made - 1 }
                },
                ConvertCall::Wait { request: carried, made, wait } => {
                    &&& carried == request
                    &&& wait == options.retry_wait
                    &&& n == made + 1
                    &&& 1 <= made < options.retry_attempts
                    &&& unsettled_before(options.retry_attempts, n, told)
                    &&& waits(replies) == made - 1
                },
                ConvertCall::Done(result) => {
                    &&& 1 <= n <= options.retry_attempts + 1
                    &&& result == told.last()
                    &&& settles(options.retry_attempts, n - 1, told.last())
                    &&& unsettled_before(options.retry_attempts, n - 1, told)
                    &&& waits(replies) == waits_between_retries(told.len())
                },
            }
        }),
    decreases replies.len(),
{
    if replies.len() > 0 {
        let n = replies.len() - 1;
        let fewer = steps.drop_last();
        let told = replies.drop_last();
        lemma_call_so_far(options, request, steps, replies, n);
        assert(fewer == steps.take(n + 1) && told == replies.take(n));
        lemma_call_run(options, request, fewer, told);
        assert(steps[n].expects(replies[n]) && steps[n + 1] == steps[n].after(options, replies[n]));
        assert(fewer.last() == steps[n]);
        let before = outcomes(told);
        let now = outcomes(replies);
        assert(forall|i: int| 0 <= i < before.len() ==> now[i] == before[i]);
    }
}

/// How often a call waits that makes `n` invocations: between each two
/// retries, of which there are one less than invocations.
pub open spec fn waits_between_retries(n: nat) -> int {
    if n <= 1 {
        0
    } else {
        n - 2
    }
}

/// A call invokes the lambda at most once more than there are retry attempts.
pub proof fn law_attempts_are_bounded(
    options: OfficeConvertLambdaOptions,
    request: ConvertRequest,
    steps: Seq<ConvertCall>,
    replies: Seq<CallReply>,
)
    requires
        is_call_run(options, request, steps, replies),
    ensures
        outcomes(replies).len() <= options.retry_attempts + 1,
{
    lemma_call_run(options, request, steps, replies);
}

/// A call is over with the first invocation that succeeds, that uses up the
/// retry attempts, or that is a retry which failed for good, and its result is
/// what that invocation gave.
pub proof fn law_call_ends_with_first_settling_invocation(
    options: OfficeConvertLambdaOptions,
    request: ConvertRequest,
    steps: Seq<ConvertCall>,
    replies: Seq<CallReply>,
)
    requires
        is_call_run(options, request, steps, replies),
        steps.last() is Done,
    ensures
        ({
            let told = outcomes(replies);
            &&& told.len() > 0
            &&& steps.last() == ConvertCall::Done(told.last())
            &&& settles(options.retry_attempts, told.len() - 1, told.last())
            &&& unsettled_before(options.retry_attempts, told.len() - 1, told)
        }),
{
    lemma_call_run(options, request, steps, replies);
}

/// A call up to its step number `i` is a call.
proof fn lemma_call_so_far(
    options: OfficeConvertLambdaOptions,
    request: ConvertRequest,
    steps: Seq<ConvertCall>,
    replies: Seq<CallReply>,
    i: int,
)
    requires
        is_call_run(options, request, steps, replies),
        0 <= i < steps.len(),
    ensures
        is_call_run(options, request, steps.take(i + 1), replies.take(i)),
{
    let fewer = steps.take(i + 1);
    let told = replies.take(i);
    assert forall|j: int| #![trigger told[j]] 0 <= j < told.len() implies fewer[j].expects(told[j])
        && fewer[j + 1] == fewer[j].after(options, told[j]) by {
        assert(replies[j] == told[j]);
    }
}

/// A call waits once between each two retries, and at no other time: neither
/// before the first retry nor after the last one.
pub proof fn law_waits_between_retries(
    options: OfficeConvertLambdaOptions,
    request: ConvertRequest,
    steps: Seq<ConvertCall>,
    replies: Seq<CallReply>,
)
    requires
        is_call_run(options, request, steps, replies),
        steps.last() is Done,
    ensures
        waits(replies) == waits_between_retries(outcomes(replies).len()),
{
    lemma_call_run(options, request, steps, replies);
}

/// A wait stands between two retries: the one before it failed, and another
/// one follows.
pub proof fn law_wait_is_followed_by_retry(
    options: OfficeConvertLambdaOptions,
    request: ConvertRequest,
    steps: Seq<ConvertCall>,
    replies: Seq<CallReply>,
    i: int,
)
    requires
        is_call_run(options, request, steps, replies),
        0 <= i < replies.len(),
        replies[i] is Waited,
    ensures
        i > 0,
        replies[i - 1] matches CallReply::Invoked(Err(_)),
        steps[i - 1] matches ConvertCall::Invoke { made, .. } && made >= 1 && steps[i + 1] == (
        ConvertCall::Invoke { request, made: (made + 1) as usize }),
{
    lemma_call_so_far(options, request, steps, replies, i);
    lemma_call_run(options, request, steps.take(i + 1), replies.take(i));
    assert(steps.take(i + 1).last() == steps[i]);
    assert(steps[i].expects(replies[i]) && steps[i + 1] == steps[i].after(options, replies[i]));
    assert(steps[i - 1].expects(replies[i - 1]) && steps[i] == steps[i - 1].after(
        options,
        replies[i - 1],
    ));
}

/// Every invocation of a call is made with the request of the caller, and
/// every wait takes as long as the options say.
pub proof fn law_every_attempt_is_alike(
    options: OfficeConvertLambdaOptions,
    request: ConvertRequest,
    steps: Seq<ConvertCall>,
    replies: Seq<CallReply>,
    i: int,
)
    requires
        is_call_run(options, request, steps, replies),
        0 <= i < steps.len(),
    ensures
        steps[i] matches ConvertCall::Invoke { request: carried, .. } ==> carried == request,
        steps[i] matches ConvertCall::Wait { wait, .. } ==> wait == options.retry_wait,
{
    lemma_call_so_far(options, request, steps, replies, i);
    lemma_call_run(options, request, steps.take(i + 1), replies.take(i));
    assert(steps.take(i + 1).last() == steps[i]);
}

/// Of the errors that the lambda answers with, the client takes those for
/// passing that say that the temporary directory or the temporary paths could
/// not be set up, that the office runner could not be reached, or that it went
/// away, and no others.
pub proof fn law_retried_lambda_errors(error: LambdaError, answer: OfficeLambdaError)
    requires
        answer.reason@ == error@.reason,
    ensures
        ConvertError::Lambda(answer).retryable() == (error is SetupTempDirFailed
            || error is SetupTempPathFailed || error is RunOffice || error is ResponseError),
{
    if is_passing(answer.reason@) {
        if answer.reason@ == "SETUP_TEMP_DIR_FAILED"@ {
            crate::error::law_reason_names_the_error(error, LambdaError::SetupTempDirFailed);
        } else if answer.reason@ == "SETUP_TEMP_FAILED"@ {
            crate::error::law_reason_names_the_error(error, LambdaError::SetupTempPathFailed);
        } else if answer.reason@ == "RUN_OFFICE"@ {
            crate::error::law_reason_names_the_error(error, LambdaError::RunOffice);
        } else {
            crate::error::law_reason_names_the_error(error, LambdaError::ResponseError);
        }
    }
}

/// What one invocation of the lambda is sent with.
#[derive(Debug)]
pub struct Invocation {
    /// The request in JSON
    pub payload: Vec<u8>,
    pub function_name: String,
    pub qualifier: Option<String>,
    pub tenant_id: Option<String>,
}

/// What to do next to invoke the lambda once.
#[derive(Debug)]
pub enum InvokeStep<'a> {
    /// Write the request in JSON
    WriteRequest(&'a ConvertRequest),
    /// Send the request
    Send(Invocation),
    /// Read the error that the lambda answered with
    ReadError(String),
    /// Nothing: the invocation is over
    Done(Result<(), ConvertError>),
}

/// How a step of an invocation went.
#[derive(Debug)]
pub enum InvokeReply {
    /// The request was written
    Written(Result<Vec<u8>, serde_json::Error>),
    /// The request was sent; the lambda may have answered with an error
    Sent(Result<Option<String>, SdkError<InvokeError>>),
    /// The error of the lambda was read
    ErrorRead(Result<OfficeLambdaError, serde_json::Error>),
}

impl<'a> InvokeStep<'a> {
    /// Whether a reply answers this step.
    pub open spec fn expects(self, reply: InvokeReply) -> bool {
        match self {
            InvokeStep::WriteRequest(_) => reply is Written,
            InvokeStep::Send(_) => reply is Sent,
            InvokeStep::ReadError(_) => reply is ErrorRead,
            InvokeStep::Done(_) => false,
        }
    }

    /// The step after this one: a request that was written is sent as the
    /// options say, and every failure is passed on.
    pub open spec fn after(
        self,
        options: OfficeConvertLambdaOptions,
        reply: InvokeReply,
    ) -> InvokeStep<'a> {
        match reply {
            InvokeReply::Written(Ok(payload)) => InvokeStep::Send(
                Invocation {
                    payload,
                    function_name: options.function_name,
                    qualifier: options.qualifier,
                    tenant_id: options.tenant_id,
                },
            ),
            InvokeReply::Written(Err(error)) => InvokeStep::Done(Err(ConvertError::Serde(error))),
            InvokeReply::Sent(Ok(None)) => InvokeStep::Done(Ok(())),
            InvokeReply::Sent(Ok(Some(text))) => InvokeStep::ReadError(text),
            InvokeReply::Sent(Err(error)) => InvokeStep::Done(Err(ConvertError::Invoke(error))),
            InvokeReply::ErrorRead(Ok(error)) => InvokeStep::Done(Err(ConvertError::Lambda(error))),
            InvokeReply::ErrorRead(Err(error)) => InvokeStep::Done(Err(ConvertError::Serde(error))),
        }
    }
}

/// Another copy of an optional text.
fn copied(text: &Option<String>) -> (res: Option<String>)
    ensures
        res == *text,
{
    match text {
        Some(text) => Some(text.clone()),
        None => None,
    }
}

impl<'a> InvokeStep<'a> {
    /// The step after this one, in a call with these options.
    pub fn resume(self, options: &OfficeConvertLambdaOptions, reply: InvokeReply) -> (next:
        InvokeStep<'a>)
        requires
            self.expects(reply),
        ensures
            next == self.after(*options, reply),
    {
        match reply {
            InvokeReply::Written(Ok(payload)) => InvokeStep::Send(
                Invocation {
                    payload,
                    function_name: options.function_name.clone(),
                    qualifier: copied(&options.qualifier),
                    tenant_id: copied(&options.tenant_id),
                },
            ),
            InvokeReply::Written(Err(error)) => InvokeStep::Done(Err(ConvertError::from(error))),
            InvokeReply::Sent(Ok(None)) => InvokeStep::Done(Ok(())),
            InvokeReply::Sent(Ok(Some(text))) => InvokeStep::ReadError(text),
            InvokeReply::Sent(Err(error)) => InvokeStep::Done(Err(ConvertError::from(error))),
            InvokeReply::ErrorRead(Ok(error)) => InvokeStep::Done(Err(ConvertError::from(error))),
            InvokeReply::ErrorRead(Err(error)) => InvokeStep::Done(Err(ConvertError::from(error))),
        }
    }
}

impl OfficeConvertLambda {
    /// Perform an invoke of the convert lambda using a [ConvertRequest] based
    /// on files already present in S3: the first step
    pub fn convert_inner<'a>(&self, request: &'a ConvertRequest) -> (step: InvokeStep<'a>)
        ensures
            step == InvokeStep::WriteRequest(request),
    {
        InvokeStep::WriteRequest(request)
    }
}

/// An invocation succeeds exactly where the request could be written and
/// sent, and the lambda answered without an error; it is sent to the function
/// that the options name, with what was written.
pub proof fn law_invocation_succeeds<'a>(
    options: OfficeConvertLambdaOptions,
    request: &'a ConvertRequest,
    written: InvokeReply,
    sent: InvokeReply,
    read: InvokeReply,
)
    requires
        written is Written,
        sent is Sent,
        read is ErrorRead,
    ensures
        ({
            let first = InvokeStep::WriteRequest(request);
            let second = first.after(options, written);
            let third = second.after(options, sent);
            &&& second.expects(sent) <==> (written matches InvokeReply::Written(Ok(_)))
            &&& second matches InvokeStep::Send(invocation) ==> {
                &&& written == InvokeReply::Written(Ok(invocation.payload))
                &&& invocation.function_name == options.function_name
                &&& invocation.qualifier == options.qualifier
                &&& invocation.tenant_id == options.tenant_id
            }
            &&& third == InvokeStep::Done(Ok(())) <==> sent == InvokeReply::Sent(Ok(None))
            &&& third.expects(read) <==> (sent matches InvokeReply::Sent(Ok(Some(_))))
            &&& third.expects(read) ==> third.after(options, read) matches InvokeStep::Done(Err(_))
        }),
{
}

/// A span of so many seconds has a thousand million nanoseconds for each.
pub proof fn law_seconds(secs: u64)
    ensures
        seconds(secs) == secs as nat * 1_000_000_000,
{
}

/// Errors of either side are kept as they are.
pub proof fn law_errors_are_wrapped(
    json: serde_json::Error,
    sdk: SdkError<InvokeError>,
    lambda: OfficeLambdaError,
)
    ensures
        <ConvertError as vstd::std_specs::convert::FromSpec<serde_json::Error>>::from_spec(json)
            == ConvertError::Serde(json),
        <ConvertError as vstd::std_specs::convert::FromSpec<SdkError<InvokeError>>>::from_spec(sdk)
            == ConvertError::Invoke(sdk),
        <ConvertError as vstd::std_specs::convert::FromSpec<OfficeLambdaError>>::from_spec(lambda)
            == ConvertError::Lambda(lambda),
{
}

/// A failure to invoke the lambda may pass, what does not read will not, and of
/// the errors of the lambda those may pass whose code is one of four.
pub proof fn law_errors_that_may_pass(error: ConvertError)
    ensures
        error.retryable() <==> match error {
            ConvertError::Serde(_) => false,
            ConvertError::Invoke(_) => true,
            ConvertError::Lambda(answer) => answer.reason@ == "SETUP_TEMP_DIR_FAILED"@
                || answer.reason@ == "SETUP_TEMP_FAILED"@ || answer.reason@ == "RUN_OFFICE"@
                || answer.reason@ == "RESPONSE_ERROR"@,
        },
{
}

/// A call takes every outcome of an invocation, and the end of every wait.
pub proof fn law_call_takes_replies(step: ConvertCall, reply: CallReply)
    ensures
        step.expects(reply) <==> {
            ||| step is Invoke && reply is Invoked
            ||| step is Wait && reply is Waited
        },
{
}

/// A call that succeeds is over. The first failure is followed by a retry at
/// once, whatever it is, if any retry is allowed. A retry that failed is
/// followed by a wait where the error may pass and another retry is allowed;
/// else the call is over with that very error. A wait is followed by a retry.
pub proof fn law_call_goes_on(
    options: OfficeConvertLambdaOptions,
    request: ConvertRequest,
    steps: Seq<ConvertCall>,
    replies: Seq<CallReply>,
    i: int,
)
    requires
        is_call_run(options, request, steps, replies),
        0 <= i < replies.len(),
    ensures
        ({
            let invoked = outcomes(replies.take(i + 1)).len();
            match replies[i] {
                CallReply::Invoked(Ok(_)) => steps[i + 1] == ConvertCall::Done(Ok(())),
                CallReply::Invoked(Err(error)) => if invoked > options.retry_attempts {
                    steps[i + 1] == ConvertCall::Done(Err(error))
                } else if invoked == 1 {
                    steps[i + 1] matches ConvertCall::Invoke { request: again, .. } && again
                        == request
                } else if error.retryable() {
                    steps[i + 1] matches ConvertCall::Wait { request: again, wait, .. } && again
                        == request && wait == options.retry_wait
                } else {
                    steps[i + 1] == ConvertCall::Done(Err(error))
                },
                CallReply::Waited => steps[i + 1] matches ConvertCall::Invoke { request: again, .. }
                    && again == request,
            }
        }),
{
    lemma_call_so_far(options, request, steps, replies, i);
    lemma_call_run(options, request, steps.take(i + 1), replies.take(i));
    assert(steps.take(i + 1).last() == steps[i]);
    assert(replies.take(i + 1).drop_last() =~= replies.take(i));
    assert(replies.take(i + 1).last() == replies[i]);
    assert(steps[i].expects(replies[i]) && steps[i + 1] == steps[i].after(options, replies[i]));
}

/// A call that is over came to what its last invocation came to. That one
/// succeeded, or used up the retries, or was a retry that failed for good; all
/// those before it failed, and each retry among them with an error that may
/// pass.
pub proof fn law_call_gives_up_only_for_good(
    options: OfficeConvertLambdaOptions,
    request: ConvertRequest,
    steps: Seq<ConvertCall>,
    replies: Seq<CallReply>,
    result: Result<(), ConvertError>,
)
    requires
        is_call_run(options, request, steps, replies),
        steps.last() == ConvertCall::Done(result),
    ensures
        ({
            let made = outcomes(replies);
            &&& 1 <= made.len() <= options.retry_attempts + 1
            &&& made.last() == result
            &&& result matches Err(error) ==> made.len() == options.retry_attempts + 1 || (
            made.len() > 1 && !error.retryable())
            &&& forall|i: int|
                0 <= i < made.len() - 1 ==> (#[trigger] made[i] matches Err(error) && (i == 0
                    || error.retryable()))
        }),
{
    lemma_call_run(options, request, steps, replies);
    let made = outcomes(replies);
    assert forall|i: int| 0 <= i < made.len() - 1 implies (#[trigger] made[i] matches Err(error) && (i
        == 0 || error.retryable())) by {
        assert(!settles(options.retry_attempts, i, made[i]));
    }
}

/// An invocation takes every reply of the kind that was asked for.
pub proof fn law_invocation_takes_replies<'a>(step: InvokeStep<'a>, reply: InvokeReply)
    ensures
        step.expects(reply) <==> {
            ||| step is WriteRequest && reply is Written
            ||| step is Send && reply is Sent
            ||| step is ReadError && reply is ErrorRead
        },
{
}

/// An invocation ends with the very error that came up: the one that the lambda
/// answered with, reason and message as they were read, where it answered with
/// one; else the one that kept the request from being written or sent, or the
/// answer from being read.
pub proof fn law_invocation_ends_with_the_error<'a>(
    options: OfficeConvertLambdaOptions,
    request: &'a ConvertRequest,
    invocation: Invocation,
    text: String,
    answer: OfficeLambdaError,
    json: serde_json::Error,
    sdk: SdkError<InvokeError>,
)
    ensures
        ({
            let write = InvokeStep::WriteRequest(request);
            let send = InvokeStep::<'a>::Send(invocation);
            let read = InvokeStep::<'a>::ReadError(text);
            &&& write.after(options, InvokeReply::Written(Err(json))) == InvokeStep::<'a>::Done(
                Err(ConvertError::Serde(json)),
            )
            &&& send.after(options, InvokeReply::Sent(Err(sdk))) == InvokeStep::<'a>::Done(
                Err(ConvertError::Invoke(sdk)),
            )
            &&& send.after(options, InvokeReply::Sent(Ok(Some(text)))) == read
            &&& read.after(options, InvokeReply::ErrorRead(Ok(answer))) == InvokeStep::<'a>::Done(
                Err(ConvertError::Lambda(answer)),
            )
            &&& read.after(options, InvokeReply::ErrorRead(Err(json))) == InvokeStep::<'a>::Done(
                Err(ConvertError::Serde(json)),
            )
        }),
{
}

/// A retry whose invocation the lambda answered with one of its own errors is
/// followed by a wait and another retry exactly where that error may pass.
pub proof fn law_answers_of_the_lambda_decide_on_retries<'a>(
    options: OfficeConvertLambdaOptions,
    request: ConvertRequest,
    made: usize,
    text: String,
    answer: OfficeLambdaError,
)
    requires
        0 < made < options.retry_attempts,
    ensures
        ({
            let read = InvokeStep::<'a>::ReadError(text);
            let outcome = read.after(options, InvokeReply::ErrorRead(Ok(answer)));
            outcome matches InvokeStep::Done(result) && ((ConvertCall::Invoke {
                request,
                made,
            }).after(options, CallReply::Invoked(result)) is Wait <==> answer.reason@
                == "SETUP_TEMP_DIR_FAILED"@ || answer.reason@ == "SETUP_TEMP_FAILED"@
                || answer.reason@ == "RUN_OFFICE"@ || answer.reason@ == "RESPONSE_ERROR"@)
        }),
{
}

/// A span of time is made of its seconds and nanoseconds, and gives them back.
pub proof fn law_spans_give_back_what_they_are_made_of(
    secs: u64,
    nanos: u32,
    span: Option<Duration>,
    plain: Duration,
    of: &Duration,
    whole: u64,
    rest: u32,
)
    requires
        call_ensures(Duration::new, (secs, nanos), span),
        call_ensures(Duration::from_secs, (secs,), plain),
        call_ensures(Duration::as_secs, (of,), whole),
        call_ensures(Duration::subsec_nanos, (of,), rest),
    ensures
        span is Some <==> nanos < 1_000_000_000,
        span matches Some(span) ==> span@ == secs as nat * 1_000_000_000 + nanos,
        plain@ == secs as nat * 1_000_000_000,
        span matches Some(span) ==> (of@ == span@ ==> whole == secs && rest == nanos),
        of@ == plain@ ==> whole == secs && rest == 0,
{
}

/// A client keeps what it was made with, for every request.
pub proof fn law_client_keeps_what_it_was_made_with<'a>(
    sender: aws_sdk_lambda::Client,
    options: OfficeConvertLambdaOptions,
    client: OfficeConvertLambda,
    kept: &aws_sdk_lambda::Client,
    settings: &OfficeConvertLambdaOptions,
    request: ConvertRequest,
    call: ConvertCall,
    asked: &'a ConvertRequest,
    invocation: InvokeStep<'a>,
)
    requires
        call_ensures(OfficeConvertLambda::new, (sender, options), client),
        call_ensures(OfficeConvertLambda::client, (&client,), kept),
        call_ensures(OfficeConvertLambda::options, (&client,), settings),
        call_ensures(OfficeConvertLambda::convert, (&client, request), call),
        call_ensures(OfficeConvertLambda::convert_inner, (&client, asked), invocation),
    ensures
        *kept == sender,
        *settings == options,
        call == (ConvertCall::Invoke { request, made: 0 }),
        invocation == InvokeStep::WriteRequest(asked),
{
}

/// Every step of a call and of an invocation is followed by the one that its
/// reply calls for, and errors are judged and described by what they say.
pub proof fn law_calls_follow<'a>(
    options: &OfficeConvertLambdaOptions,
    step: ConvertCall,
    reply: CallReply,
    next: ConvertCall,
    invoke_step: InvokeStep<'a>,
    invoke_reply: InvokeReply,
    invoke_next: InvokeStep<'a>,
    error: &ConvertError,
    again: bool,
    answer: &OfficeLambdaError,
    described: String,
)
    requires
        call_ensures(ConvertCall::resume, (step, options, reply), next),
        call_ensures(InvokeStep::<'a>::resume, (invoke_step, options, invoke_reply), invoke_next),
        call_ensures(ConvertError::is_retry, (error,), again),
        call_ensures(OfficeLambdaError::describe, (answer,), described),
    ensures
        next == step.after(*options, reply),
        invoke_next == invoke_step.after(*options, invoke_reply),
        again <==> error.retryable(),
        described@ == answer.message@ + " ("@ + answer.reason@ + ")"@,
{
}

/// A copy of a client sends with the same sender and by the same settings, and
/// by default a call is retried three times, a second apart.
pub proof fn law_copies_and_defaults(
    client: &OfficeConvertLambda,
    copy: OfficeConvertLambda,
    options: OfficeConvertLambdaOptions,
)
    requires
        call_ensures(<OfficeConvertLambda as Clone>::clone, (client,), copy),
        call_ensures(<OfficeConvertLambdaOptions as Default>::default, (), options),
    ensures
        copy.sender() == client.sender(),
        copy.settings() == client.settings(),
        options.function_name@.len() == 0,
        options.qualifier is None,
        options.tenant_id is None,
        options.retry_attempts == 3,
        options.retry_wait@ == 1_000_000_000,
{
}

} // verus!
