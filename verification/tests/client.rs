use aws_sdk_lambda::config::{BehaviorVersion, Region};
use aws_sdk_lambda::error::SdkError;
use aws_sdk_lambda::operation::invoke::InvokeError;
use office_convert_lambda::client::{
    CallReply, ConvertCall, ConvertError, ConvertRequest, Duration, InvokeReply, InvokeStep,
    OfficeConvertLambda, OfficeConvertLambdaOptions, OfficeLambdaError,
};
use office_convert_lambda::error::{LambdaError, LambdaErrorResponse};

fn request() -> ConvertRequest {
    ConvertRequest {
        source_bucket: "in".to_string(),
        source_key: "a.docx".to_string(),
        dest_bucket: "out".to_string(),
        dest_key: "a.pdf".to_string(),
    }
}

fn options(retry_attempts: usize) -> OfficeConvertLambdaOptions {
    OfficeConvertLambdaOptions {
        function_name: "convert".to_string(),
        qualifier: Some("live".to_string()),
        tenant_id: None,
        retry_attempts,
        retry_wait: Duration::new(2, 500).unwrap(),
    }
}

fn sdk_client() -> aws_sdk_lambda::Client {
    let config = aws_sdk_lambda::Config::builder()
        .behavior_version(BehaviorVersion::latest())
        .region(Region::new("ap-southeast-2"))
        .build();
    aws_sdk_lambda::Client::from_conf(config)
}

fn client(retry_attempts: usize) -> OfficeConvertLambda {
    OfficeConvertLambda::new(sdk_client(), options(retry_attempts))
}

fn json_error() -> serde_json::Error {
    serde_json::from_str::<u64>("x").unwrap_err()
}

fn invoke_error() -> SdkError<InvokeError> {
    SdkError::construction_failure("not sent")
}

fn lambda_error(reason: &str) -> ConvertError {
    ConvertError::Lambda(OfficeLambdaError {
        reason: reason.to_string(),
        message: "message".to_string(),
    })
}

/// Runs a call; returns its result, how often it invoked and how often it waited.
fn run(attempts: usize, outcomes: Vec<Result<(), ConvertError>>) -> (Result<(), ConvertError>, usize, usize) {
    let client = client(attempts);
    let mut outcomes = outcomes.into_iter();
    let (mut invoked, mut waited) = (0, 0);
    let mut step = client.convert(request());
    loop {
        let reply = match &step {
            ConvertCall::Invoke { request, .. } => {
                assert_eq!(request.source_key, "a.docx");
                invoked += 1;
                CallReply::Invoked(outcomes.next().unwrap())
            }
            ConvertCall::Wait { wait, .. } => {
                assert_eq!(*wait, Duration::new(2, 500).unwrap());
                waited += 1;
                CallReply::Waited
            }
            ConvertCall::Done(_) => break,
        };
        step = step.resume(client.options(), reply);
    }
    match step {
        ConvertCall::Done(result) => (result, invoked, waited),
        _ => unreachable!(),
    }
}

#[test]
fn default_options() {
    let options = OfficeConvertLambdaOptions::default();
    assert_eq!(options.function_name, "");
    assert_eq!(options.qualifier, None);
    assert_eq!(options.tenant_id, None);
    assert_eq!(options.retry_attempts, 3);
    assert_eq!(options.retry_wait, Duration::from_secs(1));
    assert_eq!(options.retry_wait, Duration::new(1, 0).unwrap());
}

#[test]
fn client_keeps_options() {
    let client = client(7);
    assert_eq!(*client.options(), options(7));
    let other = client.clone();
    assert_eq!(*other.options(), options(7));
    assert_eq!(
        other.client().config().region().map(|region| region.to_string()),
        Some("ap-southeast-2".to_string())
    );
}

#[test]
fn retryable_errors() {
    assert!(!ConvertError::from(json_error()).is_retry());
    assert!(ConvertError::from(invoke_error()).is_retry());
    for reason in ["SETUP_TEMP_DIR_FAILED", "SETUP_TEMP_FAILED", "RUN_OFFICE", "RESPONSE_ERROR"] {
        assert!(lambda_error(reason).is_retry());
    }
    for reason in ["", "run_office", "RUN_OFFICE ", "CONVERT_FAILED", "SETUP_TEMP_PATH_FAILED"] {
        assert!(!lambda_error(reason).is_retry());
    }
}

#[test]
fn lambda_errors_that_are_retried() {
    let errors = vec![
        (LambdaError::ParseRequest("x".to_string()), false),
        (LambdaError::SetupTempDirFailed, true),
        (LambdaError::SetupTempPathFailed, true),
        (LambdaError::RunOffice, true),
        (LambdaError::ResponseError, true),
        (LambdaError::NoSuchKey, false),
        (LambdaError::FileLikelyEncrypted, false),
        (LambdaError::ConvertFailed("RUN_OFFICE".to_string()), false),
        (LambdaError::InitializeOffice, false),
    ];
    for (error, retried) in errors {
        let response = LambdaErrorResponse::from(error);
        let seen = OfficeLambdaError {
            reason: response.reason.to_string(),
            message: response.message,
        };
        assert_eq!(ConvertError::from(seen).is_retry(), retried);
    }
}

#[test]
fn lambda_error_is_described() {
    let error = OfficeLambdaError { reason: "RUN_OFFICE".to_string(), message: "no office".to_string() };
    assert_eq!(error.describe(), "no office (RUN_OFFICE)");
}

#[test]
fn durations_hold_seconds_and_nanoseconds() {
    let span = Duration::new(2, 500).unwrap();
    assert_eq!((span.as_secs(), span.subsec_nanos()), (2, 500));
    let span = Duration::new(u64::MAX, 999_999_999).unwrap();
    assert_eq!((span.as_secs(), span.subsec_nanos()), (u64::MAX, 999_999_999));
    assert!(Duration::new(2, 1_000_000_000).is_none());
    let span = Duration::from_secs(60);
    assert_eq!((span.as_secs(), span.subsec_nanos()), (60, 0));
}

#[test]
fn no_wait_follows_the_last_retry() {
    let failed = || Err(lambda_error("RUN_OFFICE"));
    assert_eq!(run(1, vec![failed(), failed()]).2, 0);
    assert_eq!(run(2, vec![failed(), failed(), failed()]).2, 1);
    assert_eq!(run(3, vec![failed(), failed(), failed(), failed()]).2, 2);
}

#[test]
fn first_success_ends_the_call() {
    let (result, invoked, waited) = run(3, vec![Ok(())]);
    assert!(result.is_ok());
    assert_eq!((invoked, waited), (1, 0));
}

#[test]
fn first_failure_is_retried_at_once_whatever_it_is() {
    let (result, invoked, waited) = run(3, vec![Err(ConvertError::Serde(json_error())), Ok(())]);
    assert!(result.is_ok());
    assert_eq!((invoked, waited), (2, 0));
}

#[test]
fn retries_wait_in_between() {
    let (result, invoked, waited) = run(
        3,
        vec![
            Err(ConvertError::Invoke(invoke_error())),
            Err(lambda_error("RUN_OFFICE")),
            Err(lambda_error("RESPONSE_ERROR")),
            Ok(()),
        ],
    );
    assert!(result.is_ok());
    assert_eq!((invoked, waited), (4, 2));
}

#[test]
fn last_error_is_returned_when_attempts_are_used_up() {
    let (result, invoked, waited) = run(
        2,
        vec![
            Err(lambda_error("NO_SUCH_KEY")),
            Err(lambda_error("RUN_OFFICE")),
            Err(lambda_error("RESPONSE_ERROR")),
        ],
    );
    assert!(matches!(result, Err(ConvertError::Lambda(error)) if error.reason == "RESPONSE_ERROR"));
    assert_eq!((invoked, waited), (3, 1));
}

#[test]
fn retry_that_failed_for_good_ends_the_call() {
    let (result, invoked, waited) = run(
        5,
        vec![Err(lambda_error("RUN_OFFICE")), Err(lambda_error("FILE_LIKELY_ENCRYPTED"))],
    );
    assert!(
        matches!(result, Err(ConvertError::Lambda(error)) if error.reason == "FILE_LIKELY_ENCRYPTED")
    );
    assert_eq!((invoked, waited), (2, 0));
}

#[test]
fn no_attempts_mean_one_invocation() {
    let (result, invoked, waited) = run(0, vec![Err(lambda_error("RUN_OFFICE"))]);
    assert!(matches!(result, Err(ConvertError::Lambda(error)) if error.reason == "RUN_OFFICE"));
    assert_eq!((invoked, waited), (1, 0));
}

#[test]
fn invocation_is_sent_as_options_say() {
    let client = client(1);
    let request = request();
    let step = client.convert_inner(&request);
    assert!(matches!(&step, InvokeStep::WriteRequest(written) if written.dest_key == "a.pdf"));
    let step = step.resume(client.options(), InvokeReply::Written(Ok(b"{}".to_vec())));
    match &step {
        InvokeStep::Send(invocation) => {
            assert_eq!(invocation.payload, b"{}".to_vec());
            assert_eq!(invocation.function_name, "convert");
            assert_eq!(invocation.qualifier, Some("live".to_string()));
            assert_eq!(invocation.tenant_id, None);
        }
        _ => panic!("not sent"),
    }
    let step = step.resume(client.options(), InvokeReply::Sent(Ok(None)));
    assert!(matches!(step, InvokeStep::Done(Ok(()))));
}

#[test]
fn invocation_failures_are_passed_on() {
    let client = client(1);
    let request = request();
    let step = client
        .convert_inner(&request)
        .resume(client.options(), InvokeReply::Written(Err(json_error())));
    assert!(matches!(step, InvokeStep::Done(Err(ConvertError::Serde(_)))));

    let send = || {
        client
            .convert_inner(&request)
            .resume(client.options(), InvokeReply::Written(Ok(Vec::new())))
    };
    let step = send().resume(client.options(), InvokeReply::Sent(Err(invoke_error())));
    assert!(matches!(step, InvokeStep::Done(Err(ConvertError::Invoke(_)))));

    let read = || send().resume(client.options(), InvokeReply::Sent(Ok(Some("text".to_string()))));
    assert!(matches!(read(), InvokeStep::ReadError(text) if text == "text"));
    let step = read().resume(client.options(), InvokeReply::ErrorRead(Err(json_error())));
    assert!(matches!(step, InvokeStep::Done(Err(ConvertError::Serde(_)))));
    let error = OfficeLambdaError { reason: "R".to_string(), message: "m".to_string() };
    let step = read().resume(client.options(), InvokeReply::ErrorRead(Ok(error)));
    assert!(matches!(step, InvokeStep::Done(Err(ConvertError::Lambda(error))) if error.reason == "R"));
}
