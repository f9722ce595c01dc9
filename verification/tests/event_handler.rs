use office_convert_lambda::client::{ConvertRequest, Duration};
use office_convert_lambda::encrypted::{ConditionStep, FileCondition};
use office_convert_lambda::error::LambdaError;
use office_convert_lambda::event_handler::{
    conversion_error, convert, convert_timeout, dependencies, function_handler, handle_request,
    ConvertReply, ConvertStep, DependencyReply, DependencyStep, HandleReply, HandleStep,
};
use office_convert_lambda::office::{OfficeConvertError, OfficeRunnerError};
use office_convert_lambda::path::{Part, PathParts};
use office_convert_lambda::storage::{OutputStep, SourceStep};
use office_convert_lambda::temp_files::CleanupStep;

fn request() -> ConvertRequest {
    ConvertRequest {
        source_bucket: "in".to_string(),
        source_key: "a.docx".to_string(),
        dest_bucket: "out".to_string(),
        dest_key: "a.pdf".to_string(),
    }
}

fn path(name: &str) -> PathParts {
    PathParts::new(vec![Part::Root, Part::Name(name.as_bytes().to_vec())]).unwrap()
}

fn is_path(path: &PathParts, name: &str) -> bool {
    matches!(&path.parts()[1], Part::Name(bytes) if bytes == name.as_bytes())
}

#[test]
fn failures_are_told_apart() {
    let url = "Unsupported URL <file:///tmp/x>: \"type detection failed\"";
    let empty = "loadComponentFromURL returned an empty reference";
    let all = [FileCondition::Normal, FileCondition::LikelyCorrupted, FileCondition::LikelyEncrypted];
    for condition in all {
        assert!(matches!(
            conversion_error(url.to_string(), condition),
            LambdaError::FileLikelyEncrypted
        ));
    }
    assert!(matches!(
        conversion_error(empty.to_string(), FileCondition::Normal),
        LambdaError::FileLikelyCorrupted
    ));
    assert!(matches!(
        conversion_error(empty.to_string(), FileCondition::LikelyCorrupted),
        LambdaError::FileLikelyCorrupted
    ));
    assert!(matches!(
        conversion_error(empty.to_string(), FileCondition::LikelyEncrypted),
        LambdaError::FileLikelyEncrypted
    ));
    assert!(matches!(
        conversion_error("other".to_string(), FileCondition::LikelyCorrupted),
        LambdaError::FileLikelyCorrupted
    ));
    assert!(matches!(
        conversion_error("other".to_string(), FileCondition::LikelyEncrypted),
        LambdaError::FileLikelyEncrypted
    ));
    assert!(matches!(
        conversion_error("other".to_string(), FileCondition::Normal),
        LambdaError::ConvertFailed(text) if text == "other"
    ));
    let both = format!("{}; {}", empty, url);
    assert!(matches!(
        conversion_error(both, FileCondition::LikelyCorrupted),
        LambdaError::FileLikelyEncrypted
    ));
}

fn start() -> ConvertStep {
    convert(request(), path("input"), path("output"))
}

#[test]
fn file_is_fetched_converted_and_stored() {
    let step = start();
    assert!(matches!(
        &step,
        ConvertStep::FetchSource { request, input_path, .. }
            if request.source_key == "a.docx" && is_path(input_path, "input")
    ));
    let step = step.resume(ConvertReply::SourceFetched(Ok(())));
    assert!(matches!(
        &step,
        ConvertStep::RunOffice { input_path, output_path, .. }
            if is_path(input_path, "input") && is_path(output_path, "output")
    ));
    let step = step.resume(ConvertReply::OfficeReplied(Ok(Ok(()))));
    assert!(matches!(
        &step,
        ConvertStep::StoreOutput { dest_bucket, dest_key, output_path }
            if dest_bucket == "out" && dest_key == "a.pdf" && is_path(output_path, "output")
    ));
    let step = step.resume(ConvertReply::OutputStored(Ok(())));
    assert!(matches!(step, ConvertStep::Done(Ok(()))));
}

#[test]
fn conversion_errors_are_passed_on() {
    let step = start().resume(ConvertReply::SourceFetched(Err(LambdaError::NoSuchKey)));
    assert!(matches!(step, ConvertStep::Done(Err(LambdaError::NoSuchKey))));
    let run = || start().resume(ConvertReply::SourceFetched(Ok(())));
    let step = run().resume(ConvertReply::OfficeReplied(Err(LambdaError::RunOffice)));
    assert!(matches!(step, ConvertStep::Done(Err(LambdaError::RunOffice))));
    let step = run()
        .resume(ConvertReply::OfficeReplied(Ok(Ok(()))))
        .resume(ConvertReply::OutputStored(Err(LambdaError::UploadOutputStream)));
    assert!(matches!(step, ConvertStep::Done(Err(LambdaError::UploadOutputStream))));
}

#[test]
fn refused_conversion_is_inspected() {
    let inspect = |error| {
        let step = start()
            .resume(ConvertReply::SourceFetched(Ok(())))
            .resume(ConvertReply::OfficeReplied(Ok(Err(error))));
        assert!(matches!(
            &step,
            ConvertStep::InspectInput { input_path, .. } if is_path(input_path, "input")
        ));
        step
    };
    let url = || OfficeConvertError::OfficeError("Unsupported URL".to_string());
    assert!(matches!(
        inspect(url()).resume(ConvertReply::InputInspected(Err(()))),
        ConvertStep::Done(Err(LambdaError::ReadFileIntegrity))
    ));
    assert!(matches!(
        inspect(url()).resume(ConvertReply::InputInspected(Ok(FileCondition::Normal))),
        ConvertStep::Done(Err(LambdaError::FileLikelyEncrypted))
    ));
    assert!(matches!(
        inspect(OfficeConvertError::ConvertFailure)
            .resume(ConvertReply::InputInspected(Ok(FileCondition::Normal))),
        ConvertStep::Done(Err(LambdaError::ConvertFailed(text))) if text == "failed to convert file"
    ));
}

#[test]
fn timeout_is_configured_in_seconds() {
    let timeout = |value: &str| convert_timeout(Some(value.to_string()));
    assert_eq!(convert_timeout(None).unwrap(), Duration::from_secs(60));
    assert_eq!(timeout("5").unwrap(), Duration::from_secs(5));
    assert_eq!(timeout("+5").unwrap(), Duration::from_secs(5));
    for value in ["", "-5", "5s", " 5", "5.0", "18446744073709551616"] {
        assert!(matches!(timeout(value), Err(LambdaError::InvalidConvertTimeoutSeconds)));
    }
}

#[test]
fn dependencies_are_set_up() {
    let step = dependencies(Some(path("office")));
    assert!(matches!(&step, DependencyStep::MakeAbsolute(at) if is_path(at, "office")));
    let step = dependencies(None);
    assert!(matches!(&step, DependencyStep::FindInstall));
    let step = step.resume(DependencyReply::InstallFound(Some(path("found"))));
    assert!(matches!(&step, DependencyStep::MakeAbsolute(at) if is_path(at, "found")));
    let step = step.resume(DependencyReply::Absolute(Ok(path("full"))));
    assert!(matches!(&step, DependencyStep::StartRunner(at) if is_path(at, "full")));
    let step = step.resume(DependencyReply::RunnerStarted(Ok(())));
    assert!(matches!(&step, DependencyStep::ReadTimeout));
    let step = step.resume(DependencyReply::TimeoutRead(Some("9".to_string())));
    assert!(
        matches!(step, DependencyStep::Done(Ok(timeout)) if timeout == Duration::from_secs(9))
    );
}

#[test]
fn dependency_failures_are_reported() {
    assert!(matches!(
        dependencies(None).resume(DependencyReply::InstallFound(None)),
        DependencyStep::Done(Err(LambdaError::OfficePathMissing))
    ));
    let absolute = || dependencies(Some(path("office")));
    assert!(matches!(
        absolute().resume(DependencyReply::Absolute(Err(()))),
        DependencyStep::Done(Err(LambdaError::OfficePathAbsolute))
    ));
    let start = || absolute().resume(DependencyReply::Absolute(Ok(path("full"))));
    assert!(matches!(
        start().resume(DependencyReply::RunnerStarted(Err(OfficeRunnerError::TaskClosed))),
        DependencyStep::Done(Err(LambdaError::InitializeOffice))
    ));
    assert!(matches!(
        start()
            .resume(DependencyReply::RunnerStarted(Ok(())))
            .resume(DependencyReply::TimeoutRead(Some("soon".to_string()))),
        DependencyStep::Done(Err(LambdaError::InvalidConvertTimeoutSeconds))
    ));
}

fn ready() -> HandleStep {
    handle_request(Ok(request()), None)
        .resume(HandleReply::DependenciesReady(Ok(Duration::from_secs(7))))
        .resume(HandleReply::TempDirReady(Ok(path("dir"))))
        .resume(HandleReply::TempPathsReady(Ok((path("input"), path("output")))))
}

#[test]
fn request_is_served() {
    let step = handle_request(Ok(request()), None);
    assert!(matches!(&step, HandleStep::InitDependencies(_)));
    let step = step.resume(HandleReply::DependenciesReady(Ok(Duration::from_secs(7))));
    assert!(matches!(&step, HandleStep::SetupTempDir { .. }));
    let step = step.resume(HandleReply::TempDirReady(Ok(path("dir"))));
    assert!(matches!(&step, HandleStep::SetupTempPaths { temp_dir, .. } if is_path(temp_dir, "dir")));
    let step = ready();
    assert!(matches!(
        &step,
        HandleStep::Convert { request, timeout, input_path, output_path }
            if request.dest_key == "a.pdf"
                && *timeout == Duration::from_secs(7)
                && is_path(input_path, "input")
                && is_path(output_path, "output")
    ));
    let step = step.resume(HandleReply::Converted(Ok(())));
    assert!(matches!(
        &step,
        HandleStep::Cleanup { input_path, output_path }
            if is_path(input_path, "input") && is_path(output_path, "output")
    ));
    let step = step.resume(HandleReply::CleanupStarted);
    assert!(matches!(step, HandleStep::Done(Ok(()))));
}

#[test]
fn unreadable_request_is_refused() {
    for ready in [None, Some(Duration::from_secs(7))] {
        assert!(matches!(
            handle_request(Err("missing field".to_string()), ready),
            HandleStep::Done(Err(LambdaError::ParseRequest(text))) if text == "missing field"
        ));
    }
}

#[test]
fn first_error_is_answered() {
    let init = || handle_request(Ok(request()), None);
    assert!(matches!(
        init().resume(HandleReply::DependenciesReady(Err(LambdaError::InitializeOffice))),
        HandleStep::Done(Err(LambdaError::InitializeOffice))
    ));
    let dir = || init().resume(HandleReply::DependenciesReady(Ok(Duration::from_secs(7))));
    assert!(matches!(
        dir().resume(HandleReply::TempDirReady(Err(LambdaError::SetupTempDirFailed))),
        HandleStep::Done(Err(LambdaError::SetupTempDirFailed))
    ));
    let paths = || dir().resume(HandleReply::TempDirReady(Ok(path("dir"))));
    assert!(matches!(
        paths().resume(HandleReply::TempPathsReady(Err(()))),
        HandleStep::Done(Err(LambdaError::SetupTempPathFailed))
    ));
    assert!(matches!(
        ready().resume(HandleReply::Converted(Err(LambdaError::FileLikelyCorrupted))),
        HandleStep::Done(Err(LambdaError::FileLikelyCorrupted))
    ));
}

/// Serves a request up to the conversion; returns whether the process was set
/// up for it, the timeout of the conversion, and the timeout to keep.
fn serve(
    kept: Option<Duration>,
    set_up: Result<Duration, LambdaError>,
) -> (bool, Option<Duration>, Option<Duration>) {
    let step = handle_request(Ok(request()), kept);
    let (asked, kept, step) = match (step, set_up) {
        (step @ HandleStep::InitDependencies(_), Ok(timeout)) => {
            (true, Some(timeout), step.resume(HandleReply::DependenciesReady(Ok(timeout))))
        }
        (step @ HandleStep::InitDependencies(_), Err(error)) => {
            (true, None, step.resume(HandleReply::DependenciesReady(Err(error))))
        }
        (step, _) => (false, kept, step),
    };
    if matches!(step, HandleStep::Done(Err(_))) {
        return (asked, None, kept);
    }
    let step = step
        .resume(HandleReply::TempDirReady(Ok(path("dir"))))
        .resume(HandleReply::TempPathsReady(Ok((path("input"), path("output")))));
    match step {
        HandleStep::Convert { timeout, .. } => (asked, Some(timeout), kept),
        _ => panic!("no conversion"),
    }
}

#[test]
fn process_is_set_up_until_it_succeeds() {
    let (first, second) = (Duration::from_secs(7), Duration::from_secs(8));
    let (asked, given, kept) = serve(None, Err(LambdaError::InitializeOffice));
    assert_eq!((asked, given, kept), (true, None, None));
    let (asked, given, kept) = serve(kept, Ok(first));
    assert_eq!((asked, given, kept), (true, Some(first), Some(first)));
    let (asked, given, kept) = serve(kept, Ok(second));
    assert_eq!((asked, given, kept), (false, Some(first), Some(first)));
}

#[test]
fn timeout_aborts_the_process() {
    assert!(matches!(ready().resume(HandleReply::TimedOut), HandleStep::Abort));
}

#[test]
fn requests_are_answered() {
    assert!(function_handler(Ok(())).unwrap().success);
    let response = function_handler(Err(LambdaError::ConvertFailed("x".to_string()))).unwrap_err();
    assert_eq!(response.reason, "CONVERT_FAILED");
    assert_eq!(response.message, "failed to convert file: x");
}

#[test]
fn steps_hand_their_work_down() {
    let step = ready();
    let conversion = step.conversion().unwrap();
    assert!(step.clearing().is_none());
    assert!(ready().resume(HandleReply::TimedOut).conversion().is_none());
    assert!(matches!(
        &conversion,
        ConvertStep::FetchSource { request, input_path, output_path }
            if request.source_bucket == "in"
                && request.dest_key == "a.pdf"
                && is_path(input_path, "input")
                && is_path(output_path, "output")
    ));
    assert!(matches!(
        conversion.source(),
        Some(SourceStep::GetObject { bucket, key, file_path })
            if bucket == "in" && key == "a.docx" && is_path(&file_path, "input")
    ));
    assert!(conversion.message().is_none() && conversion.output().is_none());

    let step = conversion.resume(ConvertReply::SourceFetched(Ok(())));
    let message = step.message().unwrap();
    assert!(is_path(&message.input_path, "input") && is_path(&message.output_path, "output"));
    assert!(step.source().is_none() && step.inspection::<()>().is_none());

    let step = step.resume(ConvertReply::OfficeReplied(Ok(Ok(()))));
    assert!(matches!(
        step.output(),
        Some(OutputStep::OpenFile { bucket, key, file_path })
            if bucket == "out" && key == "a.pdf" && is_path(&file_path, "output")
    ));

    let refused = start()
        .resume(ConvertReply::SourceFetched(Ok(())))
        .resume(ConvertReply::OfficeReplied(Ok(Err(OfficeConvertError::ConvertFailure))));
    assert!(matches!(
        refused.inspection::<()>(),
        Some(ConditionStep::OpenFile(path)) if is_path(&path, "input")
    ));

    let step = ready().resume(HandleReply::Converted(Ok(())));
    assert!(matches!(
        step.clearing(),
        Some(CleanupStep::CheckInput { input, output })
            if is_path(&input, "input") && is_path(&output, "output")
    ));
}
