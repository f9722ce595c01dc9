use office_convert_lambda::error::LambdaError;
use office_convert_lambda::office::{
    convert_document, create_office_runner, decline_password, office_runner, on_callback,
    open_document, runner_answer, Callback, CallbackAction, ConvertMessage, DocumentReply, DocumentStep,
    OfficeConvertError, OfficeRunnerError, RunnerReply, RunnerStep,
};
use office_convert_lambda::path::{Part, PathParts};

/// The absolute path with these names.
fn path(names: &[&str]) -> PathParts {
    let mut parts = vec![Part::Root];
    for name in names {
        parts.push(Part::Name(name.as_bytes().to_vec()));
    }
    PathParts::new(parts).unwrap()
}

fn install() -> PathParts {
    path(&["opt"])
}

#[test]
fn office_errors_are_described() {
    assert_eq!(OfficeRunnerError::OfficeError("bad".to_string()).message(), "bad");
    assert_eq!(
        OfficeRunnerError::TaskClosed.message(),
        "office runner task closed unexpectedly"
    );
    assert_eq!(OfficeConvertError::OfficeError("worse".to_string()).message(), "worse");
    assert_eq!(OfficeConvertError::ConvertFailure.message(), "failed to convert file");
}

#[test]
fn documents_are_named_by_url() {
    match convert_document(&path(&["tmp", "a b#1.docx"]), &path(&["tmp", "out.pdf"])) {
        DocumentStep::Load { url, options, output_url } => {
            assert_eq!(url, "file:///tmp/a%20b%231.docx");
            assert_eq!(options, "InteractionHandler=0,Batch=1");
            assert_eq!(output_url, "file:///tmp/out.pdf");
        }
        _ => panic!("not loaded"),
    }
    assert!(matches!(
        convert_document(&path(&[]), &path(&["ñ"])),
        DocumentStep::Load { url, output_url, .. }
            if url == "file:///" && output_url == "file:///%C3%B1"
    ));
    assert!(matches!(
        convert_document(&path(&["nul\0byte"]), &path(&["x"])),
        DocumentStep::Load { url, .. } if url == "file:///nul%00byte"
    ));
    let odd = PathParts::new(vec![Part::Root, Part::Name(vec![97, 255])]).unwrap();
    assert!(matches!(
        convert_document(&odd, &path(&["x"])),
        DocumentStep::Load { url, .. } if url == "file:///a%EF%BF%BD"
    ));
}

#[test]
fn missing_url_ends_the_conversion() {
    let bad = |text: &str| Err(text.to_string());
    let good = || Ok("file:///x".to_string());
    assert!(matches!(
        open_document(bad("in"), bad("out")),
        DocumentStep::Done(Err(OfficeConvertError::OfficeError(text))) if text == "in"
    ));
    assert!(matches!(
        open_document(good(), bad("out")),
        DocumentStep::Done(Err(OfficeConvertError::OfficeError(text))) if text == "out"
    ));
    assert!(matches!(
        open_document(good(), good()),
        DocumentStep::Load { options: "InteractionHandler=0,Batch=1", .. }
    ));
}

#[test]
fn document_is_loaded_and_saved() {
    let load = || convert_document(&path(&["in"]), &path(&["out"]));
    assert!(matches!(
        load().resume(DocumentReply::Loaded(Err("no filter".to_string()))),
        DocumentStep::Done(Err(OfficeConvertError::OfficeError(text))) if text == "no filter"
    ));
    let save = || load().resume(DocumentReply::Loaded(Ok(())));
    assert!(matches!(save(), DocumentStep::Save { url, format: "pdf" } if url == "file:///out"));
    assert!(matches!(
        save().resume(DocumentReply::Saved(Err("disk".to_string()))),
        DocumentStep::Done(Err(OfficeConvertError::OfficeError(text))) if text == "disk"
    ));
    assert!(matches!(
        save().resume(DocumentReply::Saved(Ok(false))),
        DocumentStep::Done(Err(OfficeConvertError::ConvertFailure))
    ));
    assert!(matches!(save().resume(DocumentReply::Saved(Ok(true))), DocumentStep::Done(Ok(()))));
}

#[test]
fn passwords_are_declined() {
    let input = path(&["tmp", "a b"]);
    assert!(matches!(
        on_callback(Callback::DocumentPassword, Some(&input)),
        CallbackAction::DeclinePassword { url } if url == "file:///tmp/a%20b"
    ));
    assert!(matches!(on_callback(Callback::DocumentPassword, None), CallbackAction::Ignore));
    assert!(matches!(on_callback(Callback::JsDialog, None), CallbackAction::NoteDialog));
    assert!(matches!(on_callback(Callback::JsDialog, Some(&input)), CallbackAction::NoteDialog));
    assert!(matches!(on_callback(Callback::Other, Some(&input)), CallbackAction::Ignore));
    assert!(matches!(decline_password(Err("x".to_string())), CallbackAction::Ignore));
    assert!(matches!(
        decline_password(Ok("u".to_string())),
        CallbackAction::DeclinePassword { url } if url == "u"
    ));
}

#[test]
fn startup_is_awaited() {
    assert!(matches!(create_office_runner(None), Err(OfficeRunnerError::TaskClosed)));
    assert!(create_office_runner(Some(Ok(()))).is_ok());
    let failure = OfficeRunnerError::OfficeError("x".to_string());
    assert!(matches!(
        create_office_runner(Some(Err(failure))),
        Err(OfficeRunnerError::OfficeError(text)) if text == "x"
    ));
}

fn started() -> RunnerStep {
    office_runner(install())
        .resume(RunnerReply::OfficeCreated(Ok(())))
        .resume(RunnerReply::FeaturesSet(Ok(())))
        .resume(RunnerReply::CallbackRegistered(Ok(())))
        .resume(RunnerReply::Reported)
}

#[test]
fn runner_is_set_up_before_it_reports() {
    let step = office_runner(install());
    assert!(matches!(&step, RunnerStep::CreateOffice(path) if path.parts().len() == 2));
    let step = step.resume(RunnerReply::OfficeCreated(Ok(())));
    assert!(matches!(step, RunnerStep::SetFeatures));
    let step = step.resume(RunnerReply::FeaturesSet(Ok(())));
    assert!(matches!(step, RunnerStep::RegisterCallback));
    let step = step.resume(RunnerReply::CallbackRegistered(Ok(())));
    assert!(matches!(step, RunnerStep::ReportStarted));
    assert!(step.current_input().is_none());
    assert!(matches!(step.resume(RunnerReply::Reported), RunnerStep::Receive));
}

#[test]
fn runner_reports_failure_to_start() {
    let failed = |step: RunnerStep| {
        assert!(matches!(
            &step,
            RunnerStep::ReportFailed(OfficeRunnerError::OfficeError(text)) if text == "x"
        ));
        assert!(matches!(step.resume(RunnerReply::Reported), RunnerStep::Stopped));
    };
    let error = || Err("x".to_string());
    failed(office_runner(install()).resume(RunnerReply::OfficeCreated(error())));
    let created = || office_runner(install()).resume(RunnerReply::OfficeCreated(Ok(())));
    failed(created().resume(RunnerReply::FeaturesSet(error())));
    failed(
        created()
            .resume(RunnerReply::FeaturesSet(Ok(())))
            .resume(RunnerReply::CallbackRegistered(error())),
    );
}

#[test]
fn runner_answers_each_sender() {
    let mut step = started();
    for name in ["a", "b"] {
        let bytes = format!("/{}", name).into_bytes();
        assert!(step.current_input().is_none() && step.document().is_none());
        let message = ConvertMessage {
            input_path: path(&[name]),
            output_path: path(&["pdf", name]),
        };
        step = step.resume(RunnerReply::Received(Some(message)));
        assert!(matches!(
            step.document(),
            Some(DocumentStep::Load { url, output_url, .. })
                if url == format!("file:///{}", name) && output_url == format!("file:///pdf/{}", name)
        ));
        assert_eq!(step.current_input().unwrap().bytes(), bytes);
        let result = if name == "a" { Ok(()) } else { Err(OfficeConvertError::ConvertFailure) };
        step = step.resume(RunnerReply::Converted(result));
        match &step {
            RunnerStep::Reply { input_path, result } => {
                assert_eq!(input_path.bytes(), bytes);
                assert_eq!(result.is_ok(), name == "a");
            }
            _ => panic!("not replied"),
        }
        assert_eq!(step.current_input().unwrap().bytes(), bytes);
        step = step.resume(RunnerReply::Replied);
        assert!(matches!(step, RunnerStep::Receive));
    }
    assert!(matches!(step.resume(RunnerReply::Received(None)), RunnerStep::Stopped));
}

#[test]
fn runner_that_cannot_be_asked_is_reported() {
    assert!(matches!(runner_answer(false, None), Err(LambdaError::RunOffice)));
    assert!(matches!(runner_answer(false, Some(Ok(()))), Err(LambdaError::RunOffice)));
    assert!(matches!(runner_answer(true, None), Err(LambdaError::ResponseError)));
    assert!(matches!(runner_answer(true, Some(Ok(()))), Ok(Ok(()))));
    assert!(matches!(
        runner_answer(true, Some(Err(OfficeConvertError::ConvertFailure))),
        Ok(Err(OfficeConvertError::ConvertFailure))
    ));
}
