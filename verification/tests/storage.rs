use office_convert_lambda::error::LambdaError;
use office_convert_lambda::path::{Part, PathParts};
use office_convert_lambda::storage::{
    stream_output_file, stream_source_file, GetObjectFailure, OutputReply, OutputStep, SourceReply,
    SourceStep,
};

fn path(name: &str) -> PathParts {
    PathParts::new(vec![Part::Root, Part::Name(name.as_bytes().to_vec())]).unwrap()
}

fn is_path(path: &PathParts, name: &str) -> bool {
    matches!(&path.parts()[1], Part::Name(bytes) if bytes == name.as_bytes())
}

fn source() -> SourceStep {
    stream_source_file("in".to_string(), "a.docx".to_string(), path("input"))
}

#[test]
fn source_is_written_chunk_by_chunk() {
    let mut chunks = vec![b"ab".to_vec(), Vec::new(), b"cde".to_vec()].into_iter();
    let mut file: Vec<u8> = Vec::new();
    let mut flushed = false;
    let mut step = source();
    loop {
        let reply = match &step {
            SourceStep::GetObject { bucket, key, .. } => {
                assert_eq!((bucket.as_str(), key.as_str()), ("in", "a.docx"));
                SourceReply::Object(Ok(()))
            }
            SourceStep::CreateFile(at) => {
                assert!(is_path(at, "input"));
                SourceReply::FileCreated(Ok(()))
            }
            SourceStep::NextChunk => SourceReply::Chunk(chunks.next().map(Ok)),
            SourceStep::WriteChunk(chunk) => {
                file.extend_from_slice(chunk);
                SourceReply::ChunkWritten(Ok(()))
            }
            SourceStep::Flush => {
                flushed = true;
                SourceReply::Flushed(Ok(()))
            }
            SourceStep::Done(_) => break,
        };
        step = step.resume(reply);
    }
    assert!(matches!(step, SourceStep::Done(Ok(()))));
    assert_eq!(file, b"abcde".to_vec());
    assert!(flushed);
}

#[test]
fn missing_key_is_told_from_other_failures() {
    let fetch = |service_says_no_such_key| {
        source().resume(SourceReply::Object(Err(GetObjectFailure { service_says_no_such_key })))
    };
    assert!(matches!(fetch(Some(true)), SourceStep::Done(Err(LambdaError::NoSuchKey))));
    assert!(matches!(fetch(Some(false)), SourceStep::Done(Err(LambdaError::GetObject))));
    assert!(matches!(fetch(None), SourceStep::Done(Err(LambdaError::GetObject))));
}

#[test]
fn source_failures_are_reported() {
    let create = || source().resume(SourceReply::Object(Ok(())));
    assert!(matches!(
        create().resume(SourceReply::FileCreated(Err(()))),
        SourceStep::Done(Err(LambdaError::CreateSourceFile))
    ));
    let next = || create().resume(SourceReply::FileCreated(Ok(())));
    assert!(matches!(
        next().resume(SourceReply::Chunk(Some(Err(())))),
        SourceStep::Done(Err(LambdaError::ReadSourceChunk))
    ));
    let write = || next().resume(SourceReply::Chunk(Some(Ok(vec![1]))));
    assert!(matches!(
        write().resume(SourceReply::ChunkWritten(Err(()))),
        SourceStep::Done(Err(LambdaError::WriteSourceChunk))
    ));
    let flush = || next().resume(SourceReply::Chunk(None));
    assert!(matches!(
        flush().resume(SourceReply::Flushed(Err(()))),
        SourceStep::Done(Err(LambdaError::FlushSource))
    ));
}

#[test]
fn output_is_opened_and_stored() {
    let open = || stream_output_file("out".to_string(), "a.pdf".to_string(), path("output"));
    assert!(
        matches!(open(), OutputStep::OpenFile { file_path, .. } if is_path(&file_path, "output"))
    );
    assert!(matches!(
        open().resume(OutputReply::FileOpened(Err(()))),
        OutputStep::Done(Err(LambdaError::CreateOutputStream))
    ));
    let put = || open().resume(OutputReply::FileOpened(Ok(())));
    assert!(
        matches!(put(), OutputStep::PutObject { bucket, key, file_path }
            if bucket == "out" && key == "a.pdf" && is_path(&file_path, "output"))
    );
    assert!(matches!(
        put().resume(OutputReply::ObjectPut(Err(()))),
        OutputStep::Done(Err(LambdaError::UploadOutputStream))
    ));
    assert!(matches!(put().resume(OutputReply::ObjectPut(Ok(()))), OutputStep::Done(Ok(()))));
}

#[test]
fn uploaded_file_is_fetched_again() {
    let content = b"%PDF-1.7 and so on".to_vec();
    let put = stream_output_file("out".to_string(), "a.pdf".to_string(), path("output"))
        .resume(OutputReply::FileOpened(Ok(())));
    let (stored_bucket, stored_key, object) = match &put {
        OutputStep::PutObject { bucket, key, file_path } => {
            assert!(is_path(file_path, "output"));
            (bucket.clone(), key.clone(), content.clone())
        }
        _ => panic!("nothing stored"),
    };
    assert!(matches!(put.resume(OutputReply::ObjectPut(Ok(()))), OutputStep::Done(Ok(()))));

    let mut chunks = object.chunks(5);
    let mut file: Vec<u8> = Vec::new();
    let mut step = stream_source_file(stored_bucket, stored_key, path("again"));
    loop {
        let reply = match &step {
            SourceStep::GetObject { bucket, key, .. } => {
                assert_eq!((bucket.as_str(), key.as_str()), ("out", "a.pdf"));
                SourceReply::Object(Ok(()))
            }
            SourceStep::CreateFile(at) => {
                assert!(is_path(at, "again"));
                SourceReply::FileCreated(Ok(()))
            }
            SourceStep::NextChunk => SourceReply::Chunk(chunks.next().map(|part| Ok(part.to_vec()))),
            SourceStep::WriteChunk(chunk) => {
                file.extend_from_slice(chunk);
                SourceReply::ChunkWritten(Ok(()))
            }
            SourceStep::Flush => SourceReply::Flushed(Ok(())),
            SourceStep::Done(result) => {
                assert!(result.is_ok());
                break;
            }
        };
        step = step.resume(reply);
    }
    assert_eq!(file, content);
}
