use office_convert_lambda::error::{LambdaError, LambdaErrorResponse};

fn all() -> Vec<(LambdaError, &'static str, &'static str)> {
    vec![
        (
            LambdaError::ParseRequest("missing field".to_string()),
            "PARSE_REQUEST",
            "failed to parse request: missing field",
        ),
        (
            LambdaError::OfficePathAbsolute,
            "OFFICE_PATH_ABSOLUTE",
            "failed to make office path absolute",
        ),
        (LambdaError::OfficePathMissing, "OFFICE_PATH_MISSING", "missing office path"),
        (
            LambdaError::InitializeOffice,
            "INITIALIZE_OFFICE",
            "failed to initialize office runner",
        ),
        (
            LambdaError::InvalidConvertTimeoutSeconds,
            "INVALID_CONVERT_TIMEOUT_SECONDS",
            "invalid convert timeout seconds",
        ),
        (
            LambdaError::SetupTempDirFailed,
            "SETUP_TEMP_DIR_FAILED",
            "failed to create temporary directory",
        ),
        (
            LambdaError::SetupTempPathFailed,
            "SETUP_TEMP_FAILED",
            "failed to create temporary paths",
        ),
        (LambdaError::NoSuchKey, "NO_SUCH_KEY", "key not found in source bucket"),
        (LambdaError::GetObject, "GET_OBJECT", "failed to get object from s3"),
        (LambdaError::CreateSourceFile, "CREATE_SOURCE_FILE", "failed to create source file"),
        (LambdaError::ReadSourceChunk, "READ_SOURCE_CHUNK", "failed to read object chunk"),
        (LambdaError::WriteSourceChunk, "WRITE_SOURCE_CHUNK", "failed to write object chunk"),
        (LambdaError::FlushSource, "FLUSH_SOURCE", "failed to flush object"),
        (
            LambdaError::CreateOutputStream,
            "CREATE_OUTPUT_STREAM",
            "failed to create output stream",
        ),
        (
            LambdaError::UploadOutputStream,
            "UPLOAD_OUTPUT_STREAM",
            "failed to upload output stream",
        ),
        (LambdaError::RunOffice, "RUN_OFFICE", "failed to run office"),
        (LambdaError::ResponseError, "RESPONSE_ERROR", "failed to wait for worker response"),
        (
            LambdaError::ReadFileIntegrity,
            "READ_FILE_INTEGRITY",
            "failed to ready input file for integrity check",
        ),
        (LambdaError::FileLikelyEncrypted, "FILE_LIKELY_ENCRYPTED", "file is encrypted"),
        (LambdaError::FileLikelyCorrupted, "FILE_LIKELY_CORRUPTED", "file is corrupted"),
        (
            LambdaError::ConvertFailed("no filter".to_string()),
            "CONVERT_FAILED",
            "failed to convert file: no filter",
        ),
    ]
}

#[test]
fn errors_have_their_reasons_and_messages() {
    for (error, reason, message) in all() {
        assert_eq!(error.reason(), reason);
        assert_eq!(error.message(), message);
    }
}

#[test]
fn answers_hold_reason_and_message() {
    for (error, reason, message) in all() {
        let response = LambdaErrorResponse::from(error);
        assert_eq!(response.reason, reason);
        assert_eq!(response.message, message);
    }
}

#[test]
fn reasons_are_distinct() {
    let errors = all();
    for i in 0..errors.len() {
        for j in 0..i {
            assert_ne!(errors[i].0.reason(), errors[j].0.reason());
        }
    }
}
