//! What the lambda answers when it cannot serve a request.

use vstd::prelude::*;

verus! {

/// The answer to a request that could not be served.
#[derive(Debug)]
pub struct LambdaErrorResponse {
    /// Stable code of the error, meant for programs
    pub reason: &'static str,
    /// Description of the error, meant for people
    pub message: String,
}

/// The two texts of an answer.
pub struct ErrorText {
    pub reason: Seq<char>,
    pub message: Seq<char>,
}

impl View for LambdaErrorResponse {
    type V = ErrorText;

    open spec fn view(&self) -> ErrorText {
        ErrorText { reason: self.reason@, message: self.message@ }
    }
}

/// The ways in which serving a request can fail.
#[derive(Debug)]
pub enum LambdaError {
    /// The request does not read; the text says why
    ParseRequest(String),
    /// The path of the office install could not be made absolute
    OfficePathAbsolute,
    /// No office install was named and none was found
    OfficePathMissing,
    /// The office runner did not start
    InitializeOffice,
    /// The configured conversion timeout is not a number of seconds
    InvalidConvertTimeoutSeconds,
    /// The directory for temporary files could not be created
    SetupTempDirFailed,
    /// The paths of the temporary files could not be set up
    SetupTempPathFailed,
    /// The source bucket holds no object under the key
    NoSuchKey,
    /// The source object could not be fetched
    GetObject,
    /// The local copy of the source could not be created
    CreateSourceFile,
    /// A chunk of the source object could not be read
    ReadSourceChunk,
    /// A chunk could not be written to the local copy
    WriteSourceChunk,
    /// The local copy could not be flushed
    FlushSource,
    /// The converted file could not be opened for upload
    CreateOutputStream,
    /// The converted file could not be uploaded
    UploadOutputStream,
    /// The office runner could not be reached
    RunOffice,
    /// The office runner went away before it answered
    ResponseError,
    /// The input file could not be read to check its condition
    ReadFileIntegrity,
    /// The input file is probably protected by a password
    FileLikelyEncrypted,
    /// The input file is probably damaged
    FileLikelyCorrupted,
    /// Office could not convert the file; the text says why
    ConvertFailed(String),
}

/// The view of an error is what a caller gets to see of it.
impl View for LambdaError {
    type V = ErrorText;

    open spec fn view(&self) -> ErrorText {
        ErrorText { reason: self.reason_text(), message: self.message_text() }
    }
}

impl LambdaError {
    /// The code of an error.
    pub open spec fn reason_text(self) -> Seq<char> {
        match self {
            LambdaError::ParseRequest(_) => "PARSE_REQUEST"@,
            LambdaError::OfficePathAbsolute => "OFFICE_PATH_ABSOLUTE"@,
            LambdaError::OfficePathMissing => "OFFICE_PATH_MISSING"@,
            LambdaError::InitializeOffice => "INITIALIZE_OFFICE"@,
            LambdaError::InvalidConvertTimeoutSeconds => "INVALID_CONVERT_TIMEOUT_SECONDS"@,
            LambdaError::SetupTempDirFailed => "SETUP_TEMP_DIR_FAILED"@,
            LambdaError::SetupTempPathFailed => "SETUP_TEMP_FAILED"@,
            LambdaError::NoSuchKey => "NO_SUCH_KEY"@,
            LambdaError::GetObject => "GET_OBJECT"@,
            LambdaError::CreateSourceFile => "CREATE_SOURCE_FILE"@,
            LambdaError::ReadSourceChunk => "READ_SOURCE_CHUNK"@,
            LambdaError::WriteSourceChunk => "WRITE_SOURCE_CHUNK"@,
            LambdaError::FlushSource => "FLUSH_SOURCE"@,
            LambdaError::CreateOutputStream => "CREATE_OUTPUT_STREAM"@,
            LambdaError::UploadOutputStream => "UPLOAD_OUTPUT_STREAM"@,
            LambdaError::RunOffice => "RUN_OFFICE"@,
            LambdaError::ResponseError => "RESPONSE_ERROR"@,
            LambdaError::ReadFileIntegrity => "READ_FILE_INTEGRITY"@,
            LambdaError::FileLikelyEncrypted => "FILE_LIKELY_ENCRYPTED"@,
            LambdaError::FileLikelyCorrupted => "FILE_LIKELY_CORRUPTED"@,
            LambdaError::ConvertFailed(_) => "CONVERT_FAILED"@,
        }
    }

    /// The description of an error.
    pub open spec fn message_text(self) -> Seq<char> {
        match self {
            LambdaError::ParseRequest(text) => "failed to parse request: "@ + text@,
            LambdaError::OfficePathAbsolute => "failed to make office path absolute"@,
            LambdaError::OfficePathMissing => "missing office path"@,
            LambdaError::InitializeOffice => "failed to initialize office runner"@,
            LambdaError::InvalidConvertTimeoutSeconds => "invalid convert timeout seconds"@,
            LambdaError::SetupTempDirFailed => "failed to create temporary directory"@,
            LambdaError::SetupTempPathFailed => "failed to create temporary paths"@,
            LambdaError::NoSuchKey => "key not found in source bucket"@,
            LambdaError::GetObject => "failed to get object from s3"@,
            LambdaError::CreateSourceFile => "failed to create source file"@,
            LambdaError::ReadSourceChunk => "failed to read object chunk"@,
            LambdaError::WriteSourceChunk => "failed to write object chunk"@,
            LambdaError::FlushSource => "failed to flush object"@,
            LambdaError::CreateOutputStream => "failed to create output stream"@,
            LambdaError::UploadOutputStream => "failed to upload output stream"@,
            LambdaError::RunOffice => "failed to run office"@,
            LambdaError::ResponseError => "failed to wait for worker response"@,
            LambdaError::ReadFileIntegrity => "failed to ready input file for integrity check"@,
            LambdaError::FileLikelyEncrypted => "file is encrypted"@,
            LambdaError::FileLikelyCorrupted => "file is corrupted"@,
            LambdaError::ConvertFailed(text) => "failed to convert file: "@ + text@,
        }
    }

    /// The code of this error.
    pub fn reason(&self) -> (res: &'static str)
        ensures
            res@ == self@.reason,
    {
        match self {
            LambdaError::ParseRequest(_) => "PARSE_REQUEST",
            LambdaError::OfficePathAbsolute => "OFFICE_PATH_ABSOLUTE",
            LambdaError::OfficePathMissing => "OFFICE_PATH_MISSING",
            LambdaError::InitializeOffice => "INITIALIZE_OFFICE",
            LambdaError::InvalidConvertTimeoutSeconds => "INVALID_CONVERT_TIMEOUT_SECONDS",
            LambdaError::SetupTempDirFailed => "SETUP_TEMP_DIR_FAILED",
            LambdaError::SetupTempPathFailed => "SETUP_TEMP_FAILED",
            LambdaError::NoSuchKey => "NO_SUCH_KEY",
            LambdaError::GetObject => "GET_OBJECT",
            LambdaError::CreateSourceFile => "CREATE_SOURCE_FILE",
            LambdaError::ReadSourceChunk => "READ_SOURCE_CHUNK",
            LambdaError::WriteSourceChunk => "WRITE_SOURCE_CHUNK",
            LambdaError::FlushSource => "FLUSH_SOURCE",
            LambdaError::CreateOutputStream => "CREATE_OUTPUT_STREAM",
            LambdaError::UploadOutputStream => "UPLOAD_OUTPUT_STREAM",
            LambdaError::RunOffice => "RUN_OFFICE",
            LambdaError::ResponseError => "RESPONSE_ERROR",
            LambdaError::ReadFileIntegrity => "READ_FILE_INTEGRITY",
            LambdaError::FileLikelyEncrypted => "FILE_LIKELY_ENCRYPTED",
            LambdaError::FileLikelyCorrupted => "FILE_LIKELY_CORRUPTED",
            LambdaError::ConvertFailed(_) => "CONVERT_FAILED",
        }
    }

    /// The description of this error.
    pub fn message(&self) -> (res: String)
        ensures
            res@ == self@.message,
    {
        match self {
            LambdaError::ParseRequest(text) => "failed to parse request: ".to_owned().concat(text.as_str()),
            LambdaError::OfficePathAbsolute => "failed to make office path absolute".to_owned(),
            LambdaError::OfficePathMissing => "missing office path".to_owned(),
            LambdaError::InitializeOffice => "failed to initialize office runner".to_owned(),
            LambdaError::InvalidConvertTimeoutSeconds => "invalid convert timeout seconds".to_owned(),
            LambdaError::SetupTempDirFailed => "failed to create temporary directory".to_owned(),
            LambdaError::SetupTempPathFailed => "failed to create temporary paths".to_owned(),
            LambdaError::NoSuchKey => "key not found in source bucket".to_owned(),
            LambdaError::GetObject => "failed to get object from s3".to_owned(),
            LambdaError::CreateSourceFile => "failed to create source file".to_owned(),
            LambdaError::ReadSourceChunk => "failed to read object chunk".to_owned(),
            LambdaError::WriteSourceChunk => "failed to write object chunk".to_owned(),
            LambdaError::FlushSource => "failed to flush object".to_owned(),
            LambdaError::CreateOutputStream => "failed to create output stream".to_owned(),
            LambdaError::UploadOutputStream => "failed to upload output stream".to_owned(),
            LambdaError::RunOffice => "failed to run office".to_owned(),
            LambdaError::ResponseError => "failed to wait for worker response".to_owned(),
            LambdaError::ReadFileIntegrity => "failed to ready input file for integrity check".to_owned(),
            LambdaError::FileLikelyEncrypted => "file is encrypted".to_owned(),
            LambdaError::FileLikelyCorrupted => "file is corrupted".to_owned(),
            LambdaError::ConvertFailed(text) => "failed to convert file: ".to_owned().concat(text.as_str()),
        }
    }
}

impl From<LambdaError> for LambdaErrorResponse {
    fn from(value: LambdaError) -> (res: Self)
        ensures
            res@ == value@,
    {
        LambdaErrorResponse { message: value.message(), reason: value.reason() }
    }
}

impl vstd::std_specs::convert::FromSpecImpl<LambdaError> for LambdaErrorResponse {
    open spec fn obeys_from_spec() -> bool {
        false
    }

    open spec fn from_spec(value: LambdaError) -> Self {
        arbitrary()
    }
}

/// The code of an error tells which error it is.
pub proof fn law_reason_names_the_error(a: LambdaError, b: LambdaError)
    requires
        a@.reason == b@.reason,
    ensures
        match a {
            LambdaError::ParseRequest(_) => b is ParseRequest,
            LambdaError::ConvertFailed(_) => b is ConvertFailed,
            _ => a == b,
        },
{
    reveal_strlit("PARSE_REQUEST");
    reveal_strlit("OFFICE_PATH_ABSOLUTE");
    reveal_strlit("OFFICE_PATH_MISSING");
    reveal_strlit("INITIALIZE_OFFICE");
    reveal_strlit("INVALID_CONVERT_TIMEOUT_SECONDS");
    reveal_strlit("SETUP_TEMP_DIR_FAILED");
    reveal_strlit("SETUP_TEMP_FAILED");
    reveal_strlit("NO_SUCH_KEY");
    reveal_strlit("GET_OBJECT");
    reveal_strlit("CREATE_SOURCE_FILE");
    reveal_strlit("READ_SOURCE_CHUNK");
    reveal_strlit("WRITE_SOURCE_CHUNK");
    reveal_strlit("FLUSH_SOURCE");
    reveal_strlit("CREATE_OUTPUT_STREAM");
    reveal_strlit("UPLOAD_OUTPUT_STREAM");
    reveal_strlit("RUN_OFFICE");
    reveal_strlit("RESPONSE_ERROR");
    reveal_strlit("READ_FILE_INTEGRITY");
    reveal_strlit("FILE_LIKELY_ENCRYPTED");
    reveal_strlit("FILE_LIKELY_CORRUPTED");
    reveal_strlit("CONVERT_FAILED");
    let (r, s) = (a@.reason, b@.reason);
    assert(r.len() == s.len() && r[0] == s[0] && r[12] == s[12]);
}

/// An answer tells everything about the error behind it: two errors are
/// answered alike only where they are the same error with the same text.
pub proof fn law_answer_identifies_the_error(a: LambdaError, b: LambdaError)
    requires
        a@ == b@,
    ensures
        match a {
            LambdaError::ParseRequest(text) => b matches LambdaError::ParseRequest(other)
                && text@ == other@,
            LambdaError::ConvertFailed(text) => b matches LambdaError::ConvertFailed(other)
                && text@ == other@,
            _ => a == b,
        },
{
    law_reason_names_the_error(a, b);
    match (a, b) {
        (LambdaError::ParseRequest(text), LambdaError::ParseRequest(other)) => {
            lemma_same_prefix("failed to parse request: "@, text@, other@);
        },
        (LambdaError::ConvertFailed(text), LambdaError::ConvertFailed(other)) => {
            lemma_same_prefix("failed to convert file: "@, text@, other@);
        },
        _ => {},
    }
}

/// Texts that agree behind a common beginning are the same.
proof fn lemma_same_prefix(prefix: Seq<char>, a: Seq<char>, b: Seq<char>)
    requires
        prefix + a == prefix + b,
    ensures
        a == b,
{
    assert(a == (prefix + a).skip(prefix.len() as int));
    assert(b == (prefix + b).skip(prefix.len() as int));
}

/// What a caller gets to see of each error.
pub proof fn law_errors_are_told_like_this(error: LambdaError, response: LambdaErrorResponse)
    requires
        response@ == error@,
    ensures
        response.reason@ == error@.reason,
        response.message@ == error@.message,
        error matches LambdaError::ParseRequest(text) ==> response.reason@ == "PARSE_REQUEST"@
            && response.message@ == "failed to parse request: "@ + text@,
        error matches LambdaError::ConvertFailed(text) ==> response.reason@ == "CONVERT_FAILED"@
            && response.message@ == "failed to convert file: "@ + text@,
        error is OfficePathAbsolute ==> response.reason@ == "OFFICE_PATH_ABSOLUTE"@
            && response.message@ == "failed to make office path absolute"@,
        error is OfficePathMissing ==> response.reason@ == "OFFICE_PATH_MISSING"@
            && response.message@ == "missing office path"@,
        error is InitializeOffice ==> response.reason@ == "INITIALIZE_OFFICE"@ && response.message@
            == "failed to initialize office runner"@,
        error is InvalidConvertTimeoutSeconds ==> response.reason@
            == "INVALID_CONVERT_TIMEOUT_SECONDS"@ && response.message@
            == "invalid convert timeout seconds"@,
        error is SetupTempDirFailed ==> response.reason@ == "SETUP_TEMP_DIR_FAILED"@
            && response.message@ == "failed to create temporary directory"@,
        error is SetupTempPathFailed ==> response.reason@ == "SETUP_TEMP_FAILED"@
            && response.message@ == "failed to create temporary paths"@,
        error is NoSuchKey ==> response.reason@ == "NO_SUCH_KEY"@ && response.message@
            == "key not found in source bucket"@,
        error is GetObject ==> response.reason@ == "GET_OBJECT"@ && response.message@
            == "failed to get object from s3"@,
        error is CreateSourceFile ==> response.reason@ == "CREATE_SOURCE_FILE"@
            && response.message@ == "failed to create source file"@,
        error is ReadSourceChunk ==> response.reason@ == "READ_SOURCE_CHUNK"@ && response.message@
            == "failed to read object chunk"@,
        error is WriteSourceChunk ==> response.reason@ == "WRITE_SOURCE_CHUNK"@
            && response.message@ == "failed to write object chunk"@,
        error is FlushSource ==> response.reason@ == "FLUSH_SOURCE"@ && response.message@
            == "failed to flush object"@,
        error is CreateOutputStream ==> response.reason@ == "CREATE_OUTPUT_STREAM"@
            && response.message@ == "failed to create output stream"@,
        error is UploadOutputStream ==> response.reason@ == "UPLOAD_OUTPUT_STREAM"@
            && response.message@ == "failed to upload output stream"@,
        error is RunOffice ==> response.reason@ == "RUN_OFFICE"@ && response.message@
            == "failed to run office"@,
        error is ResponseError ==> response.reason@ == "RESPONSE_ERROR"@ && response.message@
            == "failed to wait for worker response"@,
        error is ReadFileIntegrity ==> response.reason@ == "READ_FILE_INTEGRITY"@
            && response.message@ == "failed to ready input file for integrity check"@,
        error is FileLikelyEncrypted ==> response.reason@ == "FILE_LIKELY_ENCRYPTED"@
            && response.message@ == "file is encrypted"@,
        error is FileLikelyCorrupted ==> response.reason@ == "FILE_LIKELY_CORRUPTED"@
            && response.message@ == "file is corrupted"@,
{
}

/// The code and the description of an error are the two texts of the answer.
pub proof fn law_texts_of_an_error(error: &LambdaError, reason: &'static str, message: String)
    requires
        call_ensures(LambdaError::reason, (error,), reason),
        call_ensures(LambdaError::message, (error,), message),
    ensures
        reason@ == error@.reason,
        message@ == error@.message,
{
}

/// An answer holds the two texts of its error.
pub proof fn law_answers_hold_both_texts(error: LambdaError, response: LambdaErrorResponse)
    requires
        call_ensures(<LambdaErrorResponse as From<LambdaError>>::from, (error,), response),
    ensures
        response.reason@ == error@.reason,
        response.message@ == error@.message,
{
}

} // verus!
