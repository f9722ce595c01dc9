//! Moving files between S3 and the local disk.
//!
//! A transfer is a sequence of steps. A step says what to do next; doing it
//! gives a reply, and the reply decides the next step.

use crate::error::LambdaError;
use crate::path::{PartView, PathParts};
use vstd::prelude::*;

verus! {

/// Why the source object could not be fetched.
#[derive(Debug)]
pub struct GetObjectFailure {
    /// Where the service itself refused: whether it did so because it has no
    /// object under the key
    pub service_says_no_such_key: Option<bool>,
}

/// What to do next to bring the source file to the local disk.
#[derive(Debug)]
pub enum SourceStep {
    /// Ask for the object
    GetObject { bucket: String, key: String, file_path: PathParts },
    /// Create the local file
    CreateFile(PathParts),
    /// Read the next chunk of the object
    NextChunk,
    /// Write a chunk to the end of the local file
    WriteChunk(Vec<u8>),
    /// Flush the local file
    Flush,
    /// Nothing: the transfer is over
    Done(Result<(), LambdaError>),
}

/// How a step of the transfer went.
#[derive(Debug)]
pub enum SourceReply {
    /// The object was asked for
    Object(Result<(), GetObjectFailure>),
    /// The local file was created, or not
    FileCreated(Result<(), ()>),
    /// The next chunk was read, or failed to be read, or there is none
    Chunk(Option<Result<Vec<u8>, ()>>),
    /// The chunk was written, or not
    ChunkWritten(Result<(), ()>),
    /// The local file was flushed, or not
    Flushed(Result<(), ()>),
}

/// The error that a failure to fetch the object is reported as.
pub open spec fn get_object_error(failure: GetObjectFailure) -> LambdaError {
    if failure.service_says_no_such_key == Some(true) {
        LambdaError::NoSuchKey
    } else {
        LambdaError::GetObject
    }
}

impl SourceStep {
    /// Whether a reply answers this step.
    pub open spec fn expects(self, reply: SourceReply) -> bool {
        match self {
            SourceStep::GetObject { .. } => reply is Object,
            SourceStep::CreateFile(_) => reply is FileCreated,
            SourceStep::NextChunk => reply is Chunk,
            SourceStep::WriteChunk(_) => reply is ChunkWritten,
            SourceStep::Flush => reply is Flushed,
            SourceStep::Done(_) => false,
        }
    }

    /// The step after this one: chunks are read and written in turn until
    /// there is no more, and the first failure ends the transfer.
    pub open spec fn after(self, reply: SourceReply) -> SourceStep {
        match (self, reply) {
            (
                SourceStep::GetObject { bucket, key, file_path },
                SourceReply::Object(Ok(_)),
            ) => SourceStep::CreateFile(file_path),
            (_, SourceReply::Object(Err(failure))) => SourceStep::Done(Err(get_object_error(failure))),
            (_, SourceReply::FileCreated(Ok(_))) => SourceStep::NextChunk,
            (_, SourceReply::FileCreated(Err(_))) => SourceStep::Done(
                Err(LambdaError::CreateSourceFile),
            ),
            (_, SourceReply::Chunk(Some(Ok(chunk)))) => SourceStep::WriteChunk(chunk),
            (_, SourceReply::Chunk(Some(Err(_)))) => SourceStep::Done(Err(LambdaError::ReadSourceChunk)),
            (_, SourceReply::Chunk(None)) => SourceStep::Flush,
            (_, SourceReply::ChunkWritten(Ok(_))) => SourceStep::NextChunk,
            (_, SourceReply::ChunkWritten(Err(_))) => SourceStep::Done(
                Err(LambdaError::WriteSourceChunk),
            ),
            (_, SourceReply::Flushed(Ok(_))) => SourceStep::Done(Ok(())),
            (_, SourceReply::Flushed(Err(_))) => SourceStep::Done(Err(LambdaError::FlushSource)),
            _ => self,
        }
    }

    /// The step after this one.
    pub fn resume(self, reply: SourceReply) -> (next: SourceStep)
        requires
            self.expects(reply),
        ensures
            next == self.after(reply),
    {
        match (self, reply) {
            (
                SourceStep::GetObject { bucket, key, file_path },
                SourceReply::Object(Ok(_)),
            ) => SourceStep::CreateFile(file_path),
            (_, SourceReply::Object(Err(failure))) => {
                let error: LambdaError = match failure.service_says_no_such_key {
                    Some(true) => LambdaError::NoSuchKey,
                    _ => LambdaError::GetObject,
                };
                SourceStep::Done(Err(error))
            },
            (_, SourceReply::FileCreated(Ok(_))) => SourceStep::NextChunk,
            (_, SourceReply::FileCreated(Err(_))) => SourceStep::Done(
                Err(LambdaError::CreateSourceFile),
            ),
            (_, SourceReply::Chunk(Some(Ok(chunk)))) => SourceStep::WriteChunk(chunk),
            (_, SourceReply::Chunk(Some(Err(_)))) => SourceStep::Done(Err(LambdaError::ReadSourceChunk)),
            (_, SourceReply::Chunk(None)) => SourceStep::Flush,
            (_, SourceReply::ChunkWritten(Ok(_))) => SourceStep::NextChunk,
            (_, SourceReply::ChunkWritten(Err(_))) => SourceStep::Done(
                Err(LambdaError::WriteSourceChunk),
            ),
            (_, SourceReply::Flushed(Ok(_))) => SourceStep::Done(Ok(())),
            (_, SourceReply::Flushed(Err(_))) => SourceStep::Done(Err(LambdaError::FlushSource)),
            (step, _) => step,
        }
    }
}

/// Stream a file from S3 to disk: the first step
pub fn stream_source_file(
    source_bucket: String,
    source_key: String,
    file_path: PathParts,
) -> (step: SourceStep)
    ensures
        step == (SourceStep::GetObject { bucket: source_bucket, key: source_key, file_path }),
{
    SourceStep::GetObject { bucket: source_bucket, key: source_key, file_path }
}

/// Whether `steps` is a run of the transfer from its first step on, answered
/// by `replies`.
pub open spec fn is_source_run(steps: Seq<SourceStep>, replies: Seq<SourceReply>) -> bool {
    &&& steps.len() == replies.len() + 1
    &&& steps[0] is GetObject
    &&& forall|i: int|
        #![trigger replies[i]]
        0 <= i < replies.len() ==> steps[i].expects(replies[i]) && steps[i + 1] == steps[i].after(
            replies[i],
        )
}

/// The bytes of the object that were read so far.
pub open spec fn bytes_read(replies: Seq<SourceReply>) -> Seq<u8>
    decreases replies.len(),
{
    if replies.len() == 0 {
        Seq::empty()
    } else {
        let before = bytes_read(replies.drop_last());
        match replies.last() {
            SourceReply::Chunk(Some(Ok(chunk))) => before + chunk@,
            _ => before,
        }
    }
}

/// The bytes that were written to the local file so far.
pub open spec fn bytes_written(steps: Seq<SourceStep>, replies: Seq<SourceReply>) -> Seq<u8>
    decreases replies.len(),
{
    if replies.len() == 0 {
        Seq::empty()
    } else {
        let before = bytes_written(steps, replies.drop_last());
        match (steps[replies.len() - 1], replies.last()) {
            (SourceStep::WriteChunk(chunk), SourceReply::ChunkWritten(Ok(_))) => before + chunk@,
            _ => before,
        }
    }
}

/// What was written depends on the steps that were answered alone.
proof fn lemma_written_ignores_end(
    steps: Seq<SourceStep>,
    other: Seq<SourceStep>,
    replies: Seq<SourceReply>,
)
    requires
        forall|i: int| 0 <= i < replies.len() ==> steps[i] == other[i],
    ensures
        bytes_written(steps, replies) == bytes_written(other, replies),
    decreases replies.len(),
{
    if replies.len() > 0 {
        lemma_written_ignores_end(steps, other, replies.drop_last());
    }
}

/// What was read is what was written, but for the chunk in hand.
proof fn lemma_written_so_far(steps: Seq<SourceStep>, replies: Seq<SourceReply>)
    requires
        is_source_run(steps, replies),
    ensures
        match steps.last() {
            SourceStep::WriteChunk(chunk) => bytes_read(replies) == bytes_written(steps, replies)
                + chunk@,
            SourceStep::Done(Err(_)) => bytes_written(steps, replies).is_prefix_of(
                bytes_read(replies),
            ),
            _ => bytes_read(replies) == bytes_written(steps, replies),
        },
    decreases replies.len(),
{
    if replies.len() > 0 {
        let n = replies.len() - 1;
        let fewer = steps.drop_last();
        let told = replies.drop_last();
        assert forall|i: int| #![trigger told[i]] 0 <= i < told.len() implies fewer[i].expects(told[i])
            && fewer[i + 1] == fewer[i].after(told[i]) by {
            assert(replies[i] == told[i]);
        }
        lemma_written_so_far(fewer, told);
        lemma_written_ignores_end(steps, fewer, told);
        assert(steps[n].expects(replies[n]) && steps[n + 1] == steps[n].after(replies[n]));
        assert(fewer.last() == steps[n]);
    }
}

/// A transfer that succeeds leaves the whole object in the local file that was
/// asked for: all chunks, in their order, to the last one.
pub proof fn law_success_stores_the_object(steps: Seq<SourceStep>, replies: Seq<SourceReply>)
    requires
        is_source_run(steps, replies),
        steps.last() == SourceStep::Done(Ok(())),
    ensures
        bytes_written(steps, replies) == bytes_read(replies),
        replies.len() >= 4,
        steps[0] matches SourceStep::GetObject { file_path, .. } && steps[1]
            == SourceStep::CreateFile(file_path),
        replies[1] matches SourceReply::FileCreated(Ok(_)),
        replies[replies.len() - 2] == SourceReply::Chunk(None),
        replies.last() matches SourceReply::Flushed(Ok(_)),
{
    lemma_written_so_far(steps, replies);
    let n = replies.len() - 1;
    assert(steps[n].expects(replies[n]) && steps[n + 1] == steps[n].after(replies[n]));
    assert(n >= 1);
    assert(steps[n - 1].expects(replies[n - 1]) && steps[n] == steps[n - 1].after(replies[n - 1]));
    assert(steps[0].expects(replies[0]) && steps[1] == steps[0].after(replies[0]));
    assert(steps[1].expects(replies[1]) && steps[2] == steps[1].after(replies[1]));
    if replies.len() > 2 {
        assert(steps[2].expects(replies[2]));
    }
}

/// A transfer that fails leaves a beginning of what was read in the local
/// file, and nothing else.
pub proof fn law_failure_stores_a_beginning(steps: Seq<SourceStep>, replies: Seq<SourceReply>)
    requires
        is_source_run(steps, replies),
        steps.last() matches SourceStep::Done(Err(_)),
    ensures
        bytes_written(steps, replies).is_prefix_of(bytes_read(replies)),
{
    lemma_written_so_far(steps, replies);
}

/// What to do next to bring the converted file to S3.
#[derive(Debug)]
pub enum OutputStep {
    /// Open the converted file for reading
    OpenFile { bucket: String, key: String, file_path: PathParts },
    /// Store the converted file, which was opened, under a key
    PutObject { bucket: String, key: String, file_path: PathParts },
    /// Nothing: the transfer is over
    Done(Result<(), LambdaError>),
}

/// How a step of the transfer went.
#[derive(Debug)]
pub enum OutputReply {
    /// The file was opened, or not
    FileOpened(Result<(), ()>),
    /// The object was stored, or not
    ObjectPut(Result<(), ()>),
}

impl OutputStep {
    /// Whether a reply answers this step.
    pub open spec fn expects(self, reply: OutputReply) -> bool {
        match self {
            OutputStep::OpenFile { .. } => reply is FileOpened,
            OutputStep::PutObject { .. } => reply is ObjectPut,
            OutputStep::Done(_) => false,
        }
    }

    /// The step after this one.
    pub open spec fn after(self, reply: OutputReply) -> OutputStep {
        match (self, reply) {
            (
                OutputStep::OpenFile { bucket, key, file_path },
                OutputReply::FileOpened(Ok(_)),
            ) => OutputStep::PutObject { bucket, key, file_path },
            (_, OutputReply::FileOpened(_)) => OutputStep::Done(
                Err(LambdaError::CreateOutputStream),
            ),
            (_, OutputReply::ObjectPut(Ok(_))) => OutputStep::Done(Ok(())),
            (_, OutputReply::ObjectPut(Err(_))) => OutputStep::Done(
                Err(LambdaError::UploadOutputStream),
            ),
        }
    }

    /// The step after this one.
    pub fn resume(self, reply: OutputReply) -> (next: OutputStep)
        requires
            self.expects(reply),
        ensures
            next == self.after(reply),
    {
        match (self, reply) {
            (
                OutputStep::OpenFile { bucket, key, file_path },
                OutputReply::FileOpened(Ok(_)),
            ) => OutputStep::PutObject { bucket, key, file_path },
            (_, OutputReply::FileOpened(_)) => OutputStep::Done(
                Err(LambdaError::CreateOutputStream),
            ),
            (_, OutputReply::ObjectPut(Ok(_))) => OutputStep::Done(Ok(())),
            (_, OutputReply::ObjectPut(Err(_))) => OutputStep::Done(
                Err(LambdaError::UploadOutputStream),
            ),
        }
    }
}

/// Stream a file upload from disk to S3: the first step
pub fn stream_output_file(
    dest_bucket: String,
    dest_key: String,
    file_path: PathParts,
) -> (step: OutputStep)
    ensures
        step == (OutputStep::OpenFile { bucket: dest_bucket, key: dest_key, file_path }),
{
    OutputStep::OpenFile { bucket: dest_bucket, key: dest_key, file_path }
}

/// The converted file is stored exactly where it could be opened and the
/// service took it, under the key and in the bucket that were asked for.
pub proof fn law_output_is_stored(
    bucket: String,
    key: String,
    file_path: PathParts,
    opened: OutputReply,
    put: OutputReply,
)
    requires
        opened is FileOpened,
        put is ObjectPut,
    ensures
        ({
            let first = OutputStep::OpenFile { bucket, key, file_path };
            let second = first.after(opened);
            &&& second.expects(put) <==> (opened matches OutputReply::FileOpened(Ok(_)))
            &&& second.expects(put) ==> second == (OutputStep::PutObject {
                bucket,
                key,
                file_path,
            })
            &&& second.after(put) == OutputStep::Done(Ok(())) <==> (
            put matches OutputReply::ObjectPut(Ok(_)))
        }),
{
}

/// Whether `steps` is a run of the upload from its first step on, answered by
/// `replies`.
pub open spec fn is_output_run(steps: Seq<OutputStep>, replies: Seq<OutputReply>) -> bool {
    &&& steps.len() == replies.len() + 1
    &&& steps[0] is OpenFile
    &&& forall|i: int|
        #![trigger replies[i]]
        0 <= i < replies.len() ==> steps[i].expects(replies[i]) && steps[i + 1] == steps[i].after(
            replies[i],
        )
}

/// An upload that succeeds opened the file that was asked for and stored it
/// under the key and in the bucket that were asked for.
pub proof fn law_upload_stores_the_file(steps: Seq<OutputStep>, replies: Seq<OutputReply>)
    requires
        is_output_run(steps, replies),
        steps.last() == OutputStep::Done(Ok(())),
    ensures
        replies.len() == 2,
        replies[0] matches OutputReply::FileOpened(Ok(_)),
        replies[1] matches OutputReply::ObjectPut(Ok(_)),
        steps[0] matches OutputStep::OpenFile { bucket, key, file_path } && steps[1] == (
        OutputStep::PutObject { bucket, key, file_path }),
{
    // Naming a reply brings in what is known of the step that it answers
    let (first, second, third) = (replies[0], replies[1], replies[2]);
}

/// What the local files hold, by their paths.
pub type Files = Map<Seq<PartView>, Seq<u8>>;

/// What the objects of the service hold, by their buckets and keys.
pub type Objects = Map<(Seq<char>, Seq<char>), Seq<u8>>;

/// What the objects hold after an upload from `files`: the object that was put
/// holds what the file holds.
pub open spec fn objects_after(
    files: Files,
    objects: Objects,
    steps: Seq<OutputStep>,
    replies: Seq<OutputReply>,
) -> Objects
    decreases replies.len(),
{
    if replies.len() == 0 {
        objects
    } else {
        let before = objects_after(files, objects, steps, replies.drop_last());
        match (steps[replies.len() - 1], replies.last()) {
            (
                OutputStep::PutObject { bucket, key, file_path },
                OutputReply::ObjectPut(Ok(_)),
            ) => before.insert((bucket@, key@), files[file_path@]),
            _ => before,
        }
    }
}

/// What the files hold after a fetch: the file that was created holds what was
/// written to it.
pub open spec fn files_after(
    files: Files,
    steps: Seq<SourceStep>,
    replies: Seq<SourceReply>,
) -> Files {
    match steps[0] {
        SourceStep::GetObject { bucket, key, file_path } => if replies.len() > 1 && (
        replies[1] matches SourceReply::FileCreated(Ok(_))) {
            files.insert(file_path@, bytes_written(steps, replies))
        } else {
            files
        },
        _ => files,
    }
}

/// Whether the replies of a fetch are ones that a service with these objects
/// gives: where there is no further chunk, the chunks made up the object.
pub open spec fn serves(
    objects: Objects,
    steps: Seq<SourceStep>,
    replies: Seq<SourceReply>,
) -> bool {
    steps[0] matches SourceStep::GetObject { bucket, key, .. } && forall|i: int|
        #![trigger replies[i]]
        0 <= i < replies.len() && replies[i] == SourceReply::Chunk(None) ==> objects.contains_key(
            (bucket@, key@),
        ) && bytes_read(replies.take(i)) == objects[(bucket@, key@)]
}

/// A fetch after an upload gives the file back: where both succeed and the
/// service gives what was put under the key, the file that is fetched to holds
/// what the file that was uploaded holds, which itself stays as it is unless it
/// is the one that is fetched to.
pub proof fn law_fetch_after_upload_gives_the_file_back(
    files: Files,
    objects: Objects,
    put_steps: Seq<OutputStep>,
    put_replies: Seq<OutputReply>,
    steps: Seq<SourceStep>,
    replies: Seq<SourceReply>,
)
    requires
        is_output_run(put_steps, put_replies),
        put_steps.last() == OutputStep::Done(Ok(())),
        is_source_run(steps, replies),
        steps.last() == SourceStep::Done(Ok(())),
        put_steps[0]->OpenFile_bucket@ == steps[0]->GetObject_bucket@,
        put_steps[0]->OpenFile_key@ == steps[0]->GetObject_key@,
        files.contains_key(put_steps[0]->OpenFile_file_path@),
        serves(objects_after(files, objects, put_steps, put_replies), steps, replies),
    ensures
        ({
            let (from, to) = (
                put_steps[0]->OpenFile_file_path@,
                steps[0]->GetObject_file_path@,
            );
            &&& files_after(files, steps, replies).contains_key(to)
            &&& files_after(files, steps, replies)[to] == files[from]
            &&& files_after(files, steps, replies)[from] == files[from]
        }),
{
    law_upload_stores_the_file(put_steps, put_replies);
    let (bucket, key) = (steps[0]->GetObject_bucket@, steps[0]->GetObject_key@);
    let file = files[put_steps[0]->OpenFile_file_path@];
    reveal_with_fuel(objects_after, 3);
    assert(put_replies.drop_last().drop_last() == Seq::<OutputReply>::empty());
    let after = objects_after(files, objects, put_steps, put_replies);
    assert(after[(bucket, key)] == file);
    law_success_stores_the_object(steps, replies);
    let n = replies.len() - 2;
    reveal_with_fuel(bytes_read, 3);
    assert(replies[n] == SourceReply::Chunk(None));
    assert(replies.drop_last().drop_last() == replies.take(n));
    assert(replies.drop_last().last() == replies[n]);
    assert(bytes_read(replies) == bytes_read(replies.take(n)));
}

/// A step of the fetch takes every reply of its own kind, whatever it holds, and
/// no other.
pub proof fn law_fetch_takes_replies(step: SourceStep, reply: SourceReply)
    ensures
        step.expects(reply) <==> {
            ||| step is GetObject && reply is Object
            ||| step is CreateFile && reply is FileCreated
            ||| step is NextChunk && reply is Chunk
            ||| step is WriteChunk && reply is ChunkWritten
            ||| step is Flush && reply is Flushed
        },
{
}

/// A fetch goes on as long as nothing fails: the file that was asked for is
/// created, every chunk that is read is the one that is written next, whatever
/// its size, reading goes on behind it, and where there is no more the file is
/// flushed, which ends the fetch with success.
pub proof fn law_fetch_goes_on(steps: Seq<SourceStep>, replies: Seq<SourceReply>, i: int)
    requires
        is_source_run(steps, replies),
        0 <= i < replies.len(),
    ensures
        replies[i] matches SourceReply::Object(Ok(_)) ==> (
        steps[i] matches SourceStep::GetObject { file_path, .. } && steps[i + 1]
            == SourceStep::CreateFile(file_path)),
        replies[i] matches SourceReply::FileCreated(Ok(_)) ==> steps[i + 1] is NextChunk,
        replies[i] matches SourceReply::Chunk(Some(Ok(chunk))) ==> steps[i + 1]
            == SourceStep::WriteChunk(chunk),
        replies[i] matches SourceReply::ChunkWritten(Ok(_)) ==> steps[i + 1] is NextChunk,
        replies[i] == SourceReply::Chunk(None) ==> steps[i + 1] is Flush,
        replies[i] matches SourceReply::Flushed(Ok(_)) ==> steps[i + 1] == SourceStep::Done(Ok(()))
            && i + 1 == replies.len(),
{
    let reply = replies[i];
    assert(steps[i].expects(reply));
    if i + 1 < replies.len() {
        let after = replies[i + 1];
        assert(steps[i + 1].expects(after));
    }
}

/// A fetch ends with the first failure, and with the error that tells it.
pub proof fn law_fetch_ends_with_a_failure(
    steps: Seq<SourceStep>,
    replies: Seq<SourceReply>,
    i: int,
    error: LambdaError,
)
    requires
        is_source_run(steps, replies),
        0 <= i < replies.len(),
        match replies[i] {
            SourceReply::Object(Err(failure)) => if failure.service_says_no_such_key == Some(true) {
                error is NoSuchKey
            } else {
                error is GetObject
            },
            SourceReply::FileCreated(Err(_)) => error is CreateSourceFile,
            SourceReply::Chunk(Some(Err(_))) => error is ReadSourceChunk,
            SourceReply::ChunkWritten(Err(_)) => error is WriteSourceChunk,
            SourceReply::Flushed(Err(_)) => error is FlushSource,
            _ => false,
        },
    ensures
        steps[i + 1] == SourceStep::Done(Err(error)),
        i + 1 == replies.len(),
{
    let reply = replies[i];
    assert(steps[i].expects(reply));
    if i + 1 < replies.len() {
        let after = replies[i + 1];
        assert(steps[i + 1].expects(after));
    }
}

/// A fetch fails only where something failed: its last reply is a failure, and
/// none before it is one.
pub proof fn law_fetch_fails_only_by_a_failure(
    steps: Seq<SourceStep>,
    replies: Seq<SourceReply>,
    error: LambdaError,
)
    requires
        is_source_run(steps, replies),
        steps.last() == SourceStep::Done(Err(error)),
    ensures
        replies.len() > 0,
        match replies.last() {
            SourceReply::Object(Err(failure)) => error is NoSuchKey
                == (failure.service_says_no_such_key == Some(true)) && (error is NoSuchKey
                || error is GetObject),
            SourceReply::FileCreated(Err(_)) => error is CreateSourceFile,
            SourceReply::Chunk(Some(Err(_))) => error is ReadSourceChunk,
            SourceReply::ChunkWritten(Err(_)) => error is WriteSourceChunk,
            SourceReply::Flushed(Err(_)) => error is FlushSource,
            _ => false,
        },
        forall|i: int|
            0 <= i < replies.len() - 1 ==> !(#[trigger] replies[i] matches SourceReply::Object(Err(_)))
                && !(replies[i] matches SourceReply::FileCreated(Err(_))) && !(
            replies[i] matches SourceReply::Chunk(Some(Err(_)))) && !(
            replies[i] matches SourceReply::ChunkWritten(Err(_))) && !(
            replies[i] matches SourceReply::Flushed(Err(_))),
{
    let n = replies.len() - 1;
    assert(steps[n].expects(replies[n]) && steps[n + 1] == steps[n].after(replies[n]));
    assert forall|i: int| 0 <= i < replies.len() - 1 implies !(
    #[trigger] replies[i] matches SourceReply::Object(Err(_))) && !(
    replies[i] matches SourceReply::FileCreated(Err(_))) && !(
    replies[i] matches SourceReply::Chunk(Some(Err(_)))) && !(
    replies[i] matches SourceReply::ChunkWritten(Err(_))) && !(
    replies[i] matches SourceReply::Flushed(Err(_))) by {
        let after = replies[i + 1];
        assert(steps[i + 1] == steps[i].after(replies[i]));
        assert(steps[i + 1].expects(after));
    }
}

/// A step of the upload takes every reply of its own kind, and no other.
pub proof fn law_upload_takes_replies(step: OutputStep, reply: OutputReply)
    ensures
        step.expects(reply) <==> {
            ||| step is OpenFile && reply is FileOpened
            ||| step is PutObject && reply is ObjectPut
        },
{
}

/// An upload stores the file that was asked for where it was asked for once the
/// file is open, and ends with the failure to open it, with the failure to
/// store it, or with success.
pub proof fn law_upload_goes_on(steps: Seq<OutputStep>, replies: Seq<OutputReply>, i: int)
    requires
        is_output_run(steps, replies),
        0 <= i < replies.len(),
    ensures
        replies[i] matches OutputReply::FileOpened(Ok(_)) ==> (
        steps[i] matches OutputStep::OpenFile { bucket, key, file_path } && steps[i + 1] == (
        OutputStep::PutObject { bucket, key, file_path })),
        replies[i] matches OutputReply::FileOpened(Err(_)) ==> steps[i + 1] == OutputStep::Done(
            Err(LambdaError::CreateOutputStream),
        ),
        replies[i] matches OutputReply::ObjectPut(Ok(_)) ==> steps[i + 1] == OutputStep::Done(
            Ok(()),
        ),
        replies[i] matches OutputReply::ObjectPut(Err(_)) ==> steps[i + 1] == OutputStep::Done(
            Err(LambdaError::UploadOutputStream),
        ),
{
    let reply = replies[i];
    assert(steps[i].expects(reply));
}

/// A fetch and an upload start with what was asked for, and every step is
/// followed by the one that its reply calls for.
pub proof fn law_transfers_start_and_follow(
    bucket: String,
    key: String,
    file_path: PathParts,
    fetch: SourceStep,
    upload: OutputStep,
    step: SourceStep,
    reply: SourceReply,
    next: SourceStep,
    put_step: OutputStep,
    put_reply: OutputReply,
    put_next: OutputStep,
)
    requires
        call_ensures(stream_source_file, (bucket, key, file_path), fetch),
        call_ensures(stream_output_file, (bucket, key, file_path), upload),
        call_ensures(SourceStep::resume, (step, reply), next),
        call_ensures(OutputStep::resume, (put_step, put_reply), put_next),
    ensures
        fetch == (SourceStep::GetObject { bucket, key, file_path }),
        upload == (OutputStep::OpenFile { bucket, key, file_path }),
        next == step.after(reply),
        put_next == put_step.after(put_reply),
{
}

} // verus!
