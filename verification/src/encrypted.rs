//! Finding out in which condition an input file is.
//!
//! The condition is judged by the beginning of the file. Reading it is a
//! sequence of steps. A step says what to do next; doing it gives a reply, and
//! the reply decides the next step.

use crate::path::PathParts;
use vstd::prelude::*;

verus! {

/// The condition of an input file.
#[derive(Debug, Clone, Copy, PartialEq, Eq, Structural)]
pub enum FileCondition {
    /// Nothing is wrong with the file
    Normal,
    /// The file is probably damaged
    LikelyCorrupted,
    /// The file is probably protected by a password
    LikelyEncrypted,
}

/// How many bytes of a file its condition is judged by.
pub const WINDOW_SIZE: usize = 32768;

/// What to do next to find out the condition of a file.
#[derive(Debug)]
pub enum ConditionStep<E> {
    /// Open the file
    OpenFile(PathParts),
    /// Read more of the file behind `bytes`, and no more than there is room for
    ReadMore { bytes: Vec<u8> },
    /// Judge the file by its beginning
    Judge { bytes: Vec<u8> },
    /// Nothing: the condition is known, or the file could not be read
    Done(Result<FileCondition, E>),
}

/// How a step went.
#[derive(Debug)]
pub enum ConditionReply<E> {
    /// The file was opened, or not
    FileOpened(Result<(), E>),
    /// More was read, or failed to be read; nothing more means the end
    Read(Result<Vec<u8>, E>),
    /// The condition that the beginning of the file shows
    Judged(FileCondition),
}

impl<E> ConditionStep<E> {
    /// Whether a reply answers this step.
    pub open spec fn expects(self, reply: ConditionReply<E>) -> bool {
        match self {
            ConditionStep::OpenFile(_) => reply is FileOpened,
            ConditionStep::ReadMore { bytes } => reply matches ConditionReply::Read(result) && (
            result matches Ok(chunk) ==> bytes@.len() + chunk@.len() <= WINDOW_SIZE),
            ConditionStep::Judge { .. } => reply is Judged,
            ConditionStep::Done(_) => false,
        }
    }

    /// Whether `next` is the step that a reply calls for: the file is read
    /// until nothing more comes, and what was read is judged.
    pub open spec fn leads_to(self, reply: ConditionReply<E>, next: ConditionStep<E>) -> bool {
        match (self, reply) {
            (_, ConditionReply::FileOpened(Ok(_))) => next matches ConditionStep::ReadMore { bytes }
                && bytes@ == Seq::<u8>::empty(),
            (_, ConditionReply::FileOpened(Err(error))) => next == ConditionStep::Done(
                Err::<FileCondition, E>(error),
            ),
            (_, ConditionReply::Read(Err(error))) => next == ConditionStep::Done(
                Err::<FileCondition, E>(error),
            ),
            (ConditionStep::ReadMore { bytes }, ConditionReply::Read(Ok(chunk))) => {
                if chunk@.len() == 0 {
                    next == (ConditionStep::<E>::Judge { bytes })
                } else {
                    next matches ConditionStep::ReadMore { bytes: more } && more@ == bytes@
                        + chunk@
                }
            },
            (_, ConditionReply::Judged(condition)) => next == ConditionStep::Done(
                Ok::<FileCondition, E>(condition),
            ),
            _ => false,
        }
    }

    /// The step after this one.
    pub fn resume(self, reply: ConditionReply<E>) -> (next: ConditionStep<E>)
        requires
            self.expects(reply),
        ensures
            self.leads_to(reply, next),
    {
        match (self, reply) {
            (ConditionStep::ReadMore { bytes }, ConditionReply::Read(Ok(chunk))) => {
                if chunk.len() == 0 {
                    ConditionStep::Judge { bytes }
                } else {
                    let mut more: Vec<u8> = bytes;
                    let mut tail: Vec<u8> = chunk;
                    more.append(&mut tail);
                    ConditionStep::ReadMore { bytes: more }
                }
            },
            (_, ConditionReply::FileOpened(Err(error))) => ConditionStep::Done(Err(error)),
            (_, ConditionReply::Read(Err(error))) => ConditionStep::Done(Err(error)),
            (_, ConditionReply::Judged(condition)) => ConditionStep::Done(Ok(condition)),
            (_, _) => ConditionStep::ReadMore { bytes: Vec::new() },
        }
    }
}

/// How many bytes there is room for behind those that were read.
pub fn room(bytes: &Vec<u8>) -> (res: usize)
    requires
        bytes@.len() <= WINDOW_SIZE,
    ensures
        bytes@.len() + res == WINDOW_SIZE,
{
    WINDOW_SIZE - bytes.len()
}

/// Handles reading the first 32kb of the input file to determine the
/// condition of the file to decide the error response message: the first step
pub fn determine_input_file_condition<E>(input_path: PathParts) -> (step: ConditionStep<E>)
    ensures
        step == ConditionStep::<E>::OpenFile(input_path),
{
    ConditionStep::OpenFile(input_path)
}

/// Whether `steps` is a run from the first step on, answered by `replies`.
pub open spec fn is_condition_run<E>(
    steps: Seq<ConditionStep<E>>,
    replies: Seq<ConditionReply<E>>,
) -> bool {
    &&& steps.len() == replies.len() + 1
    &&& steps[0] is OpenFile
    &&& forall|i: int|
        #![trigger replies[i]]
        0 <= i < replies.len() ==> steps[i].expects(replies[i]) && steps[i].leads_to(
            replies[i],
            steps[i + 1],
        )
}

/// The part of a file that its condition is judged by.
pub open spec fn window(file: Seq<u8>) -> Seq<u8> {
    if file.len() <= WINDOW_SIZE {
        file
    } else {
        file.take(WINDOW_SIZE as int)
    }
}

/// Whether a reply is one that reading `file` can give: what is read is the
/// next piece of the file, and nothing is read only where there is no more or
/// no room for more.
pub open spec fn reads_from<E>(
    file: Seq<u8>,
    step: ConditionStep<E>,
    reply: ConditionReply<E>,
) -> bool {
    match (step, reply) {
        (ConditionStep::ReadMore { bytes }, ConditionReply::Read(Ok(chunk))) => {
            &&& bytes@.len() + chunk@.len() <= file.len()
            &&& chunk@ == file.subrange(bytes@.len() as int, (bytes@.len() + chunk@.len()) as int)
            &&& chunk@.len() == 0 ==> bytes@.len() == window(file).len()
        },
        _ => true,
    }
}

/// The bytes that were read fit, and are the beginning of the file.
proof fn lemma_reads_beginning<E>(
    file: Seq<u8>,
    steps: Seq<ConditionStep<E>>,
    replies: Seq<ConditionReply<E>>,
    i: int,
)
    requires
        is_condition_run(steps, replies),
        forall|j: int|
            #![trigger replies[j]]
            0 <= j < replies.len() ==> reads_from(file, steps[j], replies[j]),
        0 <= i < steps.len(),
    ensures
        steps[i] matches ConditionStep::ReadMore { bytes } ==> bytes@.len() <= window(file).len()
            && bytes@ == file.take(bytes@.len() as int),
        steps[i] matches ConditionStep::Judge { bytes } ==> bytes@ == window(file),
    decreases i,
{
    if i > 0 {
        lemma_reads_beginning(file, steps, replies, i - 1);
        let (step, reply) = (steps[i - 1], replies[i - 1]);
        assert(step.expects(reply) && step.leads_to(reply, steps[i]) && reads_from(
            file,
            step,
            reply,
        ));
        if let (ConditionStep::ReadMore { bytes }, ConditionReply::Read(Ok(chunk))) = (
            step,
            reply,
        ) {
            assert(bytes@ + chunk@ == file.take((bytes@.len() + chunk@.len()) as int));
            assert(file.take(file.len() as int) == file);
        }
    }
}

/// However a file comes in pieces, its condition is judged by its first bytes,
/// as many as the window holds, or by the whole file where it is shorter.
pub proof fn law_judges_beginning_of_file<E>(
    file: Seq<u8>,
    steps: Seq<ConditionStep<E>>,
    replies: Seq<ConditionReply<E>>,
    i: int,
)
    requires
        is_condition_run(steps, replies),
        forall|j: int|
            #![trigger replies[j]]
            0 <= j < replies.len() ==> reads_from(file, steps[j], replies[j]),
        0 <= i < steps.len(),
    ensures
        steps[i] matches ConditionStep::Judge { bytes } ==> bytes@ == window(file),
{
    lemma_reads_beginning(file, steps, replies, i);
}

/// What was read never exceeds the window.
pub proof fn law_read_fits_the_window<E>(
    steps: Seq<ConditionStep<E>>,
    replies: Seq<ConditionReply<E>>,
    i: int,
)
    requires
        is_condition_run(steps, replies),
        0 <= i < steps.len(),
    ensures
        steps[i] matches ConditionStep::ReadMore { bytes } ==> bytes@.len() <= WINDOW_SIZE,
        steps[i] matches ConditionStep::Judge { bytes } ==> bytes@.len() <= WINDOW_SIZE,
    decreases i,
{
    if i > 0 {
        law_read_fits_the_window(steps, replies, i - 1);
        assert(steps[i - 1].expects(replies[i - 1]) && steps[i - 1].leads_to(
            replies[i - 1],
            steps[i],
        ));
    }
}

/// The window holds the first 32768 bytes of a file, or all of a shorter one.
pub proof fn law_window(file: Seq<u8>)
    ensures
        file.len() <= 32768 ==> window(file) == file,
        file.len() > 32768 ==> window(file) == file.subrange(0, 32768),
{
}

/// Reading takes every reply of its own kind, as long as what was read fits the
/// window.
pub proof fn law_inspection_takes_replies<E>(step: ConditionStep<E>, reply: ConditionReply<E>)
    ensures
        step.expects(reply) <==> match (step, reply) {
            (ConditionStep::OpenFile(_), ConditionReply::FileOpened(_)) => true,
            (ConditionStep::ReadMore { bytes }, ConditionReply::Read(Ok(chunk))) => bytes@.len()
                + chunk@.len() <= 32768,
            (ConditionStep::ReadMore { .. }, ConditionReply::Read(Err(_))) => true,
            (ConditionStep::Judge { .. }, ConditionReply::Judged(_)) => true,
            _ => false,
        },
{
}

/// Reading goes on behind what was read until nothing more comes; only then is
/// the file judged, by all that was read; what it is judged as is the answer,
/// and so is the first failure.
pub proof fn law_inspection_goes_on<E>(
    steps: Seq<ConditionStep<E>>,
    replies: Seq<ConditionReply<E>>,
    i: int,
)
    requires
        is_condition_run(steps, replies),
        0 <= i < replies.len(),
    ensures
        replies[i] matches ConditionReply::FileOpened(Ok(_)) ==> (
        steps[i + 1] matches ConditionStep::ReadMore { bytes } && bytes@.len() == 0),
        replies[i] matches ConditionReply::FileOpened(Err(error)) ==> steps[i + 1]
            == ConditionStep::<E>::Done(Err(error)),
        replies[i] matches ConditionReply::Read(Err(error)) ==> steps[i + 1]
            == ConditionStep::<E>::Done(Err(error)),
        replies[i] matches ConditionReply::Read(Ok(chunk)) ==> (
        steps[i] matches ConditionStep::ReadMore { bytes } && if chunk@.len() > 0 {
            steps[i + 1] matches ConditionStep::ReadMore { bytes: more } && more@ == bytes@ + chunk@
        } else {
            steps[i + 1] matches ConditionStep::Judge { bytes: all } && all@ == bytes@
        }),
        replies[i] matches ConditionReply::Judged(condition) ==> steps[i + 1]
            == ConditionStep::<E>::Done(Ok(condition)),
{
    let reply = replies[i];
    assert(steps[i].expects(reply) && steps[i].leads_to(reply, steps[i + 1]));
}

/// An inspection ends with the condition that the file was judged as, or with
/// the failure to open or to read it, and with nothing else.
pub proof fn law_inspection_ends<E>(
    steps: Seq<ConditionStep<E>>,
    replies: Seq<ConditionReply<E>>,
    result: Result<FileCondition, E>,
)
    requires
        is_condition_run(steps, replies),
        steps.last() == ConditionStep::<E>::Done(result),
    ensures
        replies.len() > 0,
        match result {
            Ok(condition) => replies.last() == ConditionReply::<E>::Judged(condition),
            Err(error) => replies.last() == ConditionReply::<E>::FileOpened(Err(error))
                || replies.last() == ConditionReply::<E>::Read(Err(error)),
        },
{
    let n = replies.len() - 1;
    let reply = replies[n];
    assert(steps[n].expects(reply) && steps[n].leads_to(reply, steps[n + 1]));
}

/// An inspection starts with the file that was asked about, every step is
/// followed by one that its reply calls for, and there is room for what the
/// window still lacks.
pub proof fn law_inspections_start_and_follow<E>(
    input_path: PathParts,
    first: ConditionStep<E>,
    step: ConditionStep<E>,
    reply: ConditionReply<E>,
    next: ConditionStep<E>,
    bytes: &Vec<u8>,
    free: usize,
)
    requires
        call_ensures(determine_input_file_condition::<E>, (input_path,), first),
        call_ensures(ConditionStep::<E>::resume, (step, reply), next),
        call_ensures(room, (bytes,), free),
    ensures
        first == ConditionStep::<E>::OpenFile(input_path),
        step.leads_to(reply, next),
        bytes@.len() + free == 32768,
{
}

} // verus!
