//! What holds of a request all the way down.
//!
//! Serving a request is a sequence of steps, and some of them are carried out
//! by steps of their own: the conversion in [`crate::event_handler`], the
//! transfers in [`crate::storage`], the document in [`crate::office`]. Where a
//! step is carried out like that, its reply is what the run below it came to.

use crate::client::{ConvertRequest, Duration};
use crate::encrypted::{ConditionReply, ConditionStep};
use crate::event_handler;
use crate::event_handler::{ConvertReply, ConvertStep, HandleReply, HandleStep};
use crate::office;
use crate::office::{ConvertMessage, DocumentReply, DocumentStep, OfficeConvertError, RunnerStep};
use crate::path;
use crate::storage;
use crate::storage::{OutputReply, OutputStep, SourceReply, SourceStep};
use vstd::prelude::*;

verus! {

/// The run of a conversion.
pub struct ConvertRun {
    pub steps: Seq<ConvertStep>,
    pub replies: Seq<ConvertReply>,
}

/// The run of a transfer of the source file.
pub struct SourceRun {
    pub steps: Seq<SourceStep>,
    pub replies: Seq<SourceReply>,
}

/// The run of the conversion of a document, and the message that asked for it.
pub struct DocumentRun {
    pub message: ConvertMessage,
    pub steps: Seq<DocumentStep>,
    pub replies: Seq<DocumentReply>,
}

/// The run of an upload.
pub struct OutputRun {
    pub steps: Seq<OutputStep>,
    pub replies: Seq<OutputReply>,
}

/// The run of an inspection.
pub struct ConditionRun<E> {
    pub steps: Seq<ConditionStep<E>>,
    pub replies: Seq<ConditionReply<E>>,
}

impl ConvertRun {
    /// Whether this run is the one that `step` asked for, and `reply` says what
    /// it came to.
    pub open spec fn answers(self, step: HandleStep, reply: HandleReply) -> bool {
        &&& self.steps.len() > 0
        &&& step.starts_conversion(self.steps[0])
        &&& self.steps[0] matches ConvertStep::FetchSource { request, input_path, output_path }
            && event_handler::is_convert_run(
            request,
            input_path,
            output_path,
            self.steps,
            self.replies,
        )
        &&& self.steps.last() matches ConvertStep::Done(result) && reply
            == HandleReply::Converted(result)
    }
}

impl SourceRun {
    /// Whether this run is the one that `step` asked for, and `reply` says what
    /// it came to.
    pub open spec fn answers(self, step: ConvertStep, reply: ConvertReply) -> bool {
        &&& storage::is_source_run(self.steps, self.replies)
        &&& step.starts_source(self.steps[0])
        &&& self.steps.last() matches SourceStep::Done(result) && reply
            == ConvertReply::SourceFetched(result)
    }
}

impl DocumentRun {
    /// Whether this run is the one that the office runner made for the message
    /// that `step` sent, and `reply` says what it came to. Every sender is told
    /// what came of its own message, as [`office::law_every_sender_is_told`]
    /// says.
    pub open spec fn answers(self, step: ConvertStep, reply: ConvertReply) -> bool {
        &&& step.sends(self.message)
        &&& office::is_document_run(self.steps, self.replies)
        &&& RunnerStep::Convert(self.message).starts_document(self.steps[0])
        &&& self.steps.last() matches DocumentStep::Done(result) && reply
            == ConvertReply::OfficeReplied(Ok(result))
    }
}

impl OutputRun {
    /// Whether this run is the one that `step` asked for, and `reply` says what
    /// it came to.
    pub open spec fn answers(self, step: ConvertStep, reply: ConvertReply) -> bool {
        &&& storage::is_output_run(self.steps, self.replies)
        &&& step.starts_output(self.steps[0])
        &&& self.steps.last() matches OutputStep::Done(result) && reply
            == ConvertReply::OutputStored(result)
    }
}

impl<E> ConditionRun<E> {
    /// Whether this run is the one that `step` asked for, and `reply` says what
    /// it came to.
    pub open spec fn answers(self, step: ConvertStep, reply: ConvertReply) -> bool {
        &&& crate::encrypted::is_condition_run(self.steps, self.replies)
        &&& step.starts_inspection(self.steps[0])
        &&& self.steps.last() matches ConditionStep::Done(result) && (match result {
            Ok(condition) => reply == ConvertReply::InputInspected(Ok(condition)),
            Err(_) => reply matches ConvertReply::InputInspected(Err(_)),
        })
    }
}

/// A conversion that succeeds fetched the whole object that the request names
/// to the input file, had LibreOffice write the PDF of the input file to the
/// output file, and put the output file where the request says.
pub proof fn law_conversion_delivers_the_pdf(
    request: ConvertRequest,
    input_path: path::PathParts,
    output_path: path::PathParts,
    conversion: ConvertRun,
    source: SourceRun,
    document: DocumentRun,
    output: OutputRun,
)
    requires
        event_handler::is_convert_run(
            request,
            input_path,
            output_path,
            conversion.steps,
            conversion.replies,
        ),
        conversion.steps.last() == ConvertStep::Done(Ok(())),
        source.answers(conversion.steps[0], conversion.replies[0]),
        document.answers(conversion.steps[1], conversion.replies[1]),
        output.answers(conversion.steps[2], conversion.replies[2]),
    ensures
        source.steps[0] matches SourceStep::GetObject { bucket, key, file_path } && bucket
            == request.source_bucket && key == request.source_key && file_path@ == input_path@
            && source.steps[1] == SourceStep::CreateFile(file_path),
        storage::bytes_written(source.steps, source.replies) == storage::bytes_read(
            source.replies,
        ),
        document.steps.last() matches DocumentStep::Done(Ok(_)),
        path::is_absolute(input_path@) && path::is_absolute(output_path@) ==> {
            &&& document.steps[0] matches DocumentStep::Load { url, .. } && url@
                == office::url_of(input_path@)
            &&& document.steps[1] matches DocumentStep::Save { url, format } && url@
                == office::url_of(output_path@) && format@ == "pdf"@
            &&& document.replies[1] == DocumentReply::Saved(Ok(true))
        },
        output.steps[0] matches OutputStep::OpenFile { bucket, key, file_path } && bucket
            == request.dest_bucket && key == request.dest_key && file_path@ == output_path@
            && output.steps[1] == (OutputStep::PutObject { bucket, key, file_path }),
        output.replies[1] matches OutputReply::ObjectPut(Ok(_)),
{
    event_handler::law_conversion_succeeds(
        request,
        input_path,
        output_path,
        conversion.steps,
        conversion.replies,
    );
    lemma_results(source, document, output, conversion);
    event_handler::law_works_on_the_given_files(
        request,
        input_path,
        output_path,
        conversion.steps,
        conversion.replies,
        1,
    );
    event_handler::law_works_on_the_given_files(
        request,
        input_path,
        output_path,
        conversion.steps,
        conversion.replies,
        2,
    );
    storage::law_success_stores_the_object(source.steps, source.replies);
    storage::law_upload_stores_the_file(output.steps, output.replies);
    if path::is_absolute(input_path@) && path::is_absolute(output_path@) {
        office::law_document_is_converted(
            input_path@,
            output_path@,
            document.steps,
            document.replies,
        );
    }
}

/// What the runs below a conversion that succeeded came to.
proof fn lemma_results(
    source: SourceRun,
    document: DocumentRun,
    output: OutputRun,
    conversion: ConvertRun,
)
    requires
        source.answers(conversion.steps[0], conversion.replies[0]),
        document.answers(conversion.steps[1], conversion.replies[1]),
        output.answers(conversion.steps[2], conversion.replies[2]),
        conversion.replies[0] matches ConvertReply::SourceFetched(Ok(_)),
        conversion.replies[1] matches ConvertReply::OfficeReplied(Ok(Ok(_))),
        conversion.replies[2] matches ConvertReply::OutputStored(Ok(_)),
    ensures
        source.steps.last() == SourceStep::Done(Ok(())),
        document.steps.last() == DocumentStep::Done(Ok(())),
        output.steps.last() == OutputStep::Done(Ok(())),
{
    assert(source.steps.last()->Done_0 is Ok);
    assert(document.steps.last()->Done_0 is Ok);
    assert(output.steps.last()->Done_0 is Ok);
    assert(source.steps.last()->Done_0->Ok_0 == ());
    assert(document.steps.last()->Done_0->Ok_0 == ());
    assert(output.steps.last()->Done_0->Ok_0 == ());
}

/// A request that is answered with success had its file converted: the whole
/// object that it names was written to the input file, LibreOffice wrote the
/// PDF of the input file to the output file, and the output file was put where
/// the request says. Both files are the ones that were set up for the request.
pub proof fn law_success_delivers_the_pdf(
    request: ConvertRequest,
    ready: Option<Duration>,
    steps: Seq<HandleStep>,
    replies: Seq<HandleReply>,
    conversion: ConvertRun,
    source: SourceRun,
    document: DocumentRun,
    output: OutputRun,
)
    requires
        event_handler::is_handle_run(Ok(request), ready, steps, replies),
        steps.last() == HandleStep::Done(Ok(())),
        conversion.answers(steps[replies.len() - 2], replies[replies.len() - 2]),
        source.answers(conversion.steps[0], conversion.replies[0]),
        document.answers(conversion.steps[1], conversion.replies[1]),
        output.answers(conversion.steps[2], conversion.replies[2]),
    ensures
        replies[replies.len() - 3] matches HandleReply::TempPathsReady(Ok(files)) && {
            let (input, output_file) = (files.0@, files.1@);
            &&& source.steps[0] matches SourceStep::GetObject { bucket, key, file_path } && bucket
                == request.source_bucket && key == request.source_key && file_path@ == input
                && source.steps[1] == SourceStep::CreateFile(file_path)
            &&& storage::bytes_written(source.steps, source.replies) == storage::bytes_read(
                source.replies,
            )
            &&& document.steps.last() matches DocumentStep::Done(Ok(_))
            &&& path::is_absolute(input) && path::is_absolute(output_file) ==> {
                &&& document.steps[0] matches DocumentStep::Load { url, .. } && url@
                    == office::url_of(input)
                &&& document.steps[1] matches DocumentStep::Save { url, format } && url@
                    == office::url_of(output_file) && format@ == "pdf"@
                &&& document.replies[1] == DocumentReply::Saved(Ok(true))
            }
            &&& output.steps[0] matches OutputStep::OpenFile { bucket, key, file_path } && bucket
                == request.dest_bucket && key == request.dest_key && file_path@ == output_file
                && output.steps[1] == (OutputStep::PutObject { bucket, key, file_path })
            &&& output.replies[1] matches OutputReply::ObjectPut(Ok(_))
        },
{
    let n = replies.len() - 2;
    event_handler::law_success_means_converted(request, ready, steps, replies);
    event_handler::law_converts_what_was_set_up(request, ready, steps, replies, n);
    if let ConvertStep::FetchSource { request: asked, input_path, output_path } =
        conversion.steps[0] {
        let result = conversion.steps.last()->Done_0;
        assert(replies[n] == HandleReply::Converted(result));
        assert(result is Ok && result->Ok_0 == ());
        law_conversion_delivers_the_pdf(
            asked,
            input_path,
            output_path,
            conversion,
            source,
            document,
            output,
        );
    }
}

/// A conversion that LibreOffice refuses is reported by what LibreOffice said
/// and by the beginning of the very file that was fetched, as it was read.
pub proof fn law_refusal_is_judged_by_the_input<E>(
    request: ConvertRequest,
    input_path: path::PathParts,
    output_path: path::PathParts,
    conversion: ConvertRun,
    refusal: OfficeConvertError,
    inspection: ConditionRun<E>,
    file: Seq<u8>,
    i: int,
)
    requires
        event_handler::is_convert_run(
            request,
            input_path,
            output_path,
            conversion.steps,
            conversion.replies,
        ),
        conversion.replies.len() == 3,
        conversion.replies[1] == ConvertReply::OfficeReplied(Ok(Err(refusal))),
        inspection.answers(conversion.steps[2], conversion.replies[2]),
        forall|j: int|
            #![trigger inspection.replies[j]]
            0 <= j < inspection.replies.len() ==> crate::encrypted::reads_from(
                file,
                inspection.steps[j],
                inspection.replies[j],
            ),
        0 <= i < inspection.steps.len(),
    ensures
        inspection.steps[0] matches ConditionStep::OpenFile(opened) && opened@ == input_path@,
        inspection.steps[i] matches ConditionStep::Judge { bytes } ==> bytes@
            == crate::encrypted::window(file),
        match inspection.steps.last() {
            ConditionStep::Done(Ok(condition)) => conversion.steps.last() matches ConvertStep::Done(
                Err(report),
            ) && event_handler::reported_as(refusal.message_text(), condition, report),
            _ => conversion.steps.last() == ConvertStep::Done(
                Err(crate::error::LambdaError::ReadFileIntegrity),
            ),
        },
{
    event_handler::law_refused_conversion_is_reported(
        request,
        input_path,
        output_path,
        conversion.steps,
        conversion.replies,
        refusal,
    );
    event_handler::law_works_on_the_given_files(
        request,
        input_path,
        output_path,
        conversion.steps,
        conversion.replies,
        2,
    );
    crate::encrypted::law_judges_beginning_of_file(
        file,
        inspection.steps,
        inspection.replies,
        i,
    );
}

} // verus!
