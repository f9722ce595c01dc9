//! The temporary files of a conversion.
//!
//! Setting them up, and clearing them away, is a sequence of steps. A step
//! says what to do next; doing it gives a reply, and the reply decides the
//! next step.

use crate::error::LambdaError;
use crate::path;
use crate::path::{PartView, PathParts};
use vstd::prelude::*;
use vstd::utf8::*;

verus! {

/// Whether a text is a random identifier without hyphens: 32 hexadecimal
/// digits, with the version and the variant in their places.
pub open spec fn is_simple_id(id: Seq<char>) -> bool {
    &&& id.len() == 32
    &&& forall|i: int|
        0 <= i < id.len() ==> ('0' <= #[trigger] id[i] <= '9' || 'a' <= id[i] <= 'f')
    &&& id[12] == '4'
    &&& (id[16] == '8' || id[16] == '9' || id[16] == 'a' || id[16] == 'b')
}

/// `Uuid::new_v4` of the crate `uuid` draws a random identifier, `simple` and
/// its `Display` write it down. Which one is left to chance; every one is 32
/// hexadecimal digits in lower case, and holds version 4 and the variant of
/// RFC 4122.
#[verifier::external_body]
fn random_id() -> (id: String)
    ensures
        is_simple_id(id@),
{
    uuid::Uuid::new_v4().simple().to_string()
}

/// The name of the file that the source is copied to.
pub open spec fn input_name(id: Seq<char>) -> Seq<char> {
    "tmp_native_input_"@ + id
}

/// The name of the file that the conversion writes.
pub open spec fn output_name(id: Seq<char>) -> Seq<char> {
    "tmp_native_output_"@ + id + ".pdf"@
}

/// The name of the directory for temporary data.
pub open spec fn temp_name(id: Seq<char>) -> Seq<char> {
    "tmp_native_temp_"@ + id
}

/// The paths of one conversion.
#[derive(Debug)]
pub struct TempPaths {
    /// The file that the source is copied to
    pub input: PathParts,
    /// The file that the conversion writes
    pub output: PathParts,
    /// The directory for temporary data
    pub temp: PathParts,
}

impl TempPaths {
    /// Whether these are the paths that belong to an identifier.
    pub open spec fn belong_to(self, dir: Seq<PartView>, id: Seq<char>) -> bool {
        &&& self.input@ == dir.push(path::named(input_name(id)))
        &&& self.output@ == dir.push(path::named(output_name(id)))
        &&& self.temp@ == dir.push(path::named(temp_name(id)))
    }
}

/// Plain text is a run of characters that stand for themselves in a name.
spec fn is_plain(text: Seq<char>) -> bool {
    forall|i: int| 0 <= i < text.len() ==> '-' <= #[trigger] text[i] <= 'z' && text[i] != '/'
}

/// Plain text of some length names an entry of a directory.
proof fn lemma_plain_is_name(text: Seq<char>)
    requires
        is_plain(text),
        text.len() > 2,
    ensures
        path::is_name(encode_utf8(text)),
{
    assert(is_ascii_chars(text));
    is_ascii_chars_encode_utf8(text);
    let name = encode_utf8(text);
    assert forall|i: int| 0 <= i < name.len() implies #[trigger] name[i] != 47 by {
        assert(text[i] as u8 == name[i]);
    }
}

/// Plain texts one after the other are plain text.
proof fn lemma_plain_concat(a: Seq<char>, b: Seq<char>)
    requires
        is_plain(a),
        is_plain(b),
    ensures
        is_plain(a + b),
{
}

/// The fixed parts of the names are plain.
proof fn lemma_fixed_parts_are_plain()
    ensures
        is_plain("tmp_native_input_"@),
        is_plain("tmp_native_output_"@),
        is_plain("tmp_native_temp_"@),
        is_plain(".pdf"@),
        is_plain("onlyoffice-convert-server"@),
        "onlyoffice-convert-server"@.len() > 2,
{
    reveal_strlit("tmp_native_input_");
    reveal_strlit("tmp_native_output_");
    reveal_strlit("tmp_native_temp_");
    reveal_strlit(".pdf");
    reveal_strlit("onlyoffice-convert-server");
}

/// The names that belong to an identifier are names.
proof fn lemma_names(id: Seq<char>)
    requires
        is_simple_id(id),
    ensures
        path::is_name(encode_utf8(input_name(id))),
        path::is_name(encode_utf8(output_name(id))),
        path::is_name(encode_utf8(temp_name(id))),
{
    lemma_fixed_parts_are_plain();
    assert(is_plain(id));
    lemma_plain_concat("tmp_native_input_"@, id);
    lemma_plain_concat("tmp_native_output_"@, id);
    lemma_plain_concat("tmp_native_output_"@ + id, ".pdf"@);
    lemma_plain_concat("tmp_native_temp_"@, id);
    lemma_plain_is_name(input_name(id));
    lemma_plain_is_name(output_name(id));
    lemma_plain_is_name(temp_name(id));
}

/// The paths in `temp_dir` that belong to an identifier.
pub fn paths_of(temp_dir: &PathParts, id: &str) -> (paths: TempPaths)
    requires
        is_simple_id(id@),
    ensures
        paths.belong_to(temp_dir@, id@),
{
    proof {
        lemma_names(id@);
    }
    let input: String = "tmp_native_input_".to_owned().concat(id);
    let output: String = "tmp_native_output_".to_owned().concat(id).concat(".pdf");
    let temp: String = "tmp_native_temp_".to_owned().concat(id);
    TempPaths {
        input: temp_dir.entry(input.as_str()),
        output: temp_dir.entry(output.as_str()),
        temp: temp_dir.entry(temp.as_str()),
    }
}

/// What to do next to have the directory for temporary files.
#[derive(Debug)]
pub enum TempDirStep {
    /// See whether the directory exists
    CheckExists(PathParts),
    /// Create the directory, and those above it
    CreateDir(PathParts),
    /// Nothing: the directory is there, or could not be created
    Done(Result<PathParts, LambdaError>),
}

/// How a step went.
#[derive(Debug)]
pub enum TempDirReply {
    /// Whether the directory exists
    Exists(bool),
    /// The directory was created, or not
    Created(Result<(), ()>),
}

impl TempDirStep {
    /// Whether a reply answers this step.
    pub open spec fn expects(self, reply: TempDirReply) -> bool {
        match self {
            TempDirStep::CheckExists(_) => reply is Exists,
            TempDirStep::CreateDir(_) => reply is Created,
            TempDirStep::Done(_) => false,
        }
    }

    /// The step after this one.
    pub open spec fn after(self, reply: TempDirReply) -> TempDirStep {
        match (self, reply) {
            (TempDirStep::CheckExists(dir), TempDirReply::Exists(true)) => TempDirStep::Done(
                Ok(dir),
            ),
            (TempDirStep::CheckExists(dir), TempDirReply::Exists(false)) => TempDirStep::CreateDir(
                dir,
            ),
            (TempDirStep::CreateDir(dir), TempDirReply::Created(Ok(_))) => TempDirStep::Done(
                Ok(dir),
            ),
            (TempDirStep::CreateDir(dir), TempDirReply::Created(Err(_))) => TempDirStep::Done(
                Err(LambdaError::SetupTempDirFailed),
            ),
            _ => self,
        }
    }

    /// The step after this one.
    pub fn resume(self, reply: TempDirReply) -> (next: TempDirStep)
        requires
            self.expects(reply),
        ensures
            next == self.after(reply),
    {
        match (self, reply) {
            (TempDirStep::CheckExists(dir), TempDirReply::Exists(exists)) => if exists {
                TempDirStep::Done(Ok(dir))
            } else {
                TempDirStep::CreateDir(dir)
            },
            (TempDirStep::CreateDir(dir), TempDirReply::Created(result)) => match result {
                Ok(_) => TempDirStep::Done(Ok(dir)),
                Err(_) => TempDirStep::Done(Err(LambdaError::SetupTempDirFailed)),
            },
            (step, _) => step,
        }
    }
}

/// Sets up the directory for temporary files below the one of the system: the
/// first step
pub fn setup_temp_path(system_temp_dir: &PathParts) -> (step: TempDirStep)
    ensures
        step matches TempDirStep::CheckExists(dir) && dir@ == system_temp_dir@.push(
            path::named("onlyoffice-convert-server"@),
        ),
{
    proof {
        lemma_fixed_parts_are_plain();
        lemma_plain_is_name("onlyoffice-convert-server"@);
    }
    TempDirStep::CheckExists(system_temp_dir.entry("onlyoffice-convert-server"))
}

/// What to do next to have the paths of a conversion.
#[derive(Debug)]
pub enum TempPathsStep<E> {
    /// Make the path of the input file absolute
    MakeInputAbsolute(TempPaths),
    /// Make the path of the output file absolute
    MakeOutputAbsolute(TempPaths),
    /// Make the path of the directory for temporary data absolute
    MakeTempAbsolute(TempPaths),
    /// See whether the directory for temporary data exists
    CheckTemp(TempPaths),
    /// Create the directory for temporary data, and those above it
    CreateTemp(TempPaths),
    /// Nothing: the paths of the input and of the output are set up, or not
    Done(Result<(PathParts, PathParts), E>),
}

/// How a step went.
#[derive(Debug)]
pub enum TempPathsReply<E> {
    /// The absolute path
    Absolute(Result<PathParts, E>),
    /// Whether the directory exists
    Exists(bool),
    /// The directory was created, or not
    Created(Result<(), E>),
}

impl<E> TempPathsStep<E> {
    /// Whether a reply answers this step.
    pub open spec fn expects(self, reply: TempPathsReply<E>) -> bool {
        match self {
            TempPathsStep::CheckTemp(_) => reply is Exists,
            TempPathsStep::CreateTemp(_) => reply is Created,
            TempPathsStep::Done(_) => false,
            _ => reply is Absolute,
        }
    }

    /// The step after this one: each path is replaced by its absolute form,
    /// and the directory is created unless it exists.
    pub open spec fn after(self, reply: TempPathsReply<E>) -> TempPathsStep<E> {
        match (self, reply) {
            (_, TempPathsReply::Absolute(Err(error))) => TempPathsStep::Done(Err(error)),
            (_, TempPathsReply::Created(Err(error))) => TempPathsStep::Done(Err(error)),
            (
                TempPathsStep::MakeInputAbsolute(paths),
                TempPathsReply::Absolute(Ok(input)),
            ) => TempPathsStep::MakeOutputAbsolute(TempPaths { input, ..paths }),
            (
                TempPathsStep::MakeOutputAbsolute(paths),
                TempPathsReply::Absolute(Ok(output)),
            ) => TempPathsStep::MakeTempAbsolute(TempPaths { output, ..paths }),
            (
                TempPathsStep::MakeTempAbsolute(paths),
                TempPathsReply::Absolute(Ok(temp)),
            ) => TempPathsStep::CheckTemp(TempPaths { temp, ..paths }),
            (
                TempPathsStep::CheckTemp(paths),
                TempPathsReply::Exists(false),
            ) => TempPathsStep::CreateTemp(paths),
            (
                TempPathsStep::CheckTemp(paths),
                TempPathsReply::Exists(true),
            ) => TempPathsStep::Done(Ok((paths.input, paths.output))),
            (
                TempPathsStep::CreateTemp(paths),
                TempPathsReply::Created(Ok(_)),
            ) => TempPathsStep::Done(Ok((paths.input, paths.output))),
            _ => self,
        }
    }

    /// The step after this one.
    pub fn resume(self, reply: TempPathsReply<E>) -> (next: TempPathsStep<E>)
        requires
            self.expects(reply),
        ensures
            next == self.after(reply),
    {
        match (self, reply) {
            (_, TempPathsReply::Absolute(Err(error))) => TempPathsStep::Done(Err(error)),
            (_, TempPathsReply::Created(Err(error))) => TempPathsStep::Done(Err(error)),
            (
                TempPathsStep::MakeInputAbsolute(paths),
                TempPathsReply::Absolute(Ok(input)),
            ) => TempPathsStep::MakeOutputAbsolute(
                TempPaths { input, output: paths.output, temp: paths.temp },
            ),
            (
                TempPathsStep::MakeOutputAbsolute(paths),
                TempPathsReply::Absolute(Ok(output)),
            ) => TempPathsStep::MakeTempAbsolute(
                TempPaths { input: paths.input, output, temp: paths.temp },
            ),
            (
                TempPathsStep::MakeTempAbsolute(paths),
                TempPathsReply::Absolute(Ok(temp)),
            ) => TempPathsStep::CheckTemp(
                TempPaths { input: paths.input, output: paths.output, temp },
            ),
            (TempPathsStep::CheckTemp(paths), TempPathsReply::Exists(exists)) => if exists {
                TempPathsStep::Done(Ok((paths.input, paths.output)))
            } else {
                TempPathsStep::CreateTemp(paths)
            },
            (
                TempPathsStep::CreateTemp(paths),
                TempPathsReply::Created(Ok(_)),
            ) => TempPathsStep::Done(Ok((paths.input, paths.output))),
            (step, _) => step,
        }
    }
}

/// Sets up the paths of a conversion in `temp_dir`, under a random identifier:
/// the first step
pub fn create_convert_temp_paths<E>(temp_dir: &PathParts) -> (step: TempPathsStep<E>)
    ensures
        step matches TempPathsStep::MakeInputAbsolute(paths) && exists|id: Seq<char>|
            is_simple_id(id) && #[trigger] paths.belong_to(temp_dir@, id),
{
    let id: String = random_id();
    let paths: TempPaths = paths_of(temp_dir, id.as_str());
    let step: TempPathsStep<E> = TempPathsStep::MakeInputAbsolute(paths);
    assert(step->MakeInputAbsolute_0.belong_to(temp_dir@, id@));
    step
}

/// The paths of conversions keep apart: the three of one conversion differ
/// from each other, and those of two conversions with different identifiers
/// have none in common.
pub proof fn law_temp_paths_keep_apart(
    dir: Seq<PartView>,
    id: Seq<char>,
    paths: TempPaths,
    other_id: Seq<char>,
    other: TempPaths,
)
    requires
        is_simple_id(id),
        is_simple_id(other_id),
        paths.belong_to(dir, id),
        other.belong_to(dir, other_id),
    ensures
        paths.input@ != other.output@,
        paths.input@ != other.temp@,
        paths.output@ != other.temp@,
        id != other_id ==> paths.input@ != other.input@ && paths.output@ != other.output@
            && paths.temp@ != other.temp@,
{
    let names = seq![input_name(id), output_name(id), temp_name(id)];
    let others = seq![input_name(other_id), output_name(other_id), temp_name(other_id)];
    assert forall|i: int, j: int|
        #![trigger names[i], others[j]]
        0 <= i < 3 && 0 <= j < 3 && dir.push(path::named(names[i])) == dir.push(
            path::named(others[j]),
        ) implies names[i] == others[j] by {
        assert(dir.push(path::named(names[i])).last() == dir.push(path::named(others[j])).last());
        encode_utf8_decode_utf8(names[i]);
        encode_utf8_decode_utf8(others[j]);
    }
    reveal_strlit("tmp_native_input_");
    reveal_strlit("tmp_native_output_");
    reveal_strlit("tmp_native_temp_");
    reveal_strlit(".pdf");
    assert(names[0][11] == 'i' && names[1][11] == 'o' && others[1][11] == 'o' && others[2][11]
        == 't');
    if id != other_id {
        lemma_same_middle("tmp_native_input_"@, id, other_id, Seq::empty());
        assert(input_name(id) + Seq::<char>::empty() == input_name(id));
        assert(input_name(other_id) + Seq::<char>::empty() == input_name(other_id));
        lemma_same_middle("tmp_native_output_"@, id, other_id, ".pdf"@);
        lemma_same_middle("tmp_native_temp_"@, id, other_id, Seq::empty());
        assert(temp_name(id) + Seq::<char>::empty() == temp_name(id));
        assert(temp_name(other_id) + Seq::<char>::empty() == temp_name(other_id));
    }
    assert(names[0] != others[1] && names[0] != others[2] && names[1] != others[2]);
}

/// Texts of one length that agree between a common beginning and a common end
/// are the same.
proof fn lemma_same_middle(start: Seq<char>, a: Seq<char>, b: Seq<char>, end: Seq<char>)
    requires
        a.len() == b.len(),
        a != b,
    ensures
        start + a + end != start + b + end,
{
    if start + a + end == start + b + end {
        let (from, to) = (start.len() as int, (start.len() + a.len()) as int);
        assert(a == (start + a + end).subrange(from, to));
        assert(b == (start + b + end).subrange(from, to));
    }
}

/// What to do next to clear the files of a conversion away.
#[derive(Debug)]
pub enum CleanupStep {
    /// See whether the input file exists
    CheckInput { input: PathParts, output: PathParts },
    /// Remove the input file
    RemoveInput { input: PathParts, output: PathParts },
    /// See whether the output file exists
    CheckOutput { output: PathParts },
    /// Remove the output file
    RemoveOutput { output: PathParts },
    /// Nothing: the files are cleared away
    Done,
}

/// How a step went.
#[derive(Debug)]
pub enum CleanupReply {
    /// Whether the file exists
    Exists(bool),
    /// The file was removed, or not
    Removed(Result<(), ()>),
}

impl CleanupStep {
    /// Whether a reply answers this step.
    pub open spec fn expects(self, reply: CleanupReply) -> bool {
        match self {
            CleanupStep::CheckInput { .. } => reply is Exists,
            CleanupStep::RemoveInput { .. } => reply is Removed,
            CleanupStep::CheckOutput { .. } => reply is Exists,
            CleanupStep::RemoveOutput { .. } => reply is Removed,
            CleanupStep::Done => false,
        }
    }

    /// The step after this one: a file that exists is removed, and whether
    /// that works does not matter for the rest.
    pub open spec fn after(self, reply: CleanupReply) -> CleanupStep {
        match self {
            CleanupStep::CheckInput { input, output } => if reply == CleanupReply::Exists(true) {
                CleanupStep::RemoveInput { input, output }
            } else {
                CleanupStep::CheckOutput { output }
            },
            CleanupStep::RemoveInput { input, output } => CleanupStep::CheckOutput { output },
            CleanupStep::CheckOutput { output } => if reply == CleanupReply::Exists(true) {
                CleanupStep::RemoveOutput { output }
            } else {
                CleanupStep::Done
            },
            CleanupStep::RemoveOutput { output } => CleanupStep::Done,
            CleanupStep::Done => CleanupStep::Done,
        }
    }

    /// The step after this one.
    pub fn resume(self, reply: CleanupReply) -> (next: CleanupStep)
        requires
            self.expects(reply),
        ensures
            next == self.after(reply),
    {
        let exists: bool = match reply {
            CleanupReply::Exists(exists) => exists,
            CleanupReply::Removed(_) => false,
        };
        match self {
            CleanupStep::CheckInput { input, output } => if exists {
                CleanupStep::RemoveInput { input, output }
            } else {
                CleanupStep::CheckOutput { output }
            },
            CleanupStep::RemoveInput { input, output } => CleanupStep::CheckOutput { output },
            CleanupStep::CheckOutput { output } => if exists {
                CleanupStep::RemoveOutput { output }
            } else {
                CleanupStep::Done
            },
            CleanupStep::RemoveOutput { output } => CleanupStep::Done,
            CleanupStep::Done => CleanupStep::Done,
        }
    }
}

/// Clears the files of a conversion away: the first step
pub fn cleanup(input_path: PathParts, output_path: PathParts) -> (step: CleanupStep)
    ensures
        step == (CleanupStep::CheckInput { input: input_path, output: output_path }),
{
    CleanupStep::CheckInput { input: input_path, output: output_path }
}

/// Whether `steps` is a run of setting up the paths `paths`, answered by
/// `replies`.
pub open spec fn is_temp_paths_run<E>(
    paths: TempPaths,
    steps: Seq<TempPathsStep<E>>,
    replies: Seq<TempPathsReply<E>>,
) -> bool {
    &&& steps.len() == replies.len() + 1
    &&& steps[0] == TempPathsStep::<E>::MakeInputAbsolute(paths)
    &&& forall|i: int|
        #![trigger replies[i]]
        0 <= i < replies.len() ==> steps[i].expects(replies[i]) && steps[i + 1] == steps[i].after(
            replies[i],
        )
}

/// The steps of setting up the paths one by one, as far as it goes.
proof fn lemma_temp_paths_run<E>(
    paths: TempPaths,
    steps: Seq<TempPathsStep<E>>,
    replies: Seq<TempPathsReply<E>>,
)
    requires
        is_temp_paths_run(paths, steps, replies),
    ensures
        replies.len() <= 5,
        replies.len() > 0 ==> steps[0].expects(replies[0]) && steps[1] == steps[0].after(
            replies[0],
        ),
        replies.len() > 1 ==> steps[1].expects(replies[1]) && steps[2] == steps[1].after(
            replies[1],
        ),
        replies.len() > 2 ==> steps[2].expects(replies[2]) && steps[3] == steps[2].after(
            replies[2],
        ),
        replies.len() > 3 ==> steps[3].expects(replies[3]) && steps[4] == steps[3].after(
            replies[3],
        ),
        replies.len() > 4 ==> steps[4].expects(replies[4]) && steps[5] == steps[4].after(
            replies[4],
        ),
{
    // Naming a reply brings in what is known of the step that it answers
    let (first, second, third) = (replies[0], replies[1], replies[2]);
    let (fourth, fifth, sixth) = (replies[3], replies[4], replies[5]);
    if replies.len() > 5 {
        assert(steps[5].expects(sixth));
    }
}

/// The paths that a conversion gets are the absolute forms of its own, and the
/// absolute form of its directory for temporary data exists or was created.
pub proof fn law_temp_paths_are_absolute_forms<E>(
    paths: TempPaths,
    steps: Seq<TempPathsStep<E>>,
    replies: Seq<TempPathsReply<E>>,
    input: PathParts,
    output: PathParts,
)
    requires
        is_temp_paths_run(paths, steps, replies),
        steps.last() == TempPathsStep::<E>::Done(Ok((input, output))),
    ensures
        steps[0] == TempPathsStep::<E>::MakeInputAbsolute(paths),
        replies[0] == TempPathsReply::<E>::Absolute(Ok(input)),
        steps[1] matches TempPathsStep::MakeOutputAbsolute(asked) && asked.output == paths.output,
        replies[1] == TempPathsReply::<E>::Absolute(Ok(output)),
        steps[2] matches TempPathsStep::MakeTempAbsolute(asked) && asked.temp == paths.temp,
        steps[3] matches TempPathsStep::CheckTemp(asked) && replies[2]
            == TempPathsReply::<E>::Absolute(Ok(asked.temp)) && (replies[3]
            == TempPathsReply::<E>::Exists(true) || (steps[4]
            == TempPathsStep::<E>::CreateTemp(asked) && (
        replies[4] matches TempPathsReply::Created(Ok(_))))),
{
    lemma_temp_paths_run(paths, steps, replies);
}

/// Whether `steps` is a run of clearing away two files, answered by `replies`.
pub open spec fn is_cleanup_run(
    input: PathParts,
    output: PathParts,
    steps: Seq<CleanupStep>,
    replies: Seq<CleanupReply>,
) -> bool {
    &&& steps.len() == replies.len() + 1
    &&& steps[0] == (CleanupStep::CheckInput { input, output })
    &&& forall|i: int|
        #![trigger replies[i]]
        0 <= i < replies.len() ==> steps[i].expects(replies[i]) && steps[i + 1] == steps[i].after(
            replies[i],
        )
}

/// The steps of clearing away one by one, as far as it goes.
proof fn lemma_cleanup_run(
    input: PathParts,
    output: PathParts,
    steps: Seq<CleanupStep>,
    replies: Seq<CleanupReply>,
)
    requires
        is_cleanup_run(input, output, steps, replies),
    ensures
        replies.len() <= 4,
        replies.len() > 0 ==> steps[0].expects(replies[0]) && steps[1] == steps[0].after(
            replies[0],
        ),
        replies.len() > 1 ==> steps[1].expects(replies[1]) && steps[2] == steps[1].after(
            replies[1],
        ),
        replies.len() > 2 ==> steps[2].expects(replies[2]) && steps[3] == steps[2].after(
            replies[2],
        ),
        replies.len() > 3 ==> steps[3].expects(replies[3]) && steps[4] == steps[3].after(
            replies[3],
        ),
{
    // Naming a reply brings in what is known of the step that it answers
    let (first, second, third) = (replies[0], replies[1], replies[2]);
    let (fourth, fifth) = (replies[3], replies[4]);
    if replies.len() > 4 {
        assert(steps[4].expects(fifth));
    }
}

/// Both files are looked for, each is removed exactly where it exists, and
/// whether the first can be removed does not matter for the second.
pub proof fn law_cleanup_removes_what_exists(
    input: PathParts,
    output: PathParts,
    steps: Seq<CleanupStep>,
    replies: Seq<CleanupReply>,
)
    requires
        is_cleanup_run(input, output, steps, replies),
        steps.last() is Done,
    ensures
        ({
            let at = if replies[0] == CleanupReply::Exists(true) { 2int } else { 1int };
            &&& at == 2 ==> steps[1] == (CleanupStep::RemoveInput { input, output })
            &&& steps[at] == (CleanupStep::CheckOutput { output })
            &&& if replies[at] == CleanupReply::Exists(true) {
                steps[at + 1] == (CleanupStep::RemoveOutput { output }) && steps.len() == at + 3
            } else {
                steps.len() == at + 2
            }
        }),
{
    lemma_cleanup_run(input, output, steps, replies);
}

/// The paths of a conversion lie in their directory, under names that hold the
/// whole identifier behind what they are for; the output is a PDF by its name.
pub proof fn law_paths_are_named_after_the_identifier(
    dir: Seq<PartView>,
    id: Seq<char>,
    paths: TempPaths,
)
    requires
        paths.belong_to(dir, id),
    ensures
        paths.input@ == dir.push(PartView::Name(encode_utf8("tmp_native_input_"@ + id))),
        paths.output@ == dir.push(
            PartView::Name(encode_utf8("tmp_native_output_"@ + id + ".pdf"@)),
        ),
        paths.temp@ == dir.push(PartView::Name(encode_utf8("tmp_native_temp_"@ + id))),
{
}

/// The directory for temporary files is created exactly where it does not
/// exist, and is the very one that is used, unless it could not be created.
pub proof fn law_temp_dir_is_there(dir: PathParts, exists: bool, created: Result<(), ()>)
    ensures
        ({
            let asked = TempDirStep::CheckExists(dir);
            let second = asked.after(TempDirReply::Exists(exists));
            &&& asked.expects(TempDirReply::Exists(exists))
            &&& exists ==> second == TempDirStep::Done(Ok(dir))
            &&& !exists ==> {
                &&& second == TempDirStep::CreateDir(dir)
                &&& second.expects(TempDirReply::Created(created))
                &&& second.after(TempDirReply::Created(created)) == TempDirStep::Done(
                    match created {
                        Ok(_) => Ok(dir),
                        Err(_) => Err(LambdaError::SetupTempDirFailed),
                    },
                )
            }
        }),
{
}

/// Each path is made absolute in turn and takes the place of the one before,
/// the others stay as they are; the directory for temporary data is created
/// where it does not exist; and the first failure ends the set-up.
pub proof fn law_temp_paths_go_on<E>(
    paths: TempPaths,
    steps: Seq<TempPathsStep<E>>,
    replies: Seq<TempPathsReply<E>>,
    i: int,
)
    requires
        is_temp_paths_run(paths, steps, replies),
        0 <= i < replies.len(),
    ensures
        replies[i] matches TempPathsReply::Absolute(Err(error)) ==> steps[i + 1]
            == TempPathsStep::<E>::Done(Err(error)),
        replies[i] matches TempPathsReply::Created(Err(error)) ==> steps[i + 1]
            == TempPathsStep::<E>::Done(Err(error)),
        replies[i] matches TempPathsReply::Absolute(Ok(full)) ==> match steps[i] {
            TempPathsStep::MakeInputAbsolute(asked) => steps[i + 1]
                == TempPathsStep::<E>::MakeOutputAbsolute(
                TempPaths { input: full, output: asked.output, temp: asked.temp },
            ),
            TempPathsStep::MakeOutputAbsolute(asked) => steps[i + 1]
                == TempPathsStep::<E>::MakeTempAbsolute(
                TempPaths { input: asked.input, output: full, temp: asked.temp },
            ),
            TempPathsStep::MakeTempAbsolute(asked) => steps[i + 1] == TempPathsStep::<E>::CheckTemp(
                TempPaths { input: asked.input, output: asked.output, temp: full },
            ),
            _ => false,
        },
        replies[i] matches TempPathsReply::Exists(exists) ==> (
        steps[i] matches TempPathsStep::CheckTemp(asked) && steps[i + 1] == if exists {
            TempPathsStep::<E>::Done(Ok((asked.input, asked.output)))
        } else {
            TempPathsStep::<E>::CreateTemp(asked)
        }),
        replies[i] matches TempPathsReply::Created(Ok(_)) ==> (
        steps[i] matches TempPathsStep::CreateTemp(asked) && steps[i + 1]
            == TempPathsStep::<E>::Done(Ok((asked.input, asked.output)))),
{
    let reply = replies[i];
    assert(steps[i].expects(reply));
}

/// Setting up the paths fails only where a reply is a failure, and with that
/// failure.
pub proof fn law_temp_paths_fail_only_by_a_failure<E>(
    paths: TempPaths,
    steps: Seq<TempPathsStep<E>>,
    replies: Seq<TempPathsReply<E>>,
    error: E,
)
    requires
        is_temp_paths_run(paths, steps, replies),
        steps.last() == TempPathsStep::<E>::Done(Err(error)),
    ensures
        replies.len() > 0,
        replies.last() == TempPathsReply::<E>::Absolute(Err(error)) || replies.last()
            == TempPathsReply::<E>::Created(Err(error)),
{
    let n = replies.len() - 1;
    let reply = replies[n];
    law_temp_paths_go_on(paths, steps, replies, n);
    assert(steps[n].expects(reply));
}

/// Setting up the paths takes every reply of the kind that was asked for.
pub proof fn law_temp_paths_take_replies<E>(step: TempPathsStep<E>, reply: TempPathsReply<E>)
    ensures
        step.expects(reply) <==> {
            ||| step is MakeInputAbsolute && reply is Absolute
            ||| step is MakeOutputAbsolute && reply is Absolute
            ||| step is MakeTempAbsolute && reply is Absolute
            ||| step is CheckTemp && reply is Exists
            ||| step is CreateTemp && reply is Created
        },
{
}

/// A file is removed exactly where it exists; then, whether or not that went
/// well, it is the turn of the other one.
pub proof fn law_clearing_goes_on(
    input: PathParts,
    output: PathParts,
    exists: bool,
    removed: Result<(), ()>,
)
    ensures
        ({
            let (seen, gone) = (CleanupReply::Exists(exists), CleanupReply::Removed(removed));
            let remove_input = CleanupStep::RemoveInput { input, output };
            let remove_output = CleanupStep::RemoveOutput { output };
            &&& (CleanupStep::CheckInput { input, output }).expects(seen)
            &&& (CleanupStep::CheckInput { input, output }).after(seen) == if exists {
                remove_input
            } else {
                CleanupStep::CheckOutput { output }
            }
            &&& remove_input.expects(gone)
            &&& remove_input.after(gone) == (CleanupStep::CheckOutput { output })
            &&& (CleanupStep::CheckOutput { output }).expects(seen)
            &&& (CleanupStep::CheckOutput { output }).after(seen) == if exists {
                remove_output
            } else {
                CleanupStep::Done
            }
            &&& remove_output.expects(gone)
            &&& remove_output.after(gone) == CleanupStep::Done
        }),
{
}

/// Temporary files are set up below the directory of the system, under names
/// with one identifier, and cleared away both.
pub proof fn law_temp_files_are_found_again<E>(
    dir: &PathParts,
    id: &str,
    paths: TempPaths,
    below: TempDirStep,
    fresh: TempPathsStep<E>,
    input: PathParts,
    output: PathParts,
    clearing: CleanupStep,
)
    requires
        call_ensures(paths_of, (dir, id), paths),
        call_ensures(setup_temp_path, (dir,), below),
        call_ensures(create_convert_temp_paths::<E>, (dir,), fresh),
        call_ensures(cleanup, (input, output), clearing),
    ensures
        paths.belong_to(dir@, id@),
        below matches TempDirStep::CheckExists(asked) && asked@ == dir@.push(
            PartView::Name(encode_utf8("onlyoffice-convert-server"@)),
        ),
        fresh matches TempPathsStep::MakeInputAbsolute(drawn) && exists|other: Seq<char>|
            is_simple_id(other) && #[trigger] drawn.belong_to(dir@, other),
        clearing == (CleanupStep::CheckInput { input, output }),
{
}

/// Every step is followed by the one that its reply calls for.
pub proof fn law_temp_file_steps_follow<E>(
    step: TempDirStep,
    reply: TempDirReply,
    next: TempDirStep,
    paths_step: TempPathsStep<E>,
    paths_reply: TempPathsReply<E>,
    paths_next: TempPathsStep<E>,
    clear_step: CleanupStep,
    clear_reply: CleanupReply,
    clear_next: CleanupStep,
)
    requires
        call_ensures(TempDirStep::resume, (step, reply), next),
        call_ensures(TempPathsStep::<E>::resume, (paths_step, paths_reply), paths_next),
        call_ensures(CleanupStep::resume, (clear_step, clear_reply), clear_next),
    ensures
        next == step.after(reply),
        paths_next == paths_step.after(paths_reply),
        clear_next == clear_step.after(clear_reply),
{
}

} // verus!
