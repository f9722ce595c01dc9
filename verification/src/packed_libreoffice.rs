//! Unpacking the archived LibreOffice install.
//!
//! Unpacking is a sequence of steps. A step says what to do next; doing it
//! gives a reply, and the reply decides the next step.

use crate::path;
use crate::path::{PartView, PathParts};
use vstd::prelude::*;

verus! {

/// Why unpacking stopped early.
#[derive(Debug)]
pub enum UnpackError<E> {
    /// Reading the archive or writing a file failed
    Io(E),
    /// An entry would be placed outside of the destination; the text says which
    IllegalPath(String),
}

/// An entry of the archive.
#[derive(Debug)]
pub struct ArchiveEntry {
    /// Where the entry wants to be placed
    pub path: PathParts,
    /// The path as it is shown in messages
    pub shown: String,
}

/// What to do next.
#[derive(Debug)]
pub enum UnpackStep<E> {
    /// Open the archive file
    OpenArchive { archive_path: PathParts, dest: PathParts },
    /// Create the decoder of the compressed archive
    CreateDecoder { dest: PathParts },
    /// Start reading the entries of the archive
    ListEntries { dest: PathParts },
    /// Read the next entry
    NextEntry { dest: PathParts },
    /// Create the directory `parent` for the entry in hand
    CreateParent { parent: PathParts, target: PathParts, dest: PathParts },
    /// Unpack the entry in hand to `target`
    UnpackEntry { target: PathParts, dest: PathParts },
    /// Nothing: unpacking is over
    Done(Result<(), UnpackError<E>>),
}

/// How a step went.
#[derive(Debug)]
pub enum UnpackReply<E> {
    /// The step was carried out, or failed
    Finished(Result<(), E>),
    /// The next entry was read, or failed to be read, or there is none
    Entry(Option<Result<ArchiveEntry, E>>),
}

impl<E> UnpackStep<E> {
    /// Whether a reply answers this step.
    pub open spec fn expects(self, reply: UnpackReply<E>) -> bool {
        match self {
            UnpackStep::NextEntry { .. } => reply is Entry,
            UnpackStep::Done(_) => false,
            _ => reply is Finished,
        }
    }

    /// Whether this step is one of unpacking to `to`.
    pub open spec fn unpacks_to(self, to: PathParts) -> bool {
        match self {
            UnpackStep::OpenArchive { archive_path, dest } => dest == to,
            UnpackStep::CreateDecoder { dest } => dest == to,
            UnpackStep::ListEntries { dest } => dest == to,
            UnpackStep::NextEntry { dest } => dest == to,
            UnpackStep::CreateParent { parent, target, dest } => dest == to,
            UnpackStep::UnpackEntry { target, dest } => dest == to,
            UnpackStep::Done(_) => true,
        }
    }

    /// Whether unpacking stops with this step because of a failure.
    pub open spec fn fails_with(self, error: E) -> bool {
        self == UnpackStep::<E>::Done(Err(UnpackError::Io(error)))
    }
}

/// Where an entry is placed.
pub open spec fn target_of(dest: Seq<PartView>, entry: ArchiveEntry) -> Seq<PartView> {
    path::joined(dest, entry.path@)
}

/// Whether an entry may be placed: its path, read in the destination, begins
/// with the destination and leads to a place in it.
pub open spec fn is_legal(dest: Seq<PartView>, entry: ArchiveEntry) -> bool {
    path::begins_with(target_of(dest, entry), dest) && path::lies_in(target_of(dest, entry), dest)
}

/// The step that an entry calls for.
pub open spec fn places<E>(dest: PathParts, entry: ArchiveEntry, next: UnpackStep<E>) -> bool {
    if !is_legal(dest@, entry) {
        next matches UnpackStep::Done(Err(UnpackError::IllegalPath(text))) && text@
            == "illegal path in archive: "@ + entry.shown@
    } else {
        &&& next.unpacks_to(dest)
        &&& match path::parent_of(target_of(dest@, entry)) {
            Some(above) => next matches UnpackStep::CreateParent { parent, target, .. } && parent@
                == above && target@ == target_of(dest@, entry),
            None => next matches UnpackStep::UnpackEntry { target, .. } && target@ == target_of(
                dest@,
                entry,
            ),
        }
    }
}

/// Whether `next` is the step that a reply to `step` calls for.
pub open spec fn unpack_follows<E>(
    step: UnpackStep<E>,
    reply: UnpackReply<E>,
    next: UnpackStep<E>,
) -> bool {
    match (step, reply) {
        (_, UnpackReply::Finished(Err(error))) => next.fails_with(error),
        (UnpackStep::OpenArchive { archive_path, dest }, UnpackReply::Finished(Ok(_))) => next
            == UnpackStep::<E>::CreateDecoder { dest },
        (UnpackStep::CreateDecoder { dest }, UnpackReply::Finished(Ok(_))) => next
            == UnpackStep::<E>::ListEntries { dest },
        (UnpackStep::ListEntries { dest }, UnpackReply::Finished(Ok(_))) => next
            == UnpackStep::<E>::NextEntry { dest },
        (UnpackStep::NextEntry { dest }, UnpackReply::Entry(None)) => next
            == UnpackStep::<E>::Done(Ok(())),
        (UnpackStep::NextEntry { dest }, UnpackReply::Entry(Some(Err(error)))) => next.fails_with(
            error,
        ),
        (UnpackStep::NextEntry { dest }, UnpackReply::Entry(Some(Ok(entry)))) => places(
            dest,
            entry,
            next,
        ),
        (UnpackStep::CreateParent { parent, target, dest }, UnpackReply::Finished(Ok(_))) => next
            == UnpackStep::<E>::UnpackEntry { target, dest },
        (UnpackStep::UnpackEntry { target, dest }, UnpackReply::Finished(Ok(_))) => next
            == UnpackStep::<E>::NextEntry { dest },
        _ => false,
    }
}

/// The step that an entry calls for.
fn place<E>(dest: PathParts, entry: ArchiveEntry) -> (next: UnpackStep<E>)
    ensures
        places(dest, entry, next),
{
    let target: PathParts = dest.join(&entry.path);
    if !target.starts_with(&dest) || !target.leads_into(&dest) {
        let text: String = "illegal path in archive: ".to_owned().concat(entry.shown.as_str());
        return UnpackStep::Done(Err(UnpackError::IllegalPath(text)));
    }
    match target.parent() {
        Some(parent) => UnpackStep::CreateParent { parent, target, dest },
        None => UnpackStep::UnpackEntry { target, dest },
    }
}

/// Unpack the libreoffice archive to the output directory: the first step
pub fn unpack_libreoffice<E>(archive_path: PathParts, dest_path: PathParts) -> (step: UnpackStep<E>)
    ensures
        step == (UnpackStep::<E>::OpenArchive { archive_path, dest: dest_path }),
{
    UnpackStep::OpenArchive { archive_path, dest: dest_path }
}

impl<E> UnpackStep<E> {
    /// The step after this one.
    pub fn resume(self, reply: UnpackReply<E>) -> (next: UnpackStep<E>)
        requires
            self.expects(reply),
        ensures
            unpack_follows(self, reply, next),
    {
        match (self, reply) {
            (_, UnpackReply::Finished(Err(error))) => UnpackStep::Done(Err(UnpackError::Io(error))),
            (_, UnpackReply::Entry(Some(Err(error)))) => UnpackStep::Done(
                Err(UnpackError::Io(error)),
            ),
            (UnpackStep::OpenArchive { archive_path, dest }, _) => UnpackStep::CreateDecoder {
                dest,
            },
            (UnpackStep::CreateDecoder { dest }, _) => UnpackStep::ListEntries { dest },
            (UnpackStep::ListEntries { dest }, _) => UnpackStep::NextEntry { dest },
            (UnpackStep::NextEntry { dest }, UnpackReply::Entry(Some(Ok(entry)))) => place(
                dest,
                entry,
            ),
            (UnpackStep::CreateParent { parent, target, dest }, _) => UnpackStep::UnpackEntry {
                target,
                dest,
            },
            (UnpackStep::UnpackEntry { target, dest }, _) => UnpackStep::NextEntry { dest },
            (_, _) => UnpackStep::Done(Ok(())),
        }
    }
}

/// Whether `steps` is a run of the unpacker from its first step on, to the
/// destination `dest`, answered by `replies`.
pub open spec fn is_unpack_run<E>(
    dest: PathParts,
    steps: Seq<UnpackStep<E>>,
    replies: Seq<UnpackReply<E>>,
) -> bool {
    &&& steps.len() == replies.len() + 1
    &&& steps[0] is OpenArchive
    &&& steps[0].unpacks_to(dest)
    &&& forall|i: int|
        #![trigger replies[i]]
        0 <= i < replies.len() ==> steps[i].expects(replies[i]) && unpack_follows(
            steps[i],
            replies[i],
            steps[i + 1],
        )
}

/// Where the entries read so far want to be placed, in the order of the archive.
pub open spec fn wanted<E>(dest: Seq<PartView>, replies: Seq<UnpackReply<E>>) -> Seq<Seq<PartView>>
    decreases replies.len(),
{
    if replies.len() == 0 {
        Seq::empty()
    } else {
        let before = wanted(dest, replies.drop_last());
        match replies.last() {
            UnpackReply::Entry(Some(Ok(entry))) => before.push(target_of(dest, entry)),
            _ => before,
        }
    }
}

/// Where entries were unpacked to so far, in that order.
pub open spec fn unpacked<E>(
    steps: Seq<UnpackStep<E>>,
    replies: Seq<UnpackReply<E>>,
) -> Seq<Seq<PartView>>
    decreases replies.len(),
{
    if replies.len() == 0 {
        Seq::empty()
    } else {
        let before = unpacked(steps, replies.drop_last());
        match (steps[replies.len() - 1], replies.last()) {
            (UnpackStep::UnpackEntry { target, dest }, UnpackReply::Finished(Ok(_))) => before.push(
                target@,
            ),
            _ => before,
        }
    }
}

/// An entry is refused exactly where its path is absolute and does not begin
/// with the destination, or where it leads to a place outside of it.
pub proof fn law_refused_entries(dest: Seq<PartView>, entry: ArchiveEntry)
    ensures
        is_legal(dest, entry) == ((!path::is_absolute(entry.path@) || path::begins_with(
            entry.path@,
            dest,
        )) && path::lies_in(target_of(dest, entry), dest)),
{
    if !path::is_absolute(entry.path@) {
        assert(dest =~= target_of(dest, entry).subrange(0, dest.len() as int));
    }
}

/// An entry without a `..` is refused exactly where its path is absolute and
/// does not begin with the destination.
pub proof fn law_entries_without_parents(dest: Seq<PartView>, entry: ArchiveEntry)
    requires
        path::is_path(entry.path@),
        dest.len() > 0,
        forall|i: int| 0 <= i < entry.path@.len() ==> !(#[trigger] entry.path@[i] is Parent),
    ensures
        is_legal(dest, entry) == (!path::is_absolute(entry.path@) || path::begins_with(
            entry.path@,
            dest,
        )),
{
    let wish = entry.path@;
    let n = dest.len() as int;
    law_refused_entries(dest, entry);
    let rest = if path::is_absolute(wish) {
        wish.skip(n)
    } else if wish.len() > 0 && wish[0] is Current {
        wish.drop_first()
    } else {
        wish
    };
    if path::is_absolute(wish) && path::begins_with(wish, dest) {
        assert(wish == dest + rest);
    }
    if !path::is_absolute(wish) || path::begins_with(wish, dest) {
        assert forall|i: int| 0 <= i < rest.len() implies #[trigger] rest[i] is Name by {
            let at = i + wish.len() - rest.len();
            assert(rest[i] == wish[at]);
        }
        path::lemma_names_lead_down(dest, rest);
        assert(target_of(dest, entry) == dest + rest);
    }
}

/// Whatever the archive holds, every path that is unpacked to begins with the
/// destination and leads to a place in it, and so does every directory that is
/// created for an entry, but for the one that the destination is in.
pub proof fn law_unpacks_inside_destination<E>(
    dest: PathParts,
    steps: Seq<UnpackStep<E>>,
    replies: Seq<UnpackReply<E>>,
    i: int,
)
    requires
        is_unpack_run(dest, steps, replies),
        0 <= i < steps.len(),
    ensures
        steps[i] matches UnpackStep::UnpackEntry { target, .. } ==> path::begins_with(
            target@,
            dest@,
        ) && path::lies_in(target@, dest@),
        steps[i] matches UnpackStep::CreateParent { parent, target, .. } ==> {
            &&& path::begins_with(target@, dest@)
            &&& path::lies_in(target@, dest@)
            &&& path::parent_of(target@) == Some(parent@)
            &&& path::resolved(target@) == path::resolved(dest@) || path::lies_in(parent@, dest@)
        },
        steps[i].unpacks_to(dest),
    decreases i,
{
    if i > 0 {
        law_unpacks_inside_destination(dest, steps, replies, i - 1);
        let reply = replies[i - 1];
        assert(unpack_follows(steps[i - 1], reply, steps[i]));
        if let UnpackStep::CreateParent { parent, target, .. } = steps[i] {
            path::lemma_parent_lies_in(target@, dest@);
        }
    }
}

/// The entry in hand is the only one that was read and not unpacked.
proof fn lemma_unpacked_in_order<E>(
    dest: PathParts,
    steps: Seq<UnpackStep<E>>,
    replies: Seq<UnpackReply<E>>,
)
    requires
        is_unpack_run(dest, steps, replies),
    ensures
        match steps.last() {
            UnpackStep::CreateParent { target, .. } => wanted(dest@, replies) == unpacked(
                steps,
                replies,
            ).push(target@),
            UnpackStep::UnpackEntry { target, .. } => wanted(dest@, replies) == unpacked(
                steps,
                replies,
            ).push(target@),
            UnpackStep::Done(Err(_)) => unpacked(steps, replies).is_prefix_of(
                wanted(dest@, replies),
            ),
            _ => wanted(dest@, replies) == unpacked(steps, replies),
        },
    decreases replies.len(),
{
    if replies.len() > 0 {
        let n = replies.len() - 1;
        let fewer = steps.drop_last();
        let told = replies.drop_last();
        assert forall|i: int| #![trigger told[i]] 0 <= i < told.len() implies fewer[i].expects(told[i])
            && unpack_follows(fewer[i], told[i], fewer[i + 1]) by {
            assert(replies[i] == told[i]);
        }
        lemma_unpacked_in_order(dest, fewer, told);
        lemma_unpacked_ignores_end(steps, fewer, told);
        law_unpacks_inside_destination(dest, steps, replies, n);
        assert(unpack_follows(steps[n], replies[n], steps[n + 1]));
    }
}

/// What was unpacked depends on the steps that were answered alone.
proof fn lemma_unpacked_ignores_end<E>(
    steps: Seq<UnpackStep<E>>,
    other: Seq<UnpackStep<E>>,
    replies: Seq<UnpackReply<E>>,
)
    requires
        forall|i: int| 0 <= i < replies.len() ==> steps[i] == other[i],
    ensures
        unpacked(steps, replies) == unpacked(other, replies),
    decreases replies.len(),
{
    if replies.len() > 0 {
        lemma_unpacked_ignores_end(steps, other, replies.drop_last());
    }
}

/// An archive that was unpacked with success was unpacked whole: every entry
/// went to its place in the destination, in the order of the archive.
pub proof fn law_success_unpacks_every_entry<E>(
    dest: PathParts,
    steps: Seq<UnpackStep<E>>,
    replies: Seq<UnpackReply<E>>,
)
    requires
        is_unpack_run(dest, steps, replies),
        steps.last() == UnpackStep::<E>::Done(Ok(())),
    ensures
        unpacked(steps, replies) == wanted(dest@, replies),
        replies.last() == UnpackReply::<E>::Entry(None),
{
    lemma_unpacked_in_order(dest, steps, replies);
    let n = replies.len() - 1;
    assert(unpack_follows(steps[n], replies[n], steps[n + 1]));
}

/// Unpacking takes every reply of the kind that was asked for.
pub proof fn law_unpacking_takes_replies<E>(step: UnpackStep<E>, reply: UnpackReply<E>)
    ensures
        step.expects(reply) <==> {
            ||| step is NextEntry && reply is Entry
            ||| !(step is NextEntry) && !(step is Done) && reply is Finished
        },
{
}

/// An entry whose place begins with the destination and lies in it is placed,
/// however long its path is: the directory above its place is created, if there
/// is one, and then the entry is unpacked to its place. Any other entry ends
/// unpacking with an error that shows its path.
pub proof fn law_entry_is_placed<E>(
    dest: PathParts,
    steps: Seq<UnpackStep<E>>,
    replies: Seq<UnpackReply<E>>,
    i: int,
    entry: ArchiveEntry,
)
    requires
        is_unpack_run(dest, steps, replies),
        0 <= i < replies.len(),
        replies[i] == UnpackReply::<E>::Entry(Some(Ok(entry))),
    ensures
        ({
            let place = path::joined(dest@, entry.path@);
            if path::begins_with(place, dest@) && path::lies_in(place, dest@) {
                if place.len() > 0 && !(place.last() is Root) {
                    steps[i + 1] matches UnpackStep::CreateParent { parent, target, .. } && parent@
                        == place.drop_last() && target@ == place
                } else {
                    steps[i + 1] matches UnpackStep::UnpackEntry { target, .. } && target@ == place
                }
            } else {
                steps[i + 1] matches UnpackStep::Done(Err(UnpackError::IllegalPath(text))) && text@
                    == "illegal path in archive: "@ + entry.shown@
            }
        }),
{
    law_unpacks_inside_destination(dest, steps, replies, i);
    let reply = replies[i];
    assert(steps[i].expects(reply) && unpack_follows(steps[i], reply, steps[i + 1]));
}

/// An entry that is named by names alone, however many, is placed below a
/// destination, whatever that is.
pub proof fn law_entries_of_names_are_placed<E>(
    dest: PathParts,
    steps: Seq<UnpackStep<E>>,
    replies: Seq<UnpackReply<E>>,
    i: int,
    entry: ArchiveEntry,
)
    requires
        is_unpack_run(dest, steps, replies),
        0 <= i < replies.len(),
        replies[i] == UnpackReply::<E>::Entry(Some(Ok(entry))),
        entry.path@.len() > 0,
        forall|k: int| 0 <= k < entry.path@.len() ==> #[trigger] entry.path@[k] is Name,
    ensures
        steps[i + 1] matches UnpackStep::CreateParent { parent, target, .. } && target@ == dest@
            + entry.path@ && parent@ == dest@ + entry.path@.drop_last(),
{
    let (base, rest) = (dest@, entry.path@);
    assert(rest[0] is Name && rest[rest.len() - 1] is Name);
    path::law_joining(base, rest);
    path::law_names_lead_into_a_directory(base, rest);
    if base.len() == 0 {
        assert(base + rest =~= rest);
        assert(base =~= Seq::empty());
    }
    path::law_beginnings(base, rest, rest);
    law_entry_is_placed(dest, steps, replies, i, entry);
    assert((base + rest).drop_last() =~= base + rest.drop_last());
}

/// Unpacking goes on as long as nothing fails: from opening the archive to its
/// entries, from each directory to the entry it is for, from each entry to the
/// next; and it ends with success where there are no more.
pub proof fn law_unpacking_goes_on<E>(
    dest: PathParts,
    steps: Seq<UnpackStep<E>>,
    replies: Seq<UnpackReply<E>>,
    i: int,
)
    requires
        is_unpack_run(dest, steps, replies),
        0 <= i < replies.len(),
    ensures
        replies[i] matches UnpackReply::Finished(Ok(_)) ==> match steps[i] {
            UnpackStep::OpenArchive { .. } => steps[i + 1] is CreateDecoder,
            UnpackStep::CreateDecoder { .. } => steps[i + 1] is ListEntries,
            UnpackStep::ListEntries { .. } => steps[i + 1] is NextEntry,
            UnpackStep::CreateParent { target, .. } => (
            steps[i + 1] matches UnpackStep::UnpackEntry { target: place, .. } && place == target),
            UnpackStep::UnpackEntry { .. } => steps[i + 1] is NextEntry,
            _ => false,
        },
        replies[i] == UnpackReply::<E>::Entry(None) ==> steps[i + 1] == UnpackStep::<E>::Done(
            Ok(()),
        ),
        replies[i] matches UnpackReply::Finished(Err(error)) ==> steps[i + 1]
            == UnpackStep::<E>::Done(Err(UnpackError::Io(error))),
        replies[i] matches UnpackReply::Entry(Some(Err(error))) ==> steps[i + 1]
            == UnpackStep::<E>::Done(Err(UnpackError::Io(error))),
{
    let reply = replies[i];
    assert(steps[i].expects(reply) && unpack_follows(steps[i], reply, steps[i + 1]));
}

/// Unpacking fails only where something failed, with that failure, or where an
/// entry has no place in the destination.
pub proof fn law_unpacking_fails_only_by_a_failure<E>(
    dest: PathParts,
    steps: Seq<UnpackStep<E>>,
    replies: Seq<UnpackReply<E>>,
    error: UnpackError<E>,
)
    requires
        is_unpack_run(dest, steps, replies),
        steps.last() == UnpackStep::<E>::Done(Err(error)),
    ensures
        replies.len() > 0,
        match replies.last() {
            UnpackReply::Finished(Err(cause)) => error == UnpackError::Io(cause),
            UnpackReply::Entry(Some(Err(cause))) => error == UnpackError::Io(cause),
            UnpackReply::Entry(Some(Ok(entry))) => {
                let place = path::joined(dest@, entry.path@);
                &&& error is IllegalPath
                &&& !path::begins_with(place, dest@) || !path::lies_in(place, dest@)
            },
            _ => false,
        },
{
    let n = replies.len() - 1;
    let reply = replies[n];
    law_unpacking_goes_on(dest, steps, replies, n);
    if let UnpackReply::Entry(Some(Ok(entry))) = reply {
        law_entry_is_placed(dest, steps, replies, n, entry);
    }
    assert(steps[n].expects(reply));
}

/// Unpacking starts with the archive and the destination that were asked for,
/// and every step is followed by one that its reply calls for.
pub proof fn law_unpacking_starts_and_follows<E>(
    archive_path: PathParts,
    dest_path: PathParts,
    first: UnpackStep<E>,
    step: UnpackStep<E>,
    reply: UnpackReply<E>,
    next: UnpackStep<E>,
)
    requires
        call_ensures(unpack_libreoffice::<E>, (archive_path, dest_path), first),
        call_ensures(UnpackStep::<E>::resume, (step, reply), next),
    ensures
        first == (UnpackStep::<E>::OpenArchive { archive_path, dest: dest_path }),
        unpack_follows(step, reply, next),
{
}

} // verus!
