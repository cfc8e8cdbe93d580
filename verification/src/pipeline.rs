//! The run of one operation as a state machine. A `Step` says what is to be
//! done next outside the library: run the engine, read or write a file,
//! print. The caller does it and hands back a `Reply`; `advance` decides
//! what follows.

use crate::descriptor::{DescriptorView, Direction, Mode, OperationDescriptor};
use crate::engine::{
    capture, captured, presence_arguments, presence_call, reports_supported_version, supported,
    transform_arguments, transform_call, version_arguments, version_call,
};
use crate::failure::{Failure, FailureView, FAILURE_STATUS, SUCCESS_STATUS};
use crate::naming::{
    destination, destination_path, has_marker, is_marked, lemma_destination_round_trip,
};
use crate::text::{join, lossy_text, trimmed};
use vstd::prelude::*;

verus! {

/// What a run is waiting for, or how it ended.
#[derive(Debug, PartialEq, Eq)]
pub enum Step {
    /// Print the program's version.
    ShowVersion,
    /// Print the usage text.
    ShowHelp,
    /// Run the engine's presence probe. The engine is present if it could
    /// be executed at all, whatever it printed: `Done` or `Output`.
    ProbeEngine,
    /// Run the engine's version query and hand back its standard output.
    QueryVersion,
    /// Read all of the file at `path` as text and hand back its `Content`.
    ReadSource { path: String },
    /// Run the engine on `content` and hand back its standard output.
    Transform { direction: Direction, content: String },
    /// Write `text` to standard output as it is.
    Print { text: String },
    /// Find out whether `path` `Exists` as a file; `content` is to go there.
    ProbeDestination { path: String, content: String },
    /// Create or truncate the file at `path` and write `content` to it;
    /// `Done` when all of it is written.
    Write { path: String, content: String },
    /// The run is complete; `destination` is the file that was written.
    Finished { destination: Option<String> },
    /// The run ended in a fatal condition.
    Failed(Failure),
}

/// What came of carrying out a step.
#[derive(Debug, PartialEq, Eq)]
pub enum Reply {
    /// The step could not be carried out.
    Failed,
    /// The step was carried out and there is nothing to hand back.
    Done,
    /// The engine ran; this is its standard output.
    Output(Vec<u8>),
    /// The file was read; this is its text.
    Content(String),
    /// Whether the destination exists as a file.
    Exists(bool),
}

/// A `Step` with its texts as character sequences.
pub enum StepView {
    ShowVersion,
    ShowHelp,
    ProbeEngine,
    QueryVersion,
    ReadSource { path: Seq<char> },
    Transform { direction: Direction, content: Seq<char> },
    Print { text: Seq<char> },
    ProbeDestination { path: Seq<char>, content: Seq<char> },
    Write { path: Seq<char>, content: Seq<char> },
    Finished { destination: Option<Seq<char>> },
    Failed(FailureView),
}

/// A `Reply` with its payload as a sequence.
pub enum ReplyView {
    Failed,
    Done,
    Output(Seq<u8>),
    Content(Seq<char>),
    Exists(bool),
}

impl View for Step {
    type V = StepView;

    open spec fn view(&self) -> StepView {
        match self {
            Step::ShowVersion => StepView::ShowVersion,
            Step::ShowHelp => StepView::ShowHelp,
            Step::ProbeEngine => StepView::ProbeEngine,
            Step::QueryVersion => StepView::QueryVersion,
            Step::ReadSource { path } => StepView::ReadSource { path: path@ },
            Step::Transform { direction, content } => StepView::Transform {
                direction: *direction,
                content: content@,
            },
            Step::Print { text } => StepView::Print { text: text@ },
            Step::ProbeDestination { path, content } => StepView::ProbeDestination {
                path: path@,
                content: content@,
            },
            Step::Write { path, content } => StepView::Write { path: path@, content: content@ },
            Step::Finished { destination } => StepView::Finished {
                destination: match destination {
                    Some(path) => Some(path@),
                    None => None,
                },
            },
            Step::Failed(failure) => StepView::Failed(failure@),
        }
    }
}

impl View for Reply {
    type V = ReplyView;

    open spec fn view(&self) -> ReplyView {
        match self {
            Reply::Failed => ReplyView::Failed,
            Reply::Done => ReplyView::Done,
            Reply::Output(stdout) => ReplyView::Output(stdout@),
            Reply::Content(text) => ReplyView::Content(text@),
            Reply::Exists(exists) => ReplyView::Exists(*exists),
        }
    }
}

impl StepView {
    /// The run has ended, one way or the other.
    pub open spec fn is_final(self) -> bool {
        self is Finished || self is Failed
    }

    /// Carrying out this step touches the destination file.
    pub open spec fn touches_destination(self) -> bool {
        self is ProbeDestination || self is Write
    }

    /// The exit status that the run ends with, once it has ended.
    pub open spec fn exit_status(self) -> Option<u8> {
        match self {
            StepView::Finished { .. } => Some(SUCCESS_STATUS),
            StepView::Failed(_) => Some(FAILURE_STATUS),
            _ => None,
        }
    }

    /// How many steps at most are still to be carried out, this one
    /// included.
    pub open spec fn remaining(self) -> nat {
        match self {
            StepView::ProbeEngine => 6,
            StepView::QueryVersion => 5,
            StepView::ReadSource { .. } => 4,
            StepView::Transform { .. } => 3,
            StepView::ProbeDestination { .. } => 2,
            StepView::Write { .. } => 1,
            StepView::ShowVersion | StepView::ShowHelp | StepView::Print { .. } => 1,
            StepView::Finished { .. } | StepView::Failed(_) => 0,
        }
    }

    /// The arguments with which the engine is run in this step, if the step
    /// runs the engine.
    pub open spec fn engine_call(self) -> Option<Seq<Seq<char>>> {
        match self {
            StepView::ProbeEngine => Some(presence_call()),
            StepView::QueryVersion => Some(version_call()),
            StepView::Transform { direction, content } => Some(transform_call(direction, content)),
            _ => None,
        }
    }
}

/// The line that delivers `content` on standard output.
pub open spec fn printed(content: Seq<char>) -> Seq<char> {
    content + seq!['\n']
}

/// The transform that the descriptor asks for: its direction and its source.
pub open spec fn job(descriptor: DescriptorView) -> Option<(Direction, Seq<char>)> {
    match (descriptor.mode.direction(), descriptor.source_path) {
        (Some(direction), Some(source)) => Some((direction, source)),
        _ => None,
    }
}

/// The first step of a run. Showing the version or the usage text needs no
/// engine, and doing nothing is done at once; a transform begins with the
/// preflight.
pub open spec fn first_step(descriptor: DescriptorView) -> StepView {
    match descriptor.mode {
        Mode::ShowVersion => StepView::ShowVersion,
        Mode::ShowHelp => StepView::ShowHelp,
        Mode::Noop => StepView::Finished { destination: None },
        _ => if job(descriptor) is Some {
            StepView::ProbeEngine
        } else {
            StepView::Failed(FailureView::MissingPath)
        },
    }
}

/// The step after a passed preflight: an inverse transform is refused for a
/// source without the marker suffix, before the source is read.
pub open spec fn after_preflight(descriptor: DescriptorView) -> StepView {
    match job(descriptor) {
        Some((direction, source)) => if direction == Direction::Inverse && !has_marker(source) {
            StepView::Failed(FailureView::NotMarkerFile { path: source })
        } else {
            StepView::ReadSource { path: source }
        },
        None => StepView::Failed(FailureView::MissingPath),
    }
}

/// The step after the engine has produced `content`: print it, or look at
/// the destination before writing there.
pub open spec fn deliver(descriptor: DescriptorView, direction: Direction, content: Seq<char>)
    -> StepView {
    match job(descriptor) {
        Some((_, source)) => if descriptor.write_to_file {
            StepView::ProbeDestination { path: destination(direction, source), content }
        } else {
            StepView::Print { text: printed(content) }
        },
        None => StepView::Failed(FailureView::MissingPath),
    }
}

/// The step that follows `step` once `reply` has come back.
///
/// A reply that does not answer the step counts as the step's failure.
/// Showing and printing have no failure of their own: whatever comes back,
/// the run is complete. A step of a transform under a descriptor that asks
/// for none fails for want of a source file. A run that has ended stays as
/// it is.
pub open spec fn next_step(descriptor: DescriptorView, step: StepView, reply: ReplyView)
    -> StepView {
    match step {
        StepView::ShowVersion | StepView::ShowHelp | StepView::Print { .. } => StepView::Finished {
            destination: None,
        },
        StepView::ProbeEngine => match reply {
            ReplyView::Done | ReplyView::Output(_) => StepView::QueryVersion,
            _ => StepView::Failed(FailureView::EngineMissing),
        },
        StepView::QueryVersion => match reply {
            ReplyView::Output(stdout) => if supported(lossy_text(stdout)) {
                after_preflight(descriptor)
            } else {
                StepView::Failed(FailureView::EngineOutdated)
            },
            _ => StepView::Failed(FailureView::EngineOutdated),
        },
        StepView::ReadSource { path } => match reply {
            ReplyView::Content(content) => match job(descriptor) {
                Some((direction, _)) => StepView::Transform { direction, content },
                None => StepView::Failed(FailureView::MissingPath),
            },
            _ => StepView::Failed(FailureView::SourceUnreadable { path }),
        },
        StepView::Transform { direction, content } => match reply {
            ReplyView::Output(stdout) => deliver(descriptor, direction, captured(stdout)),
            _ => StepView::Failed(FailureView::TransformFailed),
        },
        StepView::ProbeDestination { path, content } => match reply {
            ReplyView::Exists(exists) => if exists && !descriptor.overwrite_allowed {
                StepView::Failed(FailureView::DestinationExists { path })
            } else {
                StepView::Write { path, content }
            },
            _ => StepView::Failed(FailureView::WriteFailed { path }),
        },
        StepView::Write { path, content } => match reply {
            ReplyView::Done => StepView::Finished { destination: Some(path) },
            _ => StepView::Failed(FailureView::WriteFailed { path }),
        },
        StepView::Finished { .. } | StepView::Failed(_) => step,
    }
}

/// The step that a run has reached after `replies`, one for each step
/// carried out, in order.
pub open spec fn run(descriptor: DescriptorView, replies: Seq<ReplyView>) -> StepView
    decreases replies.len(),
{
    if replies.len() == 0 {
        first_step(descriptor)
    } else {
        next_step(descriptor, run(descriptor, replies.drop_last()), replies.last())
    }
}

/// Begins the run of `descriptor`'s operation. No run fails at its start:
/// a descriptor that asks for a transform names the source.
pub fn start(descriptor: &OperationDescriptor) -> (step: Step)
    ensures
        step@ == first_step(descriptor@),
        !(step@ is Failed),
{
    match descriptor.mode() {
        Mode::ShowVersion => Step::ShowVersion,
        Mode::ShowHelp => Step::ShowHelp,
        Mode::Noop => Step::Finished { destination: None },
        _ => match wanted(descriptor) {
            Some(_) => Step::ProbeEngine,
            None => Step::Failed(Failure::MissingPath),
        },
    }
}

/// The transform that the descriptor asks for.
fn wanted(descriptor: &OperationDescriptor) -> (r: Option<(Direction, &str)>)
    ensures
        match r {
            Some((direction, source)) => job(descriptor@) == Some((direction, source@)),
            None => job(descriptor@) is None,
        },
        descriptor@.wf(),
{
    match (descriptor.mode().direction(), descriptor.source_path()) {
        (Some(direction), Some(source)) => Some((direction, source)),
        _ => None,
    }
}

/// The step after a passed preflight.
fn begin_transform(descriptor: &OperationDescriptor) -> (step: Step)
    ensures
        step@ == after_preflight(descriptor@),
{
    match wanted(descriptor) {
        Some((direction, source)) => {
            if direction == Direction::Inverse && !is_marked(source) {
                Step::Failed(Failure::NotMarkerFile { path: source.to_string() })
            } else {
                Step::ReadSource { path: source.to_string() }
            }
        },
        None => Step::Failed(Failure::MissingPath),
    }
}

/// The step after the engine has produced `content`.
fn hand_over(descriptor: &OperationDescriptor, direction: Direction, content: String) -> (step:
    Step)
    ensures
        step@ == deliver(descriptor@, direction, content@),
{
    match wanted(descriptor) {
        Some((_, source)) => if descriptor.write_to_file() {
            Step::ProbeDestination { path: destination_path(direction, source), content }
        } else {
            proof {
                reveal_strlit("\n");
                assert("\n"@ =~= seq!['\n']);
            }
            Step::Print { text: join(content.as_str(), "\n") }
        },
        None => Step::Failed(Failure::MissingPath),
    }
}

/// Decides what follows `step` now that `reply` has come back from carrying
/// it out.
pub fn advance(descriptor: &OperationDescriptor, step: Step, reply: Reply) -> (next: Step)
    ensures
        next@ == next_step(descriptor@, step@, reply@),
{
    match step {
        Step::ShowVersion | Step::ShowHelp | Step::Print { .. } => Step::Finished {
            destination: None,
        },
        Step::ProbeEngine => match reply {
            Reply::Done | Reply::Output(_) => Step::QueryVersion,
            _ => Step::Failed(Failure::EngineMissing),
        },
        Step::QueryVersion => match reply {
            Reply::Output(stdout) => if reports_supported_version(stdout.as_slice()) {
                begin_transform(descriptor)
            } else {
                Step::Failed(Failure::EngineOutdated)
            },
            _ => Step::Failed(Failure::EngineOutdated),
        },
        Step::ReadSource { path } => match reply {
            Reply::Content(content) => match wanted(descriptor) {
                Some((direction, _)) => Step::Transform { direction, content },
                None => Step::Failed(Failure::MissingPath),
            },
            _ => Step::Failed(Failure::SourceUnreadable { path }),
        },
        Step::Transform { direction, content } => match reply {
            Reply::Output(stdout) => hand_over(descriptor, direction, capture(stdout.as_slice())),
            _ => Step::Failed(Failure::TransformFailed),
        },
        Step::ProbeDestination { path, content } => match reply {
            Reply::Exists(exists) => if exists && !descriptor.overwrite_allowed() {
                Step::Failed(Failure::DestinationExists { path })
            } else {
                Step::Write { path, content }
            },
            _ => Step::Failed(Failure::WriteFailed { path }),
        },
        Step::Write { path, content } => match reply {
            Reply::Done => Step::Finished { destination: Some(path) },
            _ => Step::Failed(Failure::WriteFailed { path }),
        },
        Step::Finished { destination } => Step::Finished { destination },
        Step::Failed(failure) => Step::Failed(failure),
    }
}

impl Step {
    /// The arguments with which the engine is to be run in this step, if the
    /// step runs the engine.
    pub fn engine_arguments(&self) -> (arguments: Option<Vec<String>>)
        ensures
            arguments.deep_view() == self@.engine_call(),
    {
        match self {
            Step::ProbeEngine => Some(presence_arguments()),
            Step::QueryVersion => Some(version_arguments()),
            Step::Transform { direction, content } => Some(
                transform_arguments(*direction, content.as_str()),
            ),
            _ => None,
        }
    }

    /// The exit status that the run ends with, once it has ended.
    pub fn exit_status(&self) -> (status: Option<u8>)
        ensures
            status == self@.exit_status(),
    {
        match self {
            Step::Finished { .. } => Some(SUCCESS_STATUS),
            Step::Failed(_) => Some(FAILURE_STATUS),
            _ => None,
        }
    }
}

/// Every step carried out brings the run nearer to its end: nothing is
/// tried again and no step comes twice.
pub proof fn lemma_step_progresses(descriptor: DescriptorView, step: StepView, reply: ReplyView)
    requires
        !step.is_final(),
    ensures
        next_step(descriptor, step, reply).remaining() < step.remaining(),
{
}

/// A run has ended after six replies at the latest: the two of the
/// preflight, the read, the transform, the look at the destination and the
/// write.
pub proof fn lemma_run_ends(descriptor: DescriptorView, replies: Seq<ReplyView>)
    ensures
        run(descriptor, replies).remaining() + replies.len() <= 6 || run(
            descriptor,
            replies,
        ).is_final(),
        replies.len() >= 6 ==> run(descriptor, replies).is_final(),
    decreases replies.len(),
{
    if replies.len() > 0 {
        lemma_run_ends(descriptor, replies.drop_last());
        let before = run(descriptor, replies.drop_last());
        if !before.is_final() {
            lemma_step_progresses(descriptor, before, replies.last());
        }
    }
}

/// A run that has ended stays as it ended, whatever is handed back.
pub proof fn lemma_ended_run_stays(
    descriptor: DescriptorView,
    replies: Seq<ReplyView>,
    later: Seq<ReplyView>,
)
    requires
        run(descriptor, replies).is_final(),
    ensures
        run(descriptor, replies + later) == run(descriptor, replies),
    decreases later.len(),
{
    if later.len() == 0 {
        assert(replies + later =~= replies);
    } else {
        let all = replies + later;
        assert(all.drop_last() =~= replies + later.drop_last());
        assert(all.last() == later.last());
        lemma_ended_run_stays(descriptor, replies, later.drop_last());
    }
}

impl StepView {
    /// The step reads and writes only where the descriptor says: it reads
    /// the source, transforms in the mode's direction, and its destination
    /// is the one derived from the source.
    pub open spec fn fits(self, descriptor: DescriptorView) -> bool {
        match self {
            StepView::ReadSource { path } => job(descriptor) matches Some((_, source)) && path
                == source,
            StepView::Transform { direction, .. } => job(descriptor) matches Some((wanted, _))
                && direction == wanted,
            StepView::ProbeDestination { path, .. } | StepView::Write { path, .. } => job(
                descriptor,
            ) matches Some((direction, source)) && path == destination(direction, source),
            StepView::Finished { destination: Some(path) } => job(descriptor) matches Some(
                (direction, source),
            ) && path == destination(direction, source),
            _ => true,
        }
    }
}

/// Whatever is handed back, a run reads no file but the descriptor's source
/// and touches no file but the destination derived from it.
pub proof fn lemma_run_fits(descriptor: DescriptorView, replies: Seq<ReplyView>)
    ensures
        run(descriptor, replies).fits(descriptor),
    decreases replies.len(),
{
    if replies.len() > 0 {
        lemma_run_fits(descriptor, replies.drop_last());
    }
}

/// A file is written only after its destination was looked at, and only if
/// nothing is there or overwriting is allowed: the one step that leads to a
/// write is the probe of the same path, answered accordingly.
pub proof fn lemma_write_is_guarded(descriptor: DescriptorView, step: StepView, reply: ReplyView)
    requires
        next_step(descriptor, step, reply) is Write,
    ensures
        step is ProbeDestination,
        next_step(descriptor, step, reply)->Write_path == step->ProbeDestination_path,
        next_step(descriptor, step, reply)->Write_content == step->ProbeDestination_content,
        reply == ReplyView::Exists(false) || (reply == ReplyView::Exists(true)
            && descriptor.overwrite_allowed),
{
}

/// The destination-collision guard: when the destination exists and
/// overwriting is not allowed, the run fails with the failure status, and
/// nothing that is handed back afterwards makes it write.
pub proof fn lemma_collision_guard(
    descriptor: DescriptorView,
    replies: Seq<ReplyView>,
    later: Seq<ReplyView>,
)
    requires
        !descriptor.overwrite_allowed,
        run(descriptor, replies) is ProbeDestination,
    ensures
        ({
            let collided = replies.push(ReplyView::Exists(true));
            &&& run(descriptor, collided) == StepView::Failed(
                FailureView::DestinationExists {
                    path: run(descriptor, replies)->ProbeDestination_path,
                },
            )
            &&& run(descriptor, collided).exit_status() == Some(FAILURE_STATUS)
            &&& run(descriptor, collided + later) == run(descriptor, collided)
        }),
{
    let collided = replies.push(ReplyView::Exists(true));
    assert(collided.drop_last() =~= replies);
    assert(collided.last() == ReplyView::Exists(true));
    lemma_ended_run_stays(descriptor, collided, later);
}

/// With the result going to standard output, no step of the run touches a
/// destination file: none is looked at and none is written.
pub proof fn lemma_print_touches_no_file(descriptor: DescriptorView, replies: Seq<ReplyView>)
    requires
        !descriptor.write_to_file,
    ensures
        !run(descriptor, replies).touches_destination(),
    decreases replies.len(),
{
    if replies.len() > 0 {
        lemma_print_touches_no_file(descriptor, replies.drop_last());
    }
}

/// With the result going to standard output, what the engine produced is
/// printed as one line: the transformed content and a newline.
pub proof fn lemma_print_delivers_line(
    descriptor: DescriptorView,
    replies: Seq<ReplyView>,
    stdout: Seq<u8>,
)
    requires
        !descriptor.write_to_file,
        run(descriptor, replies) is Transform,
    ensures
        run(descriptor, replies.push(ReplyView::Output(stdout))) == (StepView::Print {
            text: captured(stdout) + seq!['\n'],
        }),
{
    let answered = replies.push(ReplyView::Output(stdout));
    assert(answered.drop_last() =~= replies);
    assert(answered.last() == ReplyView::Output(stdout));
    lemma_run_fits(descriptor, replies);
}

/// An inverse transform of a file without the marker suffix never gets as
/// far as reading the file: the run is in the preflight or has failed, and
/// when it has ended it has ended with the failure status.
pub proof fn lemma_unmarked_source_never_read(descriptor: DescriptorView, replies: Seq<ReplyView>)
    requires
        descriptor.mode == Mode::Decrypt,
        descriptor.source_path matches Some(source) && !has_marker(source),
    ensures
        ({
            let step = run(descriptor, replies);
            &&& step is ProbeEngine || step is QueryVersion || step is Failed
            &&& step.is_final() ==> step.exit_status() == Some(FAILURE_STATUS)
        }),
    decreases replies.len(),
{
    if replies.len() > 0 {
        lemma_unmarked_source_never_read(descriptor, replies.drop_last());
    }
}

/// What is handed back in a run in which everything works and the
/// destination is free: the engine is there and answers `version`, the
/// source holds `content`, and the engine's output for it is `stdout`.
pub open spec fn smooth_replies(version: Seq<u8>, content: Seq<char>, stdout: Seq<u8>) -> Seq<
    ReplyView,
> {
    seq![
        ReplyView::Done,
        ReplyView::Output(version),
        ReplyView::Content(content),
        ReplyView::Output(stdout),
        ReplyView::Exists(false),
    ]
}

/// A transform in which everything works comes to write what the engine
/// made of the source's content to the destination derived from the
/// source, and ends there with success.
pub proof fn lemma_smooth_run(
    descriptor: DescriptorView,
    version: Seq<u8>,
    content: Seq<char>,
    stdout: Seq<u8>,
)
    requires
        descriptor.write_to_file,
        supported(lossy_text(version)),
        job(descriptor) matches Some((direction, source)) && (direction == Direction::Inverse
            ==> has_marker(source)),
    ensures
        ({
            let replies = smooth_replies(version, content, stdout);
            let (direction, source) = job(descriptor)->0;
            let written = destination(direction, source);
            &&& run(descriptor, replies.take(2)) == (StepView::ReadSource { path: source })
            &&& run(descriptor, replies.take(3)) == (StepView::Transform { direction, content })
            &&& run(descriptor, replies) == (StepView::Write {
                path: written,
                content: captured(stdout),
            })
            &&& run(descriptor, replies.push(ReplyView::Done)) == (StepView::Finished {
                destination: Some(written),
            })
        }),
{
    let replies = smooth_replies(version, content, stdout);
    let done = replies.push(ReplyView::Done);
    assert(done.drop_last() =~= replies);
    assert(replies.drop_last() =~= replies.take(4));
    assert(replies.take(4).drop_last() =~= replies.take(3));
    assert(replies.take(3).drop_last() =~= replies.take(2));
    assert(replies.take(2).drop_last() =~= replies.take(1));
    assert(replies.take(1).drop_last() =~= replies.take(0));
    assert(run(descriptor, replies.take(0)) == StepView::ProbeEngine);
    assert(run(descriptor, replies.take(1)) == StepView::QueryVersion);
    assert(run(descriptor, replies.take(2)) is ReadSource);
    assert(run(descriptor, replies.take(3)) is Transform);
    assert(run(descriptor, replies.take(4)) is ProbeDestination);
}

/// Forward and back again. Let the forward transform of the file at
/// `source` go through and store what the engine made of `content`, and let
/// the inverse transform then work on the file that was stored. If the
/// engine's inverse undoes its forward transform up to whitespace at the
/// ends, the inverse transform writes `content`, without the whitespace at
/// its ends, to `source`.
pub proof fn lemma_round_trip(
    source: Seq<char>,
    content: Seq<char>,
    version: Seq<u8>,
    forward: spec_fn(Seq<char>) -> Seq<u8>,
    inverse: spec_fn(Seq<char>) -> Seq<u8>,
    encrypt: DescriptorView,
    decrypt: DescriptorView,
)
    requires
        forall|text: Seq<char>|
            #![trigger forward(text)]
            captured(inverse(captured(forward(text)))) == trimmed(text),
        supported(lossy_text(version)),
        encrypt.mode == Mode::Encrypt,
        encrypt.source_path == Some(source),
        encrypt.write_to_file,
        decrypt.mode == Mode::Decrypt,
        decrypt.source_path == Some(destination(Direction::Forward, source)),
        decrypt.write_to_file,
    ensures
        ({
            let stored_at = destination(Direction::Forward, source);
            let stored = captured(forward(content));
            &&& run(encrypt, smooth_replies(version, content, forward(content)))
                == (StepView::Write { path: stored_at, content: stored })
            &&& run(decrypt, smooth_replies(version, stored, inverse(stored)))
                == (StepView::Write { path: source, content: trimmed(content) })
        }),
{
    let stored = captured(forward(content));
    lemma_destination_round_trip(source);
    lemma_smooth_run(encrypt, version, content, forward(content));
    lemma_smooth_run(decrypt, version, stored, inverse(stored));
}

} // verus!
