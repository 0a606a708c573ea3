//! One compilation, as a state machine.
//!
//! The machine does no work outside the program itself. It tells its caller
//! what to do next with a [`Request`], the caller does it and hands back a
//! [`Reply`], and so on until the request is [`Request::Finish`]. The order
//! is fixed: read the source, parse it, empty and recreate the output
//! directory, copy the media files, write the document. The first failure
//! ends the compilation.

use crate::assets::{
    consolidate_assets, consolidated, copies_for, first_unnamed, lemma_first_unnamed, AssetCopy,
    AssetCopyView,
};
use crate::document::{document, render_slides};
use crate::slide::{Slide, SlideView};
use vstd::prelude::*;
use vstd::string::*;

verus! {

/// The directory that holds everything a compilation writes.
pub const OUTPUT_DIR: &'static str = "slides";

/// The directory that holds the copies of the media files.
pub const ASSET_DIR: &'static str = "slides/assets";

/// The file that holds the document.
pub const INDEX_FILE: &'static str = "slides/index.html";

/// The part of a compilation in which something went wrong.
#[derive(Clone, Copy, Debug, PartialEq, Eq, Structural)]
pub enum Stage {
    Read,
    Parse,
    Prepare,
    Consolidate,
    Write,
}

/// Why a compilation ended early.
#[derive(Clone, Debug, PartialEq, Eq)]
pub struct Failure {
    pub stage: Stage,
    pub cause: String,
}

/// How a compilation ended.
#[derive(Clone, Debug, PartialEq, Eq)]
pub enum Outcome {
    Success,
    Failure(Failure),
}

/// What to compile: the path of the source, and the style sheet and script
/// that go into the document as they are.
#[derive(Clone, Debug, PartialEq, Eq)]
pub struct Job {
    pub source: String,
    pub style: String,
    pub script: String,
}

/// What the caller is to do next.
#[derive(Clone, Debug, PartialEq, Eq)]
pub enum Request {
    /// Read the file at `path` as text; answer with `Reply::Text`.
    ReadSource { path: String },
    /// Parse `text` as a deck; answer with `Reply::Deck`.
    ParseDeck { text: String },
    /// Say whether anything exists at `path`; answer with `Reply::Exists`.
    ProbeOutput { path: String },
    /// Remove the directory at `path` and all it holds; answer with
    /// `Reply::Done`.
    RemoveTree { path: String },
    /// Create the directory at `path`; answer with `Reply::Done`.
    CreateDir { path: String },
    /// Copy the file at `source` to `target`; answer with `Reply::Done`.
    CopyFile { source: String, target: String },
    /// Write `content` to the file at `path`; answer with `Reply::Done`.
    WriteFile { path: String, content: String },
    /// Report the outcome. The compilation is over.
    Finish(Outcome),
    /// Nothing: the compilation was over already.
    Nothing,
}

/// What came of the last request. Any request may be answered with
/// `Failed`.
#[derive(Clone, Debug, PartialEq, Eq)]
pub enum Reply {
    Text(String),
    Deck(Vec<Slide>),
    Exists(bool),
    Done,
    Failed(String),
}

/// How far a compilation has come: the request that is being worked on, and
/// what is needed for those that follow.
#[derive(Clone, Debug, PartialEq, Eq)]
pub enum Phase {
    Reading,
    Parsing,
    Probing { deck: Vec<Slide> },
    Removing { deck: Vec<Slide> },
    CreatingRoot { deck: Vec<Slide> },
    CreatingAssets { deck: Vec<Slide> },
    /// The deck is consolidated, and the first `requested` of `copies` have
    /// been asked for.
    Copying { deck: Vec<Slide>, copies: Vec<AssetCopy>, requested: usize },
    Writing,
    Finished,
}

pub ghost struct FailureView {
    pub stage: Stage,
    pub cause: Seq<char>,
}

pub ghost enum OutcomeView {
    Success,
    Failure(FailureView),
}

pub ghost struct JobView {
    pub source: Seq<char>,
    pub style: Seq<char>,
    pub script: Seq<char>,
}

pub ghost enum RequestView {
    ReadSource { path: Seq<char> },
    ParseDeck { text: Seq<char> },
    ProbeOutput { path: Seq<char> },
    RemoveTree { path: Seq<char> },
    CreateDir { path: Seq<char> },
    CopyFile { source: Seq<char>, target: Seq<char> },
    WriteFile { path: Seq<char>, content: Seq<char> },
    Finish(OutcomeView),
    Nothing,
}

pub ghost enum ReplyView {
    Text(Seq<char>),
    Deck(Seq<SlideView>),
    Exists(bool),
    Done,
    Failed(Seq<char>),
}

pub ghost enum PhaseView {
    Reading,
    Parsing,
    Probing { deck: Seq<SlideView> },
    Removing { deck: Seq<SlideView> },
    CreatingRoot { deck: Seq<SlideView> },
    CreatingAssets { deck: Seq<SlideView> },
    Copying { deck: Seq<SlideView>, copies: Seq<AssetCopyView>, requested: int },
    Writing,
    Finished,
}

impl View for Failure {
    type V = FailureView;

    open spec fn view(&self) -> FailureView {
        FailureView { stage: self.stage, cause: self.cause@ }
    }
}

impl View for Outcome {
    type V = OutcomeView;

    open spec fn view(&self) -> OutcomeView {
        match self {
            Outcome::Success => OutcomeView::Success,
            Outcome::Failure(failure) => OutcomeView::Failure(failure@),
        }
    }
}

impl View for Job {
    type V = JobView;

    open spec fn view(&self) -> JobView {
        JobView { source: self.source@, style: self.style@, script: self.script@ }
    }
}

impl View for Request {
    type V = RequestView;

    open spec fn view(&self) -> RequestView {
        match self {
            Request::ReadSource { path } => RequestView::ReadSource { path: path@ },
            Request::ParseDeck { text } => RequestView::ParseDeck { text: text@ },
            Request::ProbeOutput { path } => RequestView::ProbeOutput { path: path@ },
            Request::RemoveTree { path } => RequestView::RemoveTree { path: path@ },
            Request::CreateDir { path } => RequestView::CreateDir { path: path@ },
            Request::CopyFile { source, target } => RequestView::CopyFile {
                source: source@,
                target: target@,
            },
            Request::WriteFile { path, content } => RequestView::WriteFile {
                path: path@,
                content: content@,
            },
            Request::Finish(outcome) => RequestView::Finish(outcome@),
            Request::Nothing => RequestView::Nothing,
        }
    }
}

impl View for Reply {
    type V = ReplyView;

    open spec fn view(&self) -> ReplyView {
        match self {
            Reply::Text(text) => ReplyView::Text(text@),
            Reply::Deck(deck) => ReplyView::Deck(deck.deep_view()),
            Reply::Exists(exists) => ReplyView::Exists(*exists),
            Reply::Done => ReplyView::Done,
            Reply::Failed(cause) => ReplyView::Failed(cause@),
        }
    }
}

impl View for Phase {
    type V = PhaseView;

    open spec fn view(&self) -> PhaseView {
        match self {
            Phase::Reading => PhaseView::Reading,
            Phase::Parsing => PhaseView::Parsing,
            Phase::Probing { deck } => PhaseView::Probing { deck: deck.deep_view() },
            Phase::Removing { deck } => PhaseView::Removing { deck: deck.deep_view() },
            Phase::CreatingRoot { deck } => PhaseView::CreatingRoot { deck: deck.deep_view() },
            Phase::CreatingAssets { deck } => PhaseView::CreatingAssets { deck: deck.deep_view() },
            Phase::Copying { deck, copies, requested } => PhaseView::Copying {
                deck: deck.deep_view(),
                copies: copies.deep_view(),
                requested: *requested as int,
            },
            Phase::Writing => PhaseView::Writing,
            Phase::Finished => PhaseView::Finished,
        }
    }
}

/// The stage that a phase belongs to: where a failure in it is filed.
pub open spec fn stage_of(phase: PhaseView) -> Stage {
    match phase {
        PhaseView::Reading => Stage::Read,
        PhaseView::Parsing => Stage::Parse,
        PhaseView::Probing { .. } => Stage::Prepare,
        PhaseView::Removing { .. } => Stage::Prepare,
        PhaseView::CreatingRoot { .. } => Stage::Prepare,
        PhaseView::CreatingAssets { .. } => Stage::Prepare,
        PhaseView::Copying { .. } => Stage::Consolidate,
        PhaseView::Writing => Stage::Write,
        PhaseView::Finished => Stage::Write,
    }
}

/// The end of a compilation that failed at `stage` because of `cause`.
pub open spec fn failed(stage: Stage, cause: Seq<char>) -> (PhaseView, RequestView) {
    (
        PhaseView::Finished,
        RequestView::Finish(OutcomeView::Failure(FailureView { stage, cause })),
    )
}

/// What follows once the first `requested` of `copies` are made: the next
/// copy, or the document where none is left.
pub open spec fn copy_or_write(
    job: JobView,
    deck: Seq<SlideView>,
    copies: Seq<AssetCopyView>,
    requested: int,
) -> (PhaseView, RequestView) {
    if 0 <= requested < copies.len() {
        (
            PhaseView::Copying { deck, copies, requested: requested + 1 },
            RequestView::CopyFile {
                source: copies[requested].source,
                target: copies[requested].target,
            },
        )
    } else {
        (
            PhaseView::Writing,
            RequestView::WriteFile {
                path: INDEX_FILE@,
                content: document(deck, job.style, job.script),
            },
        )
    }
}

/// What follows once the output directory is ready: the deck is
/// consolidated, which fails where a media path has no file name.
pub open spec fn consolidate(job: JobView, deck: Seq<SlideView>) -> (PhaseView, RequestView) {
    match first_unnamed(deck) {
        Some(i) => failed(Stage::Consolidate, "a media path has no file name: "@ + deck[i].media->0),
        None => copy_or_write(job, consolidated(deck), copies_for(deck, ASSET_DIR@), 0),
    }
}

/// The phase and the request that follow when `reply` comes in `phase`.
pub open spec fn next(job: JobView, phase: PhaseView, reply: ReplyView) -> (PhaseView, RequestView) {
    match (phase, reply) {
        (PhaseView::Finished, _) => (PhaseView::Finished, RequestView::Nothing),
        (_, ReplyView::Failed(cause)) => failed(stage_of(phase), cause),
        (PhaseView::Reading, ReplyView::Text(text)) => (
            PhaseView::Parsing,
            RequestView::ParseDeck { text },
        ),
        (PhaseView::Parsing, ReplyView::Deck(deck)) => (
            PhaseView::Probing { deck },
            RequestView::ProbeOutput { path: OUTPUT_DIR@ },
        ),
        (PhaseView::Probing { deck }, ReplyView::Exists(exists)) => if exists {
            (PhaseView::Removing { deck }, RequestView::RemoveTree { path: OUTPUT_DIR@ })
        } else {
            (PhaseView::CreatingRoot { deck }, RequestView::CreateDir { path: OUTPUT_DIR@ })
        },
        (PhaseView::Removing { deck }, ReplyView::Done) => (
            PhaseView::CreatingRoot { deck },
            RequestView::CreateDir { path: OUTPUT_DIR@ },
        ),
        (PhaseView::CreatingRoot { deck }, ReplyView::Done) => (
            PhaseView::CreatingAssets { deck },
            RequestView::CreateDir { path: ASSET_DIR@ },
        ),
        (PhaseView::CreatingAssets { deck }, ReplyView::Done) => consolidate(job, deck),
        (PhaseView::Copying { deck, copies, requested }, ReplyView::Done) => copy_or_write(
            job,
            deck,
            copies,
            requested,
        ),
        (PhaseView::Writing, ReplyView::Done) => (
            PhaseView::Finished,
            RequestView::Finish(OutcomeView::Success),
        ),
        _ => failed(stage_of(phase), "unexpected reply"@),
    }
}

impl Phase {
    /// The stage that this phase belongs to.
    pub fn stage(&self) -> (stage: Stage)
        ensures
            stage == stage_of(self@),
    {
        match self {
            Phase::Reading => Stage::Read,
            Phase::Parsing => Stage::Parse,
            Phase::Probing { .. } => Stage::Prepare,
            Phase::Removing { .. } => Stage::Prepare,
            Phase::CreatingRoot { .. } => Stage::Prepare,
            Phase::CreatingAssets { .. } => Stage::Prepare,
            Phase::Copying { .. } => Stage::Consolidate,
            Phase::Writing => Stage::Write,
            Phase::Finished => Stage::Write,
        }
    }
}

/// Ends the compilation with a failure.
fn fail(stage: Stage, cause: String) -> (step: (Phase, Request))
    ensures
        (step.0@, step.1@) == failed(stage, cause@),
{
    (Phase::Finished, Request::Finish(Outcome::Failure(Failure { stage, cause })))
}

/// Asks for the next copy, or for the document where no copy is left.
fn continue_copying(job: &Job, deck: Vec<Slide>, copies: Vec<AssetCopy>, requested: usize) -> (step:
    (Phase, Request))
    ensures
        (step.0@, step.1@) == copy_or_write(
            job@,
            deck.deep_view(),
            copies.deep_view(),
            requested as int,
        ),
{
    if requested < copies.len() {
        let source = copies[requested].source.clone();
        let target = copies[requested].target.clone();
        (
            Phase::Copying { deck, copies, requested: requested + 1 },
            Request::CopyFile { source, target },
        )
    } else {
        let content = render_slides(deck.as_slice(), job.style.as_str(), job.script.as_str());
        (Phase::Writing, Request::WriteFile { path: String::from_str(INDEX_FILE), content })
    }
}

/// Begins a compilation: the source is to be read.
pub fn start(job: &Job) -> (step: (Phase, Request))
    ensures
        step.0@ == PhaseView::Reading,
        step.1@ == (RequestView::ReadSource { path: job.source@ }),
{
    (Phase::Reading, Request::ReadSource { path: job.source.clone() })
}

/// Takes the reply to the last request and says what to do next.
pub fn advance(job: &Job, phase: Phase, reply: Reply) -> (step: (Phase, Request))
    ensures
        (step.0@, step.1@) == next(job@, phase@, reply@),
{
    match (phase, reply) {
        (Phase::Finished, _) => (Phase::Finished, Request::Nothing),
        (phase, Reply::Failed(cause)) => fail(phase.stage(), cause),
        (Phase::Reading, Reply::Text(text)) => (Phase::Parsing, Request::ParseDeck { text }),
        (Phase::Parsing, Reply::Deck(deck)) => (
            Phase::Probing { deck },
            Request::ProbeOutput { path: String::from_str(OUTPUT_DIR) },
        ),
        (Phase::Probing { deck }, Reply::Exists(exists)) => {
            if exists {
                (Phase::Removing { deck }, Request::RemoveTree { path: String::from_str(OUTPUT_DIR) })
            } else {
                (
                    Phase::CreatingRoot { deck },
                    Request::CreateDir { path: String::from_str(OUTPUT_DIR) },
                )
            }
        },
        (Phase::Removing { deck }, Reply::Done) => (
            Phase::CreatingRoot { deck },
            Request::CreateDir { path: String::from_str(OUTPUT_DIR) },
        ),
        (Phase::CreatingRoot { deck }, Reply::Done) => (
            Phase::CreatingAssets { deck },
            Request::CreateDir { path: String::from_str(ASSET_DIR) },
        ),
        (Phase::CreatingAssets { deck }, Reply::Done) => {
            let mut deck = deck;
            proof {
                lemma_first_unnamed(deck.deep_view());
            }
            match consolidate_assets(&mut deck, ASSET_DIR) {
                Ok(copies) => continue_copying(job, deck, copies, 0),
                Err(unnamed) => {
                    let mut cause = String::from_str("a media path has no file name: ");
                    if let Some(path) = &deck[unnamed.slide].media {
                        cause.append(path.as_str());
                    }
                    fail(Stage::Consolidate, cause)
                },
            }
        },
        (Phase::Copying { deck, copies, requested }, Reply::Done) => continue_copying(
            job,
            deck,
            copies,
            requested,
        ),
        (Phase::Writing, Reply::Done) => (Phase::Finished, Request::Finish(Outcome::Success)),
        (phase, _) => fail(phase.stage(), String::from_str("unexpected reply")),
    }
}

impl Stage {
    /// What a compilation is doing at this stage, in words.
    pub open spec fn description(self) -> Seq<char> {
        match self {
            Stage::Read => "reading the source"@,
            Stage::Parse => "parsing the source"@,
            Stage::Prepare => "preparing the output directory"@,
            Stage::Consolidate => "copying the media files"@,
            Stage::Write => "writing the document"@,
        }
    }

    /// What a compilation is doing at this stage, in words.
    pub fn describe(&self) -> (words: &'static str)
        ensures
            words@ == self.description(),
    {
        match self {
            Stage::Read => "reading the source",
            Stage::Parse => "parsing the source",
            Stage::Prepare => "preparing the output directory",
            Stage::Consolidate => "copying the media files",
            Stage::Write => "writing the document",
        }
    }
}

impl OutcomeView {
    /// The line or two that tell the user how the compilation ended: on
    /// failure they name the stage and the cause.
    pub open spec fn notice(self) -> Seq<char> {
        match self {
            OutcomeView::Success => "Slides compiled successfully."@,
            OutcomeView::Failure(failure) => "Error compiling slides:\n  "@
                + failure.stage.description() + ": "@ + failure.cause,
        }
    }
}

impl Outcome {
    /// Whether the document was written.
    pub fn is_success(&self) -> (yes: bool)
        ensures
            yes == (self@ == OutcomeView::Success),
    {
        match self {
            Outcome::Success => true,
            Outcome::Failure(_) => false,
        }
    }

    /// The text that tells the user how the compilation ended.
    pub fn notice(&self) -> (text: String)
        ensures
            text@ == self@.notice(),
    {
        match self {
            Outcome::Success => String::from_str("Slides compiled successfully."),
            Outcome::Failure(failure) => {
                let mut text = String::from_str("Error compiling slides:\n  ");
                text.append(failure.stage.describe());
                text.append(": ");
                text.append(failure.cause.as_str());
                text
            },
        }
    }

    /// The exit status of a program that compiled once and ends with this
    /// outcome: 0 on success, 1 on failure.
    pub fn exit_code(&self) -> (code: i32)
        ensures
            code == if self@ == OutcomeView::Success {
                0i32
            } else {
                1i32
            },
    {
        match self {
            Outcome::Success => 0,
            Outcome::Failure(_) => 1,
        }
    }
}

/// The requests made, one after each reply, when `replies` come in this
/// order from `phase` on.
pub open spec fn requests_for(job: JobView, phase: PhaseView, replies: Seq<ReplyView>) -> Seq<
    RequestView,
>
    decreases replies.len(),
{
    if replies.len() == 0 {
        Seq::empty()
    } else {
        let step = next(job, phase, replies.first());
        seq![step.1] + requests_for(job, step.0, replies.drop_first())
    }
}

/// The phase reached when `replies` have come in this order from `phase` on.
pub open spec fn phase_after(job: JobView, phase: PhaseView, replies: Seq<ReplyView>) -> PhaseView
    decreases replies.len(),
{
    if replies.len() == 0 {
        phase
    } else {
        phase_after(job, next(job, phase, replies.first()).0, replies.drop_first())
    }
}

/// `count` replies that say the request was carried out.
pub open spec fn done(count: nat) -> Seq<ReplyView> {
    Seq::new(count, |i: int| ReplyView::Done)
}

/// One request for each of `copies`, in the same order.
pub open spec fn copy_requests(copies: Seq<AssetCopyView>) -> Seq<RequestView> {
    Seq::new(
        copies.len(),
        |i: int| RequestView::CopyFile { source: copies[i].source, target: copies[i].target },
    )
}

/// The requests that end a compilation whose copies are made: the document
/// is written and success is reported.
pub open spec fn closing_requests(job: JobView, deck: Seq<SlideView>) -> Seq<RequestView> {
    seq![
        RequestView::WriteFile {
            path: INDEX_FILE@,
            content: document(consolidated(deck), job.style, job.script),
        },
        RequestView::Finish(OutcomeView::Success),
    ]
}

/// The replies of a compilation in which nothing fails: the source holds
/// `text`, which parses as `deck`, and the output directory was there before
/// or not, as `existed` says.
pub open spec fn replies_of_success(
    text: Seq<char>,
    deck: Seq<SlideView>,
    existed: bool,
) -> Seq<ReplyView> {
    seq![ReplyView::Text(text), ReplyView::Deck(deck), ReplyView::Exists(existed)] + done(
        if existed {
            1nat
        } else {
            0nat
        },
    ) + done(copies_for(deck, ASSET_DIR@).len() + 3)
}

/// What a compilation in which nothing fails asks for after the source is
/// read, in this order: parse, probe, remove the output directory if it was
/// there, create it and the asset directory, make the copies, write the
/// document, report success.
pub open spec fn requests_of_success(
    job: JobView,
    text: Seq<char>,
    deck: Seq<SlideView>,
    existed: bool,
) -> Seq<RequestView> {
    seq![RequestView::ParseDeck { text }, RequestView::ProbeOutput { path: OUTPUT_DIR@ }] + (
    if existed {
        seq![RequestView::RemoveTree { path: OUTPUT_DIR@ }]
    } else {
        Seq::empty()
    }) + seq![
        RequestView::CreateDir { path: OUTPUT_DIR@ },
        RequestView::CreateDir { path: ASSET_DIR@ },
    ] + copy_requests(copies_for(deck, ASSET_DIR@)) + closing_requests(job, deck)
}

/// A run is its first step followed by the run from the phase reached.
proof fn lemma_first_step(job: JobView, phase: PhaseView, reply: ReplyView, rest: Seq<ReplyView>)
    ensures
        requests_for(job, phase, seq![reply] + rest) == seq![next(job, phase, reply).1]
            + requests_for(job, next(job, phase, reply).0, rest),
        phase_after(job, phase, seq![reply] + rest) == phase_after(
            job,
            next(job, phase, reply).0,
            rest,
        ),
{
    let replies = seq![reply] + rest;
    assert(replies.first() == reply);
    assert(replies.drop_first() =~= rest);
}

/// Once a compilation is over, whatever comes in is answered with nothing.
pub proof fn lemma_finished_stays_finished(job: JobView, replies: Seq<ReplyView>)
    ensures
        phase_after(job, PhaseView::Finished, replies) == PhaseView::Finished,
        requests_for(job, PhaseView::Finished, replies).len() == replies.len(),
        forall|i: int|
            0 <= i < replies.len() ==> #[trigger] requests_for(job, PhaseView::Finished, replies)[i]
                == RequestView::Nothing,
    decreases replies.len(),
{
    if replies.len() > 0 {
        lemma_finished_stays_finished(job, replies.drop_first());
    }
}

/// A failure ends the compilation, whatever phase it is in: the failure is
/// reported under the stage of that phase, and no request follows, so that
/// nothing is written afterwards.
pub proof fn lemma_failure_ends_compilation(
    job: JobView,
    phase: PhaseView,
    cause: Seq<char>,
    later: Seq<ReplyView>,
)
    requires
        phase != PhaseView::Finished,
    ensures
        next(job, phase, ReplyView::Failed(cause)) == failed(stage_of(phase), cause),
        phase_after(job, phase, seq![ReplyView::Failed(cause)] + later) == PhaseView::Finished,
        requests_for(job, phase, seq![ReplyView::Failed(cause)] + later) == seq![
            RequestView::Finish(
                OutcomeView::Failure(FailureView { stage: stage_of(phase), cause }),
            ),
        ] + Seq::new(later.len(), |i: int| RequestView::Nothing),
{
    lemma_first_step(job, phase, ReplyView::Failed(cause), later);
    lemma_finished_stays_finished(job, later);
    assert(requests_for(job, PhaseView::Finished, later) =~= Seq::new(
        later.len(),
        |i: int| RequestView::Nothing,
    ));
}

/// From the first copy on, a compilation in which nothing fails asks for
/// the copies that are left, in order, then for the document, then reports
/// success.
proof fn lemma_copies_then_document(
    job: JobView,
    deck: Seq<SlideView>,
    copies: Seq<AssetCopyView>,
    requested: int,
)
    requires
        0 <= requested <= copies.len(),
    ensures
        ({
            let phase = PhaseView::Copying { deck, copies, requested };
            let replies = done((copies.len() - requested + 2) as nat);
            &&& phase_after(job, phase, replies) == PhaseView::Finished
            &&& requests_for(job, phase, replies) == copy_requests(copies).skip(requested) + seq![
                RequestView::WriteFile {
                    path: INDEX_FILE@,
                    content: document(deck, job.style, job.script),
                },
                RequestView::Finish(OutcomeView::Success),
            ]
        }),
    decreases copies.len() - requested,
{
    let phase = PhaseView::Copying { deck, copies, requested };
    let replies = done((copies.len() - requested + 2) as nat);
    let rest = done((copies.len() - requested + 1) as nat);
    let write = RequestView::WriteFile {
        path: INDEX_FILE@,
        content: document(deck, job.style, job.script),
    };
    let tail = seq![write, RequestView::Finish(OutcomeView::Success)];
    assert(replies =~= seq![ReplyView::Done] + rest);
    lemma_first_step(job, phase, ReplyView::Done, rest);
    if requested < copies.len() {
        lemma_copies_then_document(job, deck, copies, requested + 1);
        assert(copy_requests(copies).skip(requested) =~= seq![copy_requests(copies)[requested]]
            + copy_requests(copies).skip(requested + 1));
        assert(seq![copy_requests(copies)[requested]] + (copy_requests(copies).skip(requested + 1)
            + tail) =~= copy_requests(copies).skip(requested) + tail);
    } else {
        assert(rest =~= seq![ReplyView::Done] + done(0));
        lemma_first_step(job, PhaseView::Writing, ReplyView::Done, done(0));
        assert(copy_requests(copies).skip(requested) =~= Seq::<RequestView>::empty());
        assert(seq![write] + (seq![RequestView::Finish(OutcomeView::Success)] + Seq::<
            RequestView,
        >::empty()) =~= copy_requests(copies).skip(requested) + tail);
    }
}

/// A compilation in which nothing fails goes through its steps in the one
/// order allowed and ends in success: the output directory is emptied and
/// recreated before any copy is made, every copy is made before the document
/// is written, and the document is that of the consolidated deck.
pub proof fn lemma_successful_run(
    job: JobView,
    text: Seq<char>,
    deck: Seq<SlideView>,
    existed: bool,
)
    requires
        first_unnamed(deck) is None,
    ensures
        phase_after(job, PhaseView::Reading, replies_of_success(text, deck, existed))
            == PhaseView::Finished,
        requests_for(job, PhaseView::Reading, replies_of_success(text, deck, existed))
            == requests_of_success(job, text, deck, existed),
{
    let copies = copies_for(deck, ASSET_DIR@);
    let rest = done(copies.len() + 2);
    let from_root = seq![ReplyView::Done] + rest;
    let from_probe = if existed {
        seq![ReplyView::Done] + from_root
    } else {
        from_root
    };
    let replies = seq![ReplyView::Text(text)] + (seq![ReplyView::Deck(deck)] + (seq![
        ReplyView::Exists(existed),
    ] + from_probe));
    assert(replies =~= replies_of_success(text, deck, existed));
    let root = PhaseView::CreatingRoot { deck };
    let assets = PhaseView::CreatingAssets { deck };
    let copying = PhaseView::Copying { deck: consolidated(deck), copies, requested: 0 };
    lemma_copies_then_document(job, consolidated(deck), copies, 0);
    assert(rest =~= seq![ReplyView::Done] + rest.drop_first());
    lemma_first_step(job, copying, ReplyView::Done, rest.drop_first());
    lemma_first_step(job, assets, ReplyView::Done, rest.drop_first());
    assert(requests_for(job, assets, rest) == requests_for(job, copying, rest));
    lemma_first_step(job, root, ReplyView::Done, rest);
    lemma_first_step(job, PhaseView::Removing { deck }, ReplyView::Done, from_root);
    lemma_first_step(job, PhaseView::Probing { deck }, ReplyView::Exists(existed), from_probe);
    lemma_first_step(
        job,
        PhaseView::Parsing,
        ReplyView::Deck(deck),
        seq![ReplyView::Exists(existed)] + from_probe,
    );
    lemma_first_step(
        job,
        PhaseView::Reading,
        ReplyView::Text(text),
        seq![ReplyView::Deck(deck)] + (seq![ReplyView::Exists(existed)] + from_probe),
    );
    assert(copy_requests(copies).skip(0) =~= copy_requests(copies));
    assert(requests_for(job, PhaseView::Reading, replies) =~= requests_of_success(
        job,
        text,
        deck,
        existed,
    ));
}

/// Compiling the same source again gives the same document. The second run
/// finds the output directory that the first one made: it removes it, stale
/// files and all, and apart from that asks for exactly what the first run
/// asked for.
pub proof fn lemma_recompilation_repeats(job: JobView, text: Seq<char>, deck: Seq<SlideView>)
    requires
        first_unnamed(deck) is None,
    ensures
        ({
            let first = requests_for(
                job,
                PhaseView::Reading,
                replies_of_success(text, deck, false),
            );
            let second = requests_for(
                job,
                PhaseView::Reading,
                replies_of_success(text, deck, true),
            );
            &&& second == first.take(2) + seq![RequestView::RemoveTree { path: OUTPUT_DIR@ }]
                + first.skip(2)
            &&& first[first.len() - 2] == second[second.len() - 2]
            &&& first[first.len() - 2] == (RequestView::WriteFile {
                path: INDEX_FILE@,
                content: document(consolidated(deck), job.style, job.script),
            })
        }),
{
    lemma_successful_run(job, text, deck, false);
    lemma_successful_run(job, text, deck, true);
    let first = requests_of_success(job, text, deck, false);
    let second = requests_of_success(job, text, deck, true);
    assert(second =~= first.take(2) + seq![RequestView::RemoveTree { path: OUTPUT_DIR@ }]
        + first.skip(2));
}

} // verus!
