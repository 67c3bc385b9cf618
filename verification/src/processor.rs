pub mod builder;

use crate::domain::{clone_opt, stream_views, Stream, StreamView};
use crate::error::{Error, ErrorKind, ErrorView};
use crate::llm::transcriber::{AudioInput, AudioInputView, ResponseView, TranscribeResponse};
use crate::parser::{initial_data, parse_streams, parsed_streams, YtHtmlDocument, NO_INITIAL_DATA};
use crate::processor::builder::ChunkingConfig;
use crate::selection::{
    lemma_selected_len, selected, sort_filter_limit_streams, text_set,
};
use crate::types::string_views;
use vstd::prelude::*;

verus! {

/// What a run works with: the working directory, the five collaborators, the
/// cap on the batch, and whether audio is cut into chunks.
pub struct LiveStreamProcessor<D, T, S, A, P> {
    pub workdir: String,
    pub store: D,
    pub transcriber: T,
    pub summarizer: S,
    pub audio_handler: A,
    pub channel_scraper: P,
    pub max_streams: usize,
    pub chunking_config: Option<ChunkingConfig>,
}

impl<D, T, S, A, P> LiveStreamProcessor<D, T, S, A, P> {
    /// The run of this processor at `now`, a count of seconds since the epoch,
    /// before anything has happened.
    pub fn pipeline(&self, now: i64) -> (r: Pipeline)
        ensures
            r@ == initial(self.workdir@, self.max_streams, self.chunking_config, now),
            inv(r@),
    {
        Pipeline::new(self.workdir.as_str(), self.max_streams, self.chunking_config, now)
    }
}

/// Where a run stands.
#[derive(Clone, Copy, Debug, PartialEq, Eq, Structural)]
pub enum RunState {
    Idle,
    Discovering,
    Selecting,
    AcquiringAudio,
    TranscribingAndSummarizing,
    Done,
    Failed,
}

/// What is being done for the recording that a run is working on.
#[derive(Clone, Copy, Debug, PartialEq, Eq, Structural)]
pub enum ItemStage {
    Transcribing,
    Summarizing,
    Persisting,
}

/// What a run asks of its surroundings.
#[derive(Debug, PartialEq)]
pub enum Action {
    /// Fetch the channel page.
    Scrape,
    /// Say which of these ids are stored already.
    LookupExisting { video_ids: Vec<String> },
    /// Fetch and clean the audio of each of these recordings, in any order or
    /// all at once, in this directory; answer with the cleaned files in the
    /// order of the recordings, or with the first failure.
    PrepareAudio { streams: Vec<Stream>, audio_dir: String },
    /// Transcribe this audio.
    Transcribe { input: AudioInput },
    /// Summarize this transcript.
    Summarize { transcript: String },
    /// Store this recording; one that is stored already is left as it is.
    Persist { stream: Stream },
    /// The run is over: remove this directory with all that is in it, whether
    /// or not that goes well, and report this outcome.
    Finish { remove_dir: String, outcome: Result<(), Error> },
}

/// What an [`Action`] holds, as plain values.
pub enum ActionView {
    Scrape,
    LookupExisting { video_ids: Seq<Seq<char>> },
    PrepareAudio { streams: Seq<StreamView>, audio_dir: Seq<char> },
    Transcribe { input: AudioInputView },
    Summarize { transcript: Seq<char> },
    Persist { stream: StreamView },
    Finish { remove_dir: Seq<char>, outcome: Result<(), ErrorView> },
}

impl View for Action {
    type V = ActionView;

    open spec fn view(&self) -> ActionView {
        match self {
            Action::Scrape => ActionView::Scrape,
            Action::LookupExisting { video_ids } => ActionView::LookupExisting {
                video_ids: string_views(video_ids@),
            },
            Action::PrepareAudio { streams, audio_dir } => ActionView::PrepareAudio {
                streams: stream_views(streams@),
                audio_dir: audio_dir@,
            },
            Action::Transcribe { input } => ActionView::Transcribe { input: input@ },
            Action::Summarize { transcript } => ActionView::Summarize { transcript: transcript@ },
            Action::Persist { stream } => ActionView::Persist { stream: stream@ },
            Action::Finish { remove_dir, outcome } => ActionView::Finish {
                remove_dir: remove_dir@,
                outcome: match outcome {
                    Ok(_) => Ok(()),
                    Err(e) => Err(e@),
                },
            },
        }
    }
}

/// What the surroundings hand back to a run: how what it asked for went. A
/// failure brings its text.
pub enum Event {
    /// The channel page.
    Scraped(Result<String, String>),
    /// The ids that are stored already.
    ExistingIds(Result<Vec<String>, String>),
    /// The cleaned audio files, in the order of the batch.
    AudioPrepared(Result<Vec<String>, Error>),
    /// The transcript.
    Transcribed(Result<TranscribeResponse, String>),
    /// The summary.
    Summarized(Result<String, String>),
    /// That the recording is stored.
    Persisted(Result<(), String>),
}

/// What an [`Event`] holds, as plain values.
pub enum EventView {
    Scraped(Result<Seq<char>, Seq<char>>),
    ExistingIds(Result<Seq<Seq<char>>, Seq<char>>),
    AudioPrepared(Result<Seq<Seq<char>>, ErrorView>),
    Transcribed(Result<ResponseView, Seq<char>>),
    Summarized(Result<Seq<char>, Seq<char>>),
    Persisted(Result<(), Seq<char>>),
}

impl View for Event {
    type V = EventView;

    open spec fn view(&self) -> EventView {
        match self {
            Event::Scraped(r) => EventView::Scraped(
                match r {
                    Ok(page) => Ok(page@),
                    Err(m) => Err(m@),
                },
            ),
            Event::ExistingIds(r) => EventView::ExistingIds(
                match r {
                    Ok(ids) => Ok(string_views(ids@)),
                    Err(m) => Err(m@),
                },
            ),
            Event::AudioPrepared(r) => EventView::AudioPrepared(
                match r {
                    Ok(paths) => Ok(string_views(paths@)),
                    Err(e) => Err(e@),
                },
            ),
            Event::Transcribed(r) => EventView::Transcribed(
                match r {
                    Ok(t) => Ok(t@),
                    Err(m) => Err(m@),
                },
            ),
            Event::Summarized(r) => EventView::Summarized(
                match r {
                    Ok(s) => Ok(s@),
                    Err(m) => Err(m@),
                },
            ),
            Event::Persisted(r) => EventView::Persisted(
                match r {
                    Ok(_) => Ok(()),
                    Err(m) => Err(m@),
                },
            ),
        }
    }
}

impl EventView {
    /// Whether the event brings a failure.
    pub open spec fn is_failure(self) -> bool {
        match self {
            EventView::Scraped(r) => r is Err,
            EventView::ExistingIds(r) => r is Err,
            EventView::AudioPrepared(r) => r is Err,
            EventView::Transcribed(r) => r is Err,
            EventView::Summarized(r) => r is Err,
            EventView::Persisted(r) => r is Err,
        }
    }
}

/// What a run is set up with.
struct Setup {
    workdir: String,
    max_streams: usize,
    chunking: Option<ChunkingConfig>,
    now: i64,
}

/// Where a run has got to.
struct Progress {
    state: RunState,
    stage: ItemStage,
    candidates: Vec<Stream>,
    batch: Vec<Stream>,
    audio: Vec<String>,
    cursor: usize,
    transcript: String,
    failure: Option<Error>,
}

/// One run, from the fetch of the channel page to the last stored recording.
/// It asks for one thing at a time and is told how that went; the first
/// failure ends it.
pub struct Pipeline {
    setup: Setup,
    progress: Progress,
}

/// What a [`Pipeline`] holds.
pub struct PipelineView {
    pub workdir: Seq<char>,
    pub max_streams: usize,
    pub chunking: Option<ChunkingConfig>,
    /// The time of the run, in seconds since the epoch.
    pub now: i64,
    pub state: RunState,
    pub stage: ItemStage,
    /// The recordings that the channel page lists.
    pub candidates: Seq<StreamView>,
    /// The recordings that the run takes up, in the order in which it does.
    pub batch: Seq<StreamView>,
    /// The cleaned audio of each recording of the batch.
    pub audio: Seq<Seq<char>>,
    /// How many recordings of the batch are stored: the index of the one that
    /// is being worked on.
    pub cursor: nat,
    /// The transcript of the recording that is being worked on.
    pub transcript: Seq<char>,
    /// Why the run failed.
    pub failure: Option<ErrorView>,
}

/// The run that a setup and a progress make.
spec fn run_of(setup: Setup, progress: Progress) -> PipelineView {
    PipelineView {
        workdir: setup.workdir@,
        max_streams: setup.max_streams,
        chunking: setup.chunking,
        now: setup.now,
        state: progress.state,
        stage: progress.stage,
        candidates: stream_views(progress.candidates@),
        batch: stream_views(progress.batch@),
        audio: string_views(progress.audio@),
        cursor: progress.cursor as nat,
        transcript: progress.transcript@,
        failure: match progress.failure {
            Some(e) => Some(e@),
            None => None,
        },
    }
}

impl View for Pipeline {
    type V = PipelineView;

    closed spec fn view(&self) -> PipelineView {
        run_of(self.setup, self.progress)
    }
}

/// The text of the failure when the audio stage answers with another number
/// of files than the batch has recordings.
pub const AUDIO_COUNT_MISMATCH: &'static str = "one audio file per recording was expected";

/// A run before anything has happened.
pub open spec fn initial(
    workdir: Seq<char>,
    max_streams: usize,
    chunking: Option<ChunkingConfig>,
    now: i64,
) -> PipelineView {
    PipelineView {
        workdir,
        max_streams,
        chunking,
        now,
        state: RunState::Idle,
        stage: ItemStage::Transcribing,
        candidates: Seq::empty(),
        batch: Seq::empty(),
        audio: Seq::empty(),
        cursor: 0,
        transcript: Seq::empty(),
        failure: None,
    }
}

/// The directory that holds the audio of a run: the working area, which is
/// removed when the run ends.
pub open spec fn audio_dir(workdir: Seq<char>) -> Seq<char> {
    workdir + "/audio"@
}

/// The ids of a sequence of recordings.
pub open spec fn ids_of(streams: Seq<StreamView>) -> Seq<Seq<char>> {
    Seq::new(streams.len(), |i: int| streams[i].video_id)
}

/// The recordings that a channel page lists, or the text of the failure: a
/// page without data fails, and so does data of another shape than expected.
pub open spec fn discovered(page: Seq<char>) -> Result<Seq<StreamView>, Seq<char>> {
    match initial_data(page) {
        None => Err(NO_INITIAL_DATA@),
        Some(doc) => parsed_streams(doc),
    }
}

/// A recording with its summary.
pub open spec fn with_summary(s: StreamView, summary: Seq<char>) -> StreamView {
    StreamView { summary_md: Some(summary), ..s }
}

/// What the transcription of the recording at an index of the batch works on:
/// the cleaned audio whole, or, where audio is cut, the cleaned audio and a
/// directory for its chunks that is named by the id of the recording.
pub open spec fn input_for(p: PipelineView, index: int) -> AudioInputView {
    match p.chunking {
        Some(c) => AudioInputView::Chunked {
            chunk_duration_seconds: c.chunk_duration_seconds,
            chunks_dir_path: audio_dir(p.workdir) + "/"@ + p.batch[index].video_id,
            file_path: p.audio[index],
        },
        None => AudioInputView::File(p.audio[index]),
    }
}

/// The text of a failure at the recording that the run is working on: the id
/// of the recording, a colon and a space, and the text that the failure
/// brought.
pub open spec fn at_item(p: PipelineView, m: Seq<char>) -> Seq<char> {
    p.batch[p.cursor as int].video_id + ": "@ + m
}

/// A run that has failed.
pub open spec fn failed(p: PipelineView, kind: ErrorKind, detail: Seq<char>) -> PipelineView {
    PipelineView { state: RunState::Failed, failure: Some(ErrorView { kind, detail }), ..p }
}

/// A run that has begun: an idle run is discovering; any other is as it was.
pub open spec fn begun(p: PipelineView) -> PipelineView {
    if p.state == RunState::Idle {
        PipelineView { state: RunState::Discovering, ..p }
    } else {
        p
    }
}

/// Whether an event answers what the run has asked for.
pub open spec fn answers(p: PipelineView, e: EventView) -> bool {
    match p.state {
        RunState::Discovering => e is Scraped,
        RunState::Selecting => e is ExistingIds,
        RunState::AcquiringAudio => e is AudioPrepared,
        RunState::TranscribingAndSummarizing => match p.stage {
            ItemStage::Transcribing => e is Transcribed,
            ItemStage::Summarizing => e is Summarized,
            ItemStage::Persisting => e is Persisted,
        },
        _ => false,
    }
}

/// The run after an event that answers what it has asked for.
///
/// A failure that the event brings fails the run, with the kind of the stage
/// and the text that it brought; a failure at a recording names the
/// recording. Else: the page is read, which can fail, and
/// its recordings are the candidates. The batch is picked from the
/// candidates that are not stored yet; an empty batch ends the run. One audio
/// file for each recording of the batch begins the work on the first
/// recording. A transcript is kept to be summarized. A summary is attached to
/// the recording. A stored recording moves the run on to the next one, or
/// ends it after the last.
pub open spec fn answered(p: PipelineView, e: EventView) -> PipelineView {
    match e {
        EventView::Scraped(Err(m)) => failed(p, ErrorKind::Scrape, m),
        EventView::Scraped(Ok(page)) => match discovered(page) {
            Err(m) => failed(p, ErrorKind::Parse, m),
            Ok(streams) => PipelineView { state: RunState::Selecting, candidates: streams, ..p },
        },
        EventView::ExistingIds(Err(m)) => failed(p, ErrorKind::Storage, m),
        EventView::ExistingIds(Ok(ids)) => {
            let batch = selected(p.candidates, text_set(ids), p.now, p.max_streams as nat);
            PipelineView {
                state: if batch.len() == 0 {
                    RunState::Done
                } else {
                    RunState::AcquiringAudio
                },
                batch,
                ..p
            }
        },
        EventView::AudioPrepared(Err(e)) => failed(p, e.kind, e.detail),
        EventView::AudioPrepared(Ok(paths)) => if paths.len() != p.batch.len() {
            failed(p, ErrorKind::Acquisition, AUDIO_COUNT_MISMATCH@)
        } else {
            PipelineView {
                state: RunState::TranscribingAndSummarizing,
                stage: ItemStage::Transcribing,
                audio: paths,
                ..p
            }
        },
        EventView::Transcribed(Err(m)) => failed(p, ErrorKind::Transcription, at_item(p, m)),
        EventView::Transcribed(Ok(t)) => PipelineView {
            stage: ItemStage::Summarizing,
            transcript: t.text,
            ..p
        },
        EventView::Summarized(Err(m)) => failed(p, ErrorKind::Summarization, at_item(p, m)),
        EventView::Summarized(Ok(summary)) => PipelineView {
            stage: ItemStage::Persisting,
            batch: p.batch.update(p.cursor as int, with_summary(p.batch[p.cursor as int], summary)),
            ..p
        },
        EventView::Persisted(Err(m)) => failed(p, ErrorKind::Persistence, at_item(p, m)),
        EventView::Persisted(Ok(_)) => if p.cursor + 1 < p.batch.len() {
            PipelineView { stage: ItemStage::Transcribing, cursor: p.cursor + 1, ..p }
        } else {
            PipelineView { state: RunState::Done, cursor: p.cursor + 1, ..p }
        },
    }
}

/// The run after an event. An event that does not answer what the run has
/// asked for changes nothing: a run that is over stays as it ended.
pub open spec fn next(p: PipelineView, e: EventView) -> PipelineView {
    if answers(p, e) {
        answered(p, e)
    } else {
        p
    }
}

/// What a run asks for, as it stands.
pub open spec fn awaits(p: PipelineView) -> ActionView {
    match p.state {
        RunState::Idle => ActionView::Scrape,
        RunState::Discovering => ActionView::Scrape,
        RunState::Selecting => ActionView::LookupExisting { video_ids: ids_of(p.candidates) },
        RunState::AcquiringAudio => ActionView::PrepareAudio {
            streams: p.batch,
            audio_dir: audio_dir(p.workdir),
        },
        RunState::TranscribingAndSummarizing => match p.stage {
            ItemStage::Transcribing => ActionView::Transcribe {
                input: input_for(p, p.cursor as int),
            },
            ItemStage::Summarizing => ActionView::Summarize { transcript: p.transcript },
            ItemStage::Persisting => ActionView::Persist { stream: p.batch[p.cursor as int] },
        },
        RunState::Done => ActionView::Finish {
            remove_dir: audio_dir(p.workdir),
            outcome: Ok(()),
        },
        RunState::Failed => ActionView::Finish {
            remove_dir: audio_dir(p.workdir),
            outcome: match p.failure {
                Some(e) => Err(e),
                None => Ok(()),
            },
        },
    }
}

/// What holds of a run at every moment.
pub open spec fn inv(p: PipelineView) -> bool {
    &&& p.cursor <= p.batch.len()
    &&& p.batch.len() <= p.max_streams
    &&& (p.state == RunState::Failed <==> p.failure is Some)
    &&& (p.state == RunState::Idle || p.state == RunState::Discovering || p.state
        == RunState::Selecting || p.state == RunState::AcquiringAudio ==> p.cursor == 0)
    &&& (p.state == RunState::AcquiringAudio ==> p.batch.len() > 0)
    &&& (p.state == RunState::TranscribingAndSummarizing ==> p.cursor < p.batch.len()
        && p.audio.len() == p.batch.len())
    &&& (p.state == RunState::TranscribingAndSummarizing && p.stage == ItemStage::Persisting
        ==> p.batch[p.cursor as int].summary_md is Some)
    &&& (p.state == RunState::Done ==> p.cursor == p.batch.len())
    &&& forall|i: int| 0 <= i < p.cursor ==> (#[trigger] p.batch[i]).summary_md is Some
}

/// A run keeps what holds of it through every event.
pub proof fn lemma_next_keeps_inv(p: PipelineView, e: EventView)
    requires
        inv(p),
    ensures
        inv(next(p, e)),
        inv(begun(p)),
{
    if answers(p, e) {
        match e {
            EventView::ExistingIds(Ok(ids)) => {
                lemma_selected_len(p.candidates, text_set(ids), p.now, p.max_streams as nat);
            },
            _ => {},
        }
    }
}

/// The first failure ends the run: after an awaited event that brings a
/// failure the run has failed, it asks for nothing but to be ended with that
/// failure, and the batch and the count of stored recordings are as they were.
pub proof fn lemma_failure_ends_run(p: PipelineView, e: EventView)
    requires
        inv(p),
        answers(p, e),
        e.is_failure(),
    ensures
        next(p, e).state == RunState::Failed,
        next(p, e).cursor == p.cursor,
        next(p, e).batch == p.batch,
        awaits(next(p, e)) matches ActionView::Finish { outcome, .. } && outcome is Err,
{
}

/// A run that is over stays over: no event changes it, and all that it asks
/// for is to be ended with the outcome that it has; nothing more is stored.
pub proof fn lemma_ended_run_stays(p: PipelineView, e: EventView)
    requires
        inv(p),
        p.state == RunState::Done || p.state == RunState::Failed,
    ensures
        next(p, e) == p,
        awaits(p) is Finish,
        awaits(p) matches ActionView::Finish { outcome, .. } && (outcome is Ok <==> p.state
            == RunState::Done),
{
}

/// A recording is stored only with its summary, and one at a time in the order
/// of the batch: what a run asks to have stored is the recording that it is
/// working on, and that one has a summary.
pub proof fn lemma_persists_summarized(p: PipelineView)
    requires
        inv(p),
        awaits(p) is Persist,
    ensures
        p.cursor < p.batch.len(),
        awaits(p) == (ActionView::Persist { stream: p.batch[p.cursor as int] }),
        p.batch[p.cursor as int].summary_md is Some,
{
}

/// The count of stored recordings grows by one when the store reports that
/// the recording in work is stored, and never otherwise.
pub proof fn lemma_count_follows_store(p: PipelineView, e: EventView)
    requires
        inv(p),
    ensures
        next(p, e).cursor == if answers(p, e) && e matches EventView::Persisted(Ok(_)) {
            p.cursor + 1
        } else {
            p.cursor
        },
{
}

/// A run that ended well has stored its whole batch, each recording with a
/// summary, and the batch is no longer than the cap.
pub proof fn lemma_done_run_stored_batch(p: PipelineView)
    requires
        inv(p),
        p.state == RunState::Done,
    ensures
        p.cursor == p.batch.len(),
        p.batch.len() <= p.max_streams,
        forall|i: int| 0 <= i < p.batch.len() ==> (#[trigger] p.batch[i]).summary_md is Some,
{
}

impl Progress {
    /// The progress of a run that has not begun.
    fn idle() -> (r: Progress)
        ensures
            r.state == RunState::Idle,
            r.stage == ItemStage::Transcribing,
            r.candidates@.len() == 0,
            r.batch@.len() == 0,
            r.audio@.len() == 0,
            r.cursor == 0,
            r.transcript@ == Seq::<char>::empty(),
            r.failure is None,
    {
        Progress {
            state: RunState::Idle,
            stage: ItemStage::Transcribing,
            candidates: Vec::new(),
            batch: Vec::new(),
            audio: Vec::new(),
            cursor: 0,
            transcript: String::new(),
            failure: None,
        }
    }

    fn fail(self, e: Error, Ghost(setup): Ghost<Setup>) -> (r: Progress)
        ensures
            run_of(setup, r) == failed(run_of(setup, self), e.kind(), e.detail()),
    {
        Progress { state: RunState::Failed, failure: Some(e), ..self }
    }
}

impl Setup {
    fn at_item(&self, progress: &Progress, m: String) -> (r: String)
        requires
            progress.cursor < progress.batch.len(),
        ensures
            r@ == at_item(run_of(*self, *progress), m@),
    {
        let mut detail = progress.batch[progress.cursor].video_id.clone();
        detail.append(": ");
        detail.append(m.as_str());
        detail
    }

    fn scraped(&self, progress: Progress, page: String) -> (r: Progress)
        ensures
            run_of(*self, r) == answered(run_of(*self, progress), EventView::Scraped(Ok(page@))),
    {
        let doc = YtHtmlDocument::new(page);
        let json = match doc.to_json() {
            Ok(j) => j,
            Err(e) => {
                return progress.fail(e, Ghost(*self));
            },
        };
        match parse_streams(&json) {
            Ok(streams) => Progress { state: RunState::Selecting, candidates: streams, ..progress },
            Err(e) => progress.fail(e, Ghost(*self)),
        }
    }

    fn selected(&self, progress: Progress, ids: Vec<String>) -> (r: Progress)
        ensures
            run_of(*self, r) == answered(
                run_of(*self, progress),
                EventView::ExistingIds(Ok(string_views(ids@))),
            ),
    {
        let batch = sort_filter_limit_streams(
            &progress.candidates,
            &ids,
            self.max_streams,
            self.now,
        );
        let state = if batch.len() == 0 {
            RunState::Done
        } else {
            RunState::AcquiringAudio
        };
        assert(stream_views(batch@).len() == batch.len());
        Progress { state, batch, ..progress }
    }

    fn summarized(&self, progress: Progress, summary: String) -> (r: Progress)
        requires
            progress.cursor < progress.batch.len(),
        ensures
            run_of(*self, r) == answered(
                run_of(*self, progress),
                EventView::Summarized(Ok(summary@)),
            ),
    {
        let mut progress = progress;
        let current = &progress.batch[progress.cursor];
        let updated = Stream {
            video_id: current.video_id.clone(),
            title: current.title.clone(),
            view_count: current.view_count.clone(),
            streamed_date: current.streamed_date.clone(),
            duration: current.duration.clone(),
            summary_md: Some(summary),
            timestamp_md: clone_opt(&current.timestamp_md),
        };
        let ghost before = stream_views(progress.batch@);
        progress.batch.set(progress.cursor, updated);
        progress.stage = ItemStage::Persisting;
        assert(stream_views(progress.batch@) =~= before.update(
            progress.cursor as int,
            with_summary(before[progress.cursor as int], summary@),
        ));
        progress
    }

    /// The progress of the run after an event.
    fn advance(&self, progress: Progress, event: Event) -> (r: Progress)
        requires
            inv(run_of(*self, progress)),
        ensures
            run_of(*self, r) == next(run_of(*self, progress), event@),
    {
        let ghost setup = *self;
        assert(stream_views(progress.batch@).len() == progress.batch.len());
        assert(string_views(progress.audio@).len() == progress.audio.len());
        match event {
            Event::Scraped(outcome) => {
                if progress.state == RunState::Discovering {
                    match outcome {
                        Ok(page) => self.scraped(progress, page),
                        Err(m) => progress.fail(Error::ScrapeError(m), Ghost(setup)),
                    }
                } else {
                    progress
                }
            },
            Event::ExistingIds(outcome) => {
                if progress.state == RunState::Selecting {
                    match outcome {
                        Ok(ids) => self.selected(progress, ids),
                        Err(m) => progress.fail(Error::StorageError(m), Ghost(setup)),
                    }
                } else {
                    progress
                }
            },
            Event::AudioPrepared(outcome) => {
                if progress.state == RunState::AcquiringAudio {
                    match outcome {
                        Ok(paths) => {
                            if paths.len() != progress.batch.len() {
                                progress.fail(
                                    Error::AcquisitionError(String::from_str(AUDIO_COUNT_MISMATCH)),
                                    Ghost(setup),
                                )
                            } else {
                                Progress {
                                    state: RunState::TranscribingAndSummarizing,
                                    stage: ItemStage::Transcribing,
                                    audio: paths,
                                    ..progress
                                }
                            }
                        },
                        Err(e) => progress.fail(e, Ghost(setup)),
                    }
                } else {
                    progress
                }
            },
            Event::Transcribed(outcome) => {
                if progress.state == RunState::TranscribingAndSummarizing && progress.stage
                    == ItemStage::Transcribing {
                    match outcome {
                        Ok(t) => Progress {
                            stage: ItemStage::Summarizing,
                            transcript: t.text,
                            ..progress
                        },
                        Err(m) => {
                            let detail = self.at_item(&progress, m);
                            progress.fail(Error::TranscriptionError(detail), Ghost(setup))
                        },
                    }
                } else {
                    progress
                }
            },
            Event::Summarized(outcome) => {
                if progress.state == RunState::TranscribingAndSummarizing && progress.stage
                    == ItemStage::Summarizing {
                    match outcome {
                        Ok(summary) => self.summarized(progress, summary),
                        Err(m) => {
                            let detail = self.at_item(&progress, m);
                            progress.fail(Error::SummarizationError(detail), Ghost(setup))
                        },
                    }
                } else {
                    progress
                }
            },
            Event::Persisted(outcome) => {
                if progress.state == RunState::TranscribingAndSummarizing && progress.stage
                    == ItemStage::Persisting {
                    match outcome {
                        Ok(_) => {
                            let cursor = progress.cursor + 1;
                            if cursor < progress.batch.len() {
                                Progress { stage: ItemStage::Transcribing, cursor, ..progress }
                            } else {
                                Progress { state: RunState::Done, cursor, ..progress }
                            }
                        },
                        Err(m) => {
                            let detail = self.at_item(&progress, m);
                            progress.fail(Error::PersistenceError(detail), Ghost(setup))
                        },
                    }
                } else {
                    progress
                }
            },
        }
    }
}

impl Pipeline {
    #[verifier::type_invariant]
    closed spec fn consistent(&self) -> bool {
        inv(self@)
    }

    /// A run that has not begun.
    pub fn new(workdir: &str, max_streams: usize, chunking: Option<ChunkingConfig>, now: i64) -> (r:
        Pipeline)
        ensures
            r@ == initial(workdir@, max_streams, chunking, now),
            inv(r@),
    {
        let setup = Setup { workdir: String::from_str(workdir), max_streams, chunking, now };
        let progress = Progress::idle();
        proof {
            let v = run_of(setup, progress);
            assert(v.candidates =~= Seq::<StreamView>::empty());
            assert(v.batch =~= Seq::<StreamView>::empty());
            assert(v.audio =~= Seq::<Seq<char>>::empty());
        }
        Pipeline { setup, progress }
    }

    /// Where the run stands.
    pub fn state(&self) -> (r: RunState)
        ensures
            r == self@.state,
    {
        self.progress.state
    }

    /// How many recordings of the batch are stored.
    pub fn stored(&self) -> (r: usize)
        ensures
            r == self@.cursor,
    {
        self.progress.cursor
    }

    /// The batch of the run.
    pub fn batch(&self) -> (r: &Vec<Stream>)
        ensures
            stream_views(r@) == self@.batch,
    {
        &self.progress.batch
    }

    /// The directory that holds the audio of the run.
    pub fn audio_dir(&self) -> (r: String)
        ensures
            r@ == audio_dir(self@.workdir),
    {
        let mut dir = self.setup.workdir.clone();
        dir.append("/audio");
        dir
    }

    fn input_at(&self, index: usize) -> (r: AudioInput)
        requires
            index < self.progress.batch.len(),
            index < self.progress.audio.len(),
        ensures
            r@ == input_for(self@, index as int),
    {
        match self.setup.chunking {
            Some(c) => {
                let mut dir = self.audio_dir();
                dir.append("/");
                dir.append(self.progress.batch[index].video_id.as_str());
                AudioInput::Chunked {
                    chunk_duration_seconds: c.chunk_duration_seconds,
                    chunks_dir_path: dir,
                    file_path: self.progress.audio[index].clone(),
                }
            },
            None => AudioInput::File(self.progress.audio[index].clone()),
        }
    }

    /// What the run asks for, as it stands.
    pub fn pending(&self) -> (r: Action)
        ensures
            r@ == awaits(self@),
            inv(self@),
    {
        proof {
            use_type_invariant(self);
        }
        let progress = &self.progress;
        match progress.state {
            RunState::Idle => Action::Scrape,
            RunState::Discovering => Action::Scrape,
            RunState::Selecting => {
                let mut ids: Vec<String> = Vec::new();
                let mut i: usize = 0;
                while i < progress.candidates.len()
                    invariant
                        i <= progress.candidates.len(),
                        string_views(ids@) == ids_of(stream_views(progress.candidates@)).take(
                            i as int,
                        ),
                    decreases progress.candidates.len() - i,
                {
                    let ghost before = string_views(ids@);
                    ids.push(progress.candidates[i].video_id.clone());
                    assert(string_views(ids@) == before.push(
                        progress.candidates@[i as int].video_id@,
                    ));
                    assert(ids_of(stream_views(progress.candidates@)).take(i + 1) == ids_of(
                        stream_views(progress.candidates@),
                    ).take(i as int).push(progress.candidates@[i as int].video_id@));
                    i += 1;
                }
                assert(ids_of(stream_views(progress.candidates@)).take(
                    progress.candidates.len() as int,
                ) == ids_of(stream_views(progress.candidates@)));
                Action::LookupExisting { video_ids: ids }
            },
            RunState::AcquiringAudio => {
                let mut streams: Vec<Stream> = Vec::new();
                let mut i: usize = 0;
                while i < progress.batch.len()
                    invariant
                        i <= progress.batch.len(),
                        stream_views(streams@) == stream_views(progress.batch@).take(i as int),
                    decreases progress.batch.len() - i,
                {
                    let ghost before = stream_views(streams@);
                    streams.push(progress.batch[i].clone());
                    assert(stream_views(streams@) == before.push(progress.batch@[i as int]@));
                    assert(stream_views(progress.batch@).take(i + 1) == stream_views(
                        progress.batch@,
                    ).take(i as int).push(progress.batch@[i as int]@));
                    i += 1;
                }
                assert(stream_views(progress.batch@).take(progress.batch.len() as int)
                    == stream_views(progress.batch@));
                Action::PrepareAudio { streams, audio_dir: self.audio_dir() }
            },
            RunState::TranscribingAndSummarizing => {
                assert(progress.cursor < progress.batch.len() && progress.audio.len()
                    == progress.batch.len()) by {
                    assert(self@.batch.len() == progress.batch.len());
                    assert(self@.audio.len() == progress.audio.len());
                }
                match progress.stage {
                    ItemStage::Transcribing => Action::Transcribe {
                        input: self.input_at(progress.cursor),
                    },
                    ItemStage::Summarizing => Action::Summarize {
                        transcript: progress.transcript.clone(),
                    },
                    ItemStage::Persisting => Action::Persist {
                        stream: progress.batch[progress.cursor].clone(),
                    },
                }
            },
            RunState::Done => Action::Finish { remove_dir: self.audio_dir(), outcome: Ok(()) },
            RunState::Failed => match &progress.failure {
                Some(e) => Action::Finish { remove_dir: self.audio_dir(), outcome: Err(e.clone()) },
                None => Action::Finish { remove_dir: self.audio_dir(), outcome: Ok(()) },
            },
        }
    }

    /// Begins the run, if it has not begun, and says what it asks for.
    pub fn start(&mut self) -> (r: Action)
        ensures
            final(self)@ == begun(old(self)@),
            inv(final(self)@),
            r@ == awaits(final(self)@),
    {
        proof {
            use_type_invariant(&*self);
        }
        if self.progress.state == RunState::Idle {
            self.progress.state = RunState::Discovering;
        }
        self.pending()
    }

    /// Tells the run how what it asked for went, and learns what it asks
    /// next. An event that the run did not ask for changes nothing, and the
    /// run asks again for what it is waiting for.
    pub fn step(&mut self, event: Event) -> (r: Action)
        ensures
            final(self)@ == next(old(self)@, event@),
            inv(final(self)@),
            r@ == awaits(final(self)@),
    {
        proof {
            use_type_invariant(&*self);
            lemma_next_keeps_inv(self@, event@);
        }
        let mut progress = Progress::idle();
        proof {
            let v = run_of(self.setup, progress);
            assert(v.candidates =~= Seq::<StreamView>::empty());
            assert(v.batch =~= Seq::<StreamView>::empty());
            assert(v.audio =~= Seq::<Seq<char>>::empty());
        }
        std::mem::swap(&mut self.progress, &mut progress);
        let after = self.setup.advance(progress, event);
        self.progress = after;
        self.pending()
    }
}

} // verus!
