use crate::processor::LiveStreamProcessor;
use vstd::prelude::*;

verus! {

/// How the audio of a recording is cut for transcription.
#[derive(Clone, Copy, Debug, PartialEq, Eq, Structural)]
pub struct ChunkingConfig {
    pub chunk_duration_seconds: u16,
}

/// The number of recordings that a run takes up where no other is asked for.
pub const DEFAULT_MAX_STREAMS: usize = 5;

/// Collects what a processor is made of: the working directory, the five
/// collaborators, the cap on a run's batch, and whether audio is cut into
/// chunks. A collaborator that has not been given yet is `()`.
pub struct LiveStreamProcessorBuilder<D = (), T = (), S = (), A = (), P = ()> {
    workdir: String,
    store: D,
    transcriber: T,
    summarizer: S,
    audio_handler: A,
    channel_scraper: P,
    max_streams: usize,
    chunking_config: Option<ChunkingConfig>,
}

impl LiveStreamProcessorBuilder {
    /// A builder for a working directory: no collaborator yet, a cap of five,
    /// no chunking.
    pub fn new(workdir: &str) -> (r: Self)
        ensures
            r.workdir() == workdir@,
            r.max() == DEFAULT_MAX_STREAMS,
            r.chunking() is None,
    {
        LiveStreamProcessorBuilder {
            workdir: String::from_str(workdir),
            store: (),
            transcriber: (),
            summarizer: (),
            audio_handler: (),
            channel_scraper: (),
            max_streams: DEFAULT_MAX_STREAMS,
            chunking_config: None,
        }
    }
}

impl<D, T, S, A, P> LiveStreamProcessorBuilder<D, T, S, A, P> {
    /// The working directory.
    pub closed spec fn workdir(&self) -> Seq<char> {
        self.workdir@
    }

    /// The store that was given.
    pub closed spec fn held_store(&self) -> D {
        self.store
    }

    /// The transcriber that was given.
    pub closed spec fn held_transcriber(&self) -> T {
        self.transcriber
    }

    /// The summarizer that was given.
    pub closed spec fn held_summarizer(&self) -> S {
        self.summarizer
    }

    /// The audio handler that was given.
    pub closed spec fn held_audio_handler(&self) -> A {
        self.audio_handler
    }

    /// The channel scraper that was given.
    pub closed spec fn held_channel_scraper(&self) -> P {
        self.channel_scraper
    }

    /// The cap on a run's batch.
    pub closed spec fn max(&self) -> usize {
        self.max_streams
    }

    /// Whether audio is cut into chunks, and of what length.
    pub closed spec fn chunking(&self) -> Option<ChunkingConfig> {
        self.chunking_config
    }

    /// The same builder with this store.
    pub fn store<D2>(self, store: D2) -> (r: LiveStreamProcessorBuilder<D2, T, S, A, P>)
        ensures
            r.held_store() == store,
            r.workdir() == self.workdir(),
            r.held_transcriber() == self.held_transcriber(),
            r.held_summarizer() == self.held_summarizer(),
            r.held_audio_handler() == self.held_audio_handler(),
            r.held_channel_scraper() == self.held_channel_scraper(),
            r.max() == self.max(),
            r.chunking() == self.chunking(),
    {
        LiveStreamProcessorBuilder {
            workdir: self.workdir,
            store,
            transcriber: self.transcriber,
            summarizer: self.summarizer,
            audio_handler: self.audio_handler,
            channel_scraper: self.channel_scraper,
            max_streams: self.max_streams,
            chunking_config: self.chunking_config,
        }
    }

    /// The same builder with this transcriber.
    pub fn transcriber<T2>(self, transcriber: T2) -> (r: LiveStreamProcessorBuilder<
        D,
        T2,
        S,
        A,
        P,
    >)
        ensures
            r.held_transcriber() == transcriber,
            r.workdir() == self.workdir(),
            r.held_store() == self.held_store(),
            r.held_summarizer() == self.held_summarizer(),
            r.held_audio_handler() == self.held_audio_handler(),
            r.held_channel_scraper() == self.held_channel_scraper(),
            r.max() == self.max(),
            r.chunking() == self.chunking(),
    {
        LiveStreamProcessorBuilder {
            workdir: self.workdir,
            store: self.store,
            transcriber,
            summarizer: self.summarizer,
            audio_handler: self.audio_handler,
            channel_scraper: self.channel_scraper,
            max_streams: self.max_streams,
            chunking_config: self.chunking_config,
        }
    }

    /// The same builder with this summarizer.
    pub fn summarizer<S2>(self, summarizer: S2) -> (r: LiveStreamProcessorBuilder<D, T, S2, A, P>)
        ensures
            r.held_summarizer() == summarizer,
            r.workdir() == self.workdir(),
            r.held_store() == self.held_store(),
            r.held_transcriber() == self.held_transcriber(),
            r.held_audio_handler() == self.held_audio_handler(),
            r.held_channel_scraper() == self.held_channel_scraper(),
            r.max() == self.max(),
            r.chunking() == self.chunking(),
    {
        LiveStreamProcessorBuilder {
            workdir: self.workdir,
            store: self.store,
            transcriber: self.transcriber,
            summarizer,
            audio_handler: self.audio_handler,
            channel_scraper: self.channel_scraper,
            max_streams: self.max_streams,
            chunking_config: self.chunking_config,
        }
    }

    /// The same builder with this audio handler.
    pub fn audio_handler<A2>(self, audio_handler: A2) -> (r: LiveStreamProcessorBuilder<
        D,
        T,
        S,
        A2,
        P,
    >)
        ensures
            r.held_audio_handler() == audio_handler,
            r.workdir() == self.workdir(),
            r.held_store() == self.held_store(),
            r.held_transcriber() == self.held_transcriber(),
            r.held_summarizer() == self.held_summarizer(),
            r.held_channel_scraper() == self.held_channel_scraper(),
            r.max() == self.max(),
            r.chunking() == self.chunking(),
    {
        LiveStreamProcessorBuilder {
            workdir: self.workdir,
            store: self.store,
            transcriber: self.transcriber,
            summarizer: self.summarizer,
            audio_handler,
            channel_scraper: self.channel_scraper,
            max_streams: self.max_streams,
            chunking_config: self.chunking_config,
        }
    }

    /// The same builder with this channel scraper.
    pub fn channel_scraper<P2>(self, channel_scraper: P2) -> (r: LiveStreamProcessorBuilder<
        D,
        T,
        S,
        A,
        P2,
    >)
        ensures
            r.held_channel_scraper() == channel_scraper,
            r.workdir() == self.workdir(),
            r.held_store() == self.held_store(),
            r.held_transcriber() == self.held_transcriber(),
            r.held_summarizer() == self.held_summarizer(),
            r.held_audio_handler() == self.held_audio_handler(),
            r.max() == self.max(),
            r.chunking() == self.chunking(),
    {
        LiveStreamProcessorBuilder {
            workdir: self.workdir,
            store: self.store,
            transcriber: self.transcriber,
            summarizer: self.summarizer,
            audio_handler: self.audio_handler,
            channel_scraper,
            max_streams: self.max_streams,
            chunking_config: self.chunking_config,
        }
    }

    /// The same builder with this cap on a run's batch.
    pub fn max_streams(self, max_streams: usize) -> (r: Self)
        ensures
            r.max() == max_streams,
            r.workdir() == self.workdir(),
            r.held_store() == self.held_store(),
            r.held_transcriber() == self.held_transcriber(),
            r.held_summarizer() == self.held_summarizer(),
            r.held_audio_handler() == self.held_audio_handler(),
            r.held_channel_scraper() == self.held_channel_scraper(),
            r.chunking() == self.chunking(),
    {
        let mut r = self;
        r.max_streams = max_streams;
        r
    }

    /// The same builder with audio cut into chunks of this length.
    pub fn with_chunking(self, chunk_duration_seconds: u16) -> (r: Self)
        ensures
            r.chunking() == Some(ChunkingConfig { chunk_duration_seconds }),
            r.workdir() == self.workdir(),
            r.held_store() == self.held_store(),
            r.held_transcriber() == self.held_transcriber(),
            r.held_summarizer() == self.held_summarizer(),
            r.held_audio_handler() == self.held_audio_handler(),
            r.held_channel_scraper() == self.held_channel_scraper(),
            r.max() == self.max(),
    {
        let mut r = self;
        r.chunking_config = Some(ChunkingConfig { chunk_duration_seconds });
        r
    }

    /// The processor that holds what the builder has collected.
    pub fn build(self) -> (r: LiveStreamProcessor<D, T, S, A, P>)
        ensures
            r.workdir@ == self.workdir(),
            r.store == self.held_store(),
            r.transcriber == self.held_transcriber(),
            r.summarizer == self.held_summarizer(),
            r.audio_handler == self.held_audio_handler(),
            r.channel_scraper == self.held_channel_scraper(),
            r.max_streams == self.max(),
            r.chunking_config == self.chunking(),
    {
        LiveStreamProcessor {
            workdir: self.workdir,
            store: self.store,
            transcriber: self.transcriber,
            summarizer: self.summarizer,
            audio_handler: self.audio_handler,
            channel_scraper: self.channel_scraper,
            max_streams: self.max_streams,
            chunking_config: self.chunking_config,
        }
    }
}

} // verus!
