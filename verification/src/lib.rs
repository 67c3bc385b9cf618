//! Takes up the recordings of past sittings that a channel page lists: picks
//! the ones that are not stored yet, oldest first, has their audio fetched and
//! cleaned, transcribed and summarized, and has each stored once.
//!
//! The library decides and the program around it acts: a run, and the work on
//! the audio and the transcript of one recording, each ask for one thing at a
//! time and are told how that went.

pub mod datastore;
pub mod domain;
pub mod error;
pub mod json;
pub mod llm;
pub mod parser;
pub mod processor;
pub mod selection;
pub mod text;
pub mod types;
pub mod yt;

pub use crate::domain::Stream;
pub use crate::error::Error;
pub use crate::llm::openai;
pub use crate::llm::summarizer::SummaryResponse;
pub use crate::llm::transcriber::{AudioInput, TranscribeResponse};
pub use crate::parser::{parse_streams, YtHtmlDocument};
pub use crate::processor::builder::LiveStreamProcessorBuilder;
pub use crate::processor::LiveStreamProcessor;
