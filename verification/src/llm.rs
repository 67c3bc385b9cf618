pub mod openai;
pub mod summarizer;
pub mod transcriber;
