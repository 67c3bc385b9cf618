use crate::error::Error;
use crate::llm::summarizer::SummaryResponse;
use crate::types::text_of;
use vstd::prelude::*;

verus! {

/// The model that transcribes.
pub const TRANSCRIPTION_MODEL: &'static str = "whisper-1";

/// The model that summarizes.
pub const SUMMARIZER_MODEL: &'static str = "gpt-4o-search-preview";

/// The address of the backend where none is given.
pub const DEFAULT_BASE_URL: &'static str = "https://api.openai.com/v1";

/// The text of the failure when a completion holds no text.
pub const NO_CONTENT: &'static str = "No content in response";

/// One message of a completion.
#[derive(Debug, PartialEq)]
pub struct CompletionMessage {
    pub role: String,
    pub content: Option<String>,
}

/// One of the answers that a completion offers.
#[derive(Debug, PartialEq)]
pub struct CompletionChoice {
    pub index: u32,
    pub message: CompletionMessage,
    pub finish_reason: String,
}

/// What the backend answers to a completion request.
#[derive(Debug, PartialEq)]
pub struct CompletionResponse {
    pub id: String,
    pub choices: Vec<CompletionChoice>,
}

/// The text of the first choice of a completion, where it has a first choice
/// and that choice has a text.
pub open spec fn first_content(choices: Seq<CompletionChoice>) -> Option<Seq<char>> {
    if choices.len() > 0 {
        text_of(choices[0].message.content)
    } else {
        None
    }
}

/// The address to which audio is sent.
pub fn transcriptions_url(base_url: &str) -> (r: String)
    ensures
        r@ == base_url@ + "/audio/transcriptions"@,
{
    let mut url = String::from_str(base_url);
    url.append("/audio/transcriptions");
    url
}

/// The address to which a completion request is sent.
pub fn completions_url(base_url: &str) -> (r: String)
    ensures
        r@ == base_url@ + "/chat/completions"@,
{
    let mut url = String::from_str(base_url);
    url.append("/chat/completions");
    url
}

/// Whether an HTTP status says that a request went well.
pub fn is_success(status: u16) -> (r: bool)
    ensures
        r == (200 <= status < 300),
{
    200 <= status && status < 300
}

/// The summary that a completion holds: the text of its first choice. A
/// completion without a choice, or whose first choice has no text, is a
/// failure of the summarization.
pub fn summary_of(response: &CompletionResponse) -> (r: Result<SummaryResponse, Error>)
    ensures
        match r {
            Ok(s) => first_content(response.choices@) == Some(s@),
            Err(e) => {
                &&& first_content(response.choices@) is None
                &&& e matches Error::SummarizationError(m)
                &&& m@ == NO_CONTENT@
            },
        },
{
    if response.choices.len() > 0 {
        match &response.choices[0].message.content {
            Some(text) => {
                return Ok(SummaryResponse { summary: text.clone() });
            },
            None => {},
        }
    }
    Err(Error::SummarizationError(String::from_str(NO_CONTENT)))
}

} // verus!
