use vstd::prelude::*;

verus! {

/// Why a run stopped. Every failure is fatal to the run it occurs in: the first
/// one met is the one reported.
#[derive(Debug, PartialEq)]
pub enum Error {
    /// The channel page could not be fetched.
    ScrapeError(String),
    /// The page does not hold the expected data: the marker script is absent,
    /// its blob is not valid JSON, or the JSON lacks part of the expected schema.
    ParseError(String),
    /// The lookup of already stored ids failed.
    StorageError(String),
    /// The raw audio of an item could not be fetched, or the fetch reported
    /// success without leaving the expected file.
    AcquisitionError(String),
    /// A step of the audio cleanup chain failed.
    CleanupError(String),
    /// The transcription of an item, or of one of its chunks, failed.
    TranscriptionError(String),
    /// The summary of a transcript could not be produced.
    SummarizationError(String),
    /// An item could not be stored.
    PersistenceError(String),
}

/// The stage of a run at which a failure arises.
#[derive(Clone, Copy, Debug, PartialEq, Eq, Structural)]
pub enum ErrorKind {
    Scrape,
    Parse,
    Storage,
    Acquisition,
    Cleanup,
    Transcription,
    Summarization,
    Persistence,
}

/// What an [`Error`] holds: the stage and the text.
pub struct ErrorView {
    pub kind: ErrorKind,
    pub detail: Seq<char>,
}

impl View for Error {
    type V = ErrorView;

    open spec fn view(&self) -> ErrorView {
        ErrorView { kind: self.kind(), detail: self.detail() }
    }
}

impl Clone for Error {
    fn clone(&self) -> (r: Self)
        ensures
            r == *self,
    {
        match self {
            Error::ScrapeError(m) => Error::ScrapeError(m.clone()),
            Error::ParseError(m) => Error::ParseError(m.clone()),
            Error::StorageError(m) => Error::StorageError(m.clone()),
            Error::AcquisitionError(m) => Error::AcquisitionError(m.clone()),
            Error::CleanupError(m) => Error::CleanupError(m.clone()),
            Error::TranscriptionError(m) => Error::TranscriptionError(m.clone()),
            Error::SummarizationError(m) => Error::SummarizationError(m.clone()),
            Error::PersistenceError(m) => Error::PersistenceError(m.clone()),
        }
    }
}

impl Error {
    /// The stage at which the failure arose.
    pub open spec fn kind(self) -> ErrorKind {
        match self {
            Error::ScrapeError(_) => ErrorKind::Scrape,
            Error::ParseError(_) => ErrorKind::Parse,
            Error::StorageError(_) => ErrorKind::Storage,
            Error::AcquisitionError(_) => ErrorKind::Acquisition,
            Error::CleanupError(_) => ErrorKind::Cleanup,
            Error::TranscriptionError(_) => ErrorKind::Transcription,
            Error::SummarizationError(_) => ErrorKind::Summarization,
            Error::PersistenceError(_) => ErrorKind::Persistence,
        }
    }

    /// Whether this is a parse failure that carries the text `detail`.
    pub open spec fn is_parse(self, detail: Seq<char>) -> bool {
        self matches Error::ParseError(m) && m@ == detail
    }

    /// A parse failure whose text is `prefix` followed by `name`.
    pub fn parse_field(prefix: &str, name: &str) -> (r: Error)
        ensures
            r.is_parse(prefix@ + name@),
    {
        let mut m = String::from_str(prefix);
        m.append(name);
        Error::ParseError(m)
    }

    /// A parse failure with a given text.
    pub fn parse(detail: &str) -> (r: Error)
        ensures
            r.is_parse(detail@),
    {
        Error::ParseError(String::from_str(detail))
    }

    /// A failure at a given stage with a given text.
    pub fn of_kind(kind: ErrorKind, detail: String) -> (r: Error)
        ensures
            r.kind() == kind,
            r.detail() == detail@,
    {
        match kind {
            ErrorKind::Scrape => Error::ScrapeError(detail),
            ErrorKind::Parse => Error::ParseError(detail),
            ErrorKind::Storage => Error::StorageError(detail),
            ErrorKind::Acquisition => Error::AcquisitionError(detail),
            ErrorKind::Cleanup => Error::CleanupError(detail),
            ErrorKind::Transcription => Error::TranscriptionError(detail),
            ErrorKind::Summarization => Error::SummarizationError(detail),
            ErrorKind::Persistence => Error::PersistenceError(detail),
        }
    }

    /// The stage at which this failure arose.
    pub fn error_kind(&self) -> (r: ErrorKind)
        ensures
            r == self.kind(),
    {
        match self {
            Error::ScrapeError(_) => ErrorKind::Scrape,
            Error::ParseError(_) => ErrorKind::Parse,
            Error::StorageError(_) => ErrorKind::Storage,
            Error::AcquisitionError(_) => ErrorKind::Acquisition,
            Error::CleanupError(_) => ErrorKind::Cleanup,
            Error::TranscriptionError(_) => ErrorKind::Transcription,
            Error::SummarizationError(_) => ErrorKind::Summarization,
            Error::PersistenceError(_) => ErrorKind::Persistence,
        }
    }

    /// The text that the failure carries.
    pub open spec fn detail(self) -> Seq<char> {
        match self {
            Error::ScrapeError(m) => m@,
            Error::ParseError(m) => m@,
            Error::StorageError(m) => m@,
            Error::AcquisitionError(m) => m@,
            Error::CleanupError(m) => m@,
            Error::TranscriptionError(m) => m@,
            Error::SummarizationError(m) => m@,
            Error::PersistenceError(m) => m@,
        }
    }

    /// The name of the stage that failed.
    pub open spec fn stage(self) -> Seq<char> {
        match self {
            Error::ScrapeError(_) => "scrape"@,
            Error::ParseError(_) => "parse"@,
            Error::StorageError(_) => "storage"@,
            Error::AcquisitionError(_) => "acquisition"@,
            Error::CleanupError(_) => "cleanup"@,
            Error::TranscriptionError(_) => "transcription"@,
            Error::SummarizationError(_) => "summarization"@,
            Error::PersistenceError(_) => "persistence"@,
        }
    }

    /// The stage name of this failure.
    pub fn stage_name(&self) -> (r: &'static str)
        ensures
            r@ == self.stage(),
    {
        match self {
            Error::ScrapeError(_) => "scrape",
            Error::ParseError(_) => "parse",
            Error::StorageError(_) => "storage",
            Error::AcquisitionError(_) => "acquisition",
            Error::CleanupError(_) => "cleanup",
            Error::TranscriptionError(_) => "transcription",
            Error::SummarizationError(_) => "summarization",
            Error::PersistenceError(_) => "persistence",
        }
    }

    /// The text carried by this failure.
    pub fn detail_text(&self) -> (r: &String)
        ensures
            r@ == self.detail(),
    {
        match self {
            Error::ScrapeError(m) => m,
            Error::ParseError(m) => m,
            Error::StorageError(m) => m,
            Error::AcquisitionError(m) => m,
            Error::CleanupError(m) => m,
            Error::TranscriptionError(m) => m,
            Error::SummarizationError(m) => m,
            Error::PersistenceError(m) => m,
        }
    }

    /// One line for a report: the stage, a colon and a space, then the detail.
    pub fn message(&self) -> (r: String)
        ensures
            r@ == self.stage() + ": "@ + self.detail(),
    {
        let mut out = String::from_str(self.stage_name());
        out.append(": ");
        out.append(self.detail_text().as_str());
        out
    }
}

} // verus!
