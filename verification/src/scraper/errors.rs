//! The ways in which reading the catalog fails.

use vstd::prelude::*;
use vstd::std_specs::convert::FromSpecImpl;

verus! {

/// Why a request to the catalog brought no page.
#[derive(Debug)]
pub enum FetchFailure {
    /// No answer came; the message says why.
    Transport(String),
    /// An answer came with a status other than 200 to 299.
    Status(u16),
}

/// Why the catalog could not be read.
#[derive(Debug)]
pub enum ScraperError {
    /// A request to the catalog failed.
    FetchError(FetchFailure),
    /// A page or a selector was malformed, or a document lacked a path.
    ParseError(String),
    /// A page lacked an element that every such page is expected to have.
    ScrapeError(String),
    /// A text that should be JSON was none.
    SerializeError(serde_json::Error),
}

/// Why a request brought no page, as a mathematical value.
pub enum FetchFailureView {
    Transport(Seq<char>),
    Status(u16),
}

/// Why the catalog could not be read, without what an outside error holds.
pub enum Failure {
    Fetch(FetchFailureView),
    Parse(Seq<char>),
    Scrape(Seq<char>),
    Serialize,
}

impl View for FetchFailure {
    type V = FetchFailureView;

    open spec fn view(&self) -> FetchFailureView {
        match self {
            FetchFailure::Transport(message) => FetchFailureView::Transport(message@),
            FetchFailure::Status(status) => FetchFailureView::Status(*status),
        }
    }
}

impl View for ScraperError {
    type V = Failure;

    open spec fn view(&self) -> Failure {
        match self {
            ScraperError::FetchError(failure) => Failure::Fetch(failure@),
            ScraperError::ParseError(message) => Failure::Parse(message@),
            ScraperError::ScrapeError(message) => Failure::Scrape(message@),
            ScraperError::SerializeError(_) => Failure::Serialize,
        }
    }
}

impl From<FetchFailure> for ScraperError {
    fn from(failure: FetchFailure) -> (out: Self) {
        Self::FetchError(failure)
    }
}

impl FromSpecImpl<FetchFailure> for ScraperError {
    open spec fn obeys_from_spec() -> bool {
        true
    }

    open spec fn from_spec(failure: FetchFailure) -> Self {
        Self::FetchError(failure)
    }
}

impl From<serde_json::Error> for ScraperError {
    fn from(error: serde_json::Error) -> (out: Self) {
        Self::SerializeError(error)
    }
}

impl FromSpecImpl<serde_json::Error> for ScraperError {
    open spec fn obeys_from_spec() -> bool {
        true
    }

    open spec fn from_spec(error: serde_json::Error) -> Self {
        Self::SerializeError(error)
    }
}

impl ScraperError {
    /// The error for a missing element, with `message`.
    pub fn scrape(message: &str) -> (error: Self)
        ensures
            error@ == Failure::Scrape(message@),
    {
        ScraperError::ScrapeError(message.to_owned())
    }

    /// The error for a malformed page or document, with `message`.
    pub fn parse(message: &str) -> (error: Self)
        ensures
            error@ == Failure::Parse(message@),
    {
        ScraperError::ParseError(message.to_owned())
    }
}

} // verus!
