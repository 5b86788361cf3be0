//! Requests for a book's record, and the steps in which one is answered.
//!
//! A request names a book by its identifier, by its ISBN, by its title, or by
//! its title and author. Answering it takes up to three pages of the catalog.
//! The library decides which page is needed next and what a page means; the
//! caller gets the pages.

use vstd::prelude::*;
use crate::scraper::errors::{Failure, FetchFailure, FetchFailureView, ScraperError};
use crate::scraper::goodreads_id_fetcher::{
    book_url, fetch_id_from_isbn, fetch_id_from_title, fetch_id_from_title_and_author, first_match,
    id_view, isbn_result, percent_encoded, search_results, search_url, title_and_author_query,
    verify_id_exists,
};
use crate::scraper::metadata_fetcher::{
    fetch_metadata, page_metadata, BookMetadata, BookMetadataView,
};

verus! {

/// What a request under construction knows of its book.
pub trait RequestState {

}

/// Nothing yet.
pub struct EmptyState;

/// The catalog's identifier.
pub struct IdState(String);

/// The ISBN.
pub struct IsbnState(String);

/// The title.
pub struct TitleState(String);

/// The title and the author.
pub struct TitleWithAuthorState(String, String);

/// Another name for the state that knows the title and the author.
pub type TitleAndAuthorState = TitleWithAuthorState;

impl RequestState for EmptyState {

}

impl RequestState for IdState {

}

impl RequestState for IsbnState {

}

impl RequestState for TitleState {

}

impl RequestState for TitleWithAuthorState {

}

/// A request for a book's record. Its state says by what the book is named;
/// only a state that names a book can be executed, and an author can only be
/// added to a title.
pub struct MetadataRequestBuilder<T: RequestState> {
    state: T,
}

/// A page of the catalog that answering a request calls for.
pub enum Step {
    /// The page of the book with this identifier, to see whether it exists.
    CheckId(String),
    /// The search for this ISBN.
    SearchIsbn(String),
    /// The search for this title, for a request by title alone.
    SearchTitle(String),
    /// The search for this title, for a request by this title and author.
    SearchTitleFirst(String, String),
    /// The search for this title and author together.
    SearchTitleAndAuthor(String, String),
    /// The page of the book with this identifier, to read its record.
    ReadRecord(String),
}

/// A step, as a mathematical value.
pub enum StepView {
    CheckId(Seq<char>),
    SearchIsbn(Seq<char>),
    SearchTitle(Seq<char>),
    SearchTitleFirst(Seq<char>, Seq<char>),
    SearchTitleAndAuthor(Seq<char>, Seq<char>),
    ReadRecord(Seq<char>),
}

impl View for Step {
    type V = StepView;

    open spec fn view(&self) -> StepView {
        match self {
            Step::CheckId(id) => StepView::CheckId(id@),
            Step::SearchIsbn(isbn) => StepView::SearchIsbn(isbn@),
            Step::SearchTitle(title) => StepView::SearchTitle(title@),
            Step::SearchTitleFirst(title, author) => StepView::SearchTitleFirst(title@, author@),
            Step::SearchTitleAndAuthor(title, author) => StepView::SearchTitleAndAuthor(
                title@,
                author@,
            ),
            Step::ReadRecord(id) => StepView::ReadRecord(id@),
        }
    }
}

/// What the catalog sent for a page.
pub struct Response {
    /// The status of the answer.
    pub status: u16,
    /// The page.
    pub body: String,
}

/// What came of asking for a page: the catalog's answer, or the message of
/// the failure that kept one from coming.
pub type Answer = Result<Response, String>;

/// The same, as a mathematical value: the status and the page, or the
/// message.
pub type AnswerView = Result<(u16, Seq<char>), Seq<char>>;

/// The view of an answer.
pub open spec fn answer_view(answer: Answer) -> AnswerView {
    match answer {
        Ok(response) => Ok((response.status, response.body@)),
        Err(message) => Err(message@),
    }
}

/// How far a request has come.
pub enum Progress {
    /// Another page is needed.
    Next(Step),
    /// The request is answered: with the record, with the finding that the
    /// catalog has no such book, or with a failure.
    Done(Result<Option<BookMetadata>, ScraperError>),
}

/// Progress, as a mathematical value.
pub enum ProgressView {
    Next(StepView),
    Done(Result<Option<BookMetadataView>, Failure>),
}

impl View for Progress {
    type V = ProgressView;

    open spec fn view(&self) -> ProgressView {
        match self {
            Progress::Next(step) => ProgressView::Next(step@),
            Progress::Done(Ok(Some(record))) => ProgressView::Done(Ok(Some(record@))),
            Progress::Done(Ok(None)) => ProgressView::Done(Ok(None)),
            Progress::Done(Err(error)) => ProgressView::Done(Err(error@)),
        }
    }
}

/// The address of the page that `step` calls for.
pub open spec fn address(step: StepView) -> Seq<char> {
    match step {
        StepView::CheckId(id) => "https://www.goodreads.com/book/show/"@ + id,
        StepView::ReadRecord(id) => "https://www.goodreads.com/book/show/"@ + id,
        StepView::SearchIsbn(isbn) => "https://www.goodreads.com/search?q="@ + percent_encoded(
            isbn,
        ),
        StepView::SearchTitle(title) => "https://www.goodreads.com/search?q="@ + percent_encoded(
            title,
        ),
        StepView::SearchTitleFirst(title, _) => "https://www.goodreads.com/search?q="@
            + percent_encoded(title),
        StepView::SearchTitleAndAuthor(title, author) => "https://www.goodreads.com/search?q="@
            + percent_encoded(title + " "@ + author),
    }
}

/// The page that an answer brought: a status other than 200 to 299, and no
/// answer, are failures to fetch.
pub open spec fn page_of(answer: AnswerView) -> Result<Seq<char>, Failure> {
    match answer {
        Ok((status, body)) => if 200 <= status <= 299 {
            Ok(body)
        } else {
            Err(Failure::Fetch(FetchFailureView::Status(status)))
        },
        Err(message) => Err(Failure::Fetch(FetchFailureView::Transport(message))),
    }
}

/// What follows once a search has looked for an identifier: with one, the
/// book's record is read; without one, `otherwise` follows; a failure ends
/// the request.
pub open spec fn after_search(found: Result<Option<Seq<char>>, Failure>, otherwise: ProgressView) -> ProgressView {
    match found {
        Ok(Some(id)) => ProgressView::Next(StepView::ReadRecord(id)),
        Ok(None) => otherwise,
        Err(failure) => ProgressView::Done(Err(failure)),
    }
}

/// The identifier that the search's answer `html` holds for a title and,
/// where one is given, an author.
pub open spec fn found_in_search(html: Seq<char>, title: Seq<char>, author: Option<Seq<char>>) -> Result<
    Option<Seq<char>>,
    Failure,
> {
    match search_results(html) {
        Ok(results) => Ok(first_match(results, title, author)),
        Err(failure) => Err(failure),
    }
}

/// What the answer to `step` leads to.
///
/// A check for an identifier goes on to the record where the answer has a
/// status from 200 to 299; any other status, and no answer, mean that there
/// is no such book. Every other step needs its page: without it the request
/// fails. A search for an ISBN or a title goes on to the record of the book
/// it finds, and finds no book otherwise. The first search for a title and
/// author looks for a book whose title and author both match; where there is
/// none, the search for both together follows, which looks for the same.
pub open spec fn progress_of(step: StepView, answer: AnswerView) -> ProgressView {
    let nothing = ProgressView::Done(Ok(None));
    match step {
        StepView::CheckId(id) => if answer matches Ok((status, _)) && 200 <= status <= 299 {
            ProgressView::Next(StepView::ReadRecord(id))
        } else {
            nothing
        },
        _ => match page_of(answer) {
            Err(failure) => ProgressView::Done(Err(failure)),
            Ok(html) => match step {
                StepView::CheckId(_) => nothing,
                StepView::SearchIsbn(_) => after_search(isbn_result(html), nothing),
                StepView::SearchTitle(title) => after_search(
                    found_in_search(html, title, None),
                    nothing,
                ),
                StepView::SearchTitleFirst(title, author) => after_search(
                    found_in_search(html, title, Some(author)),
                    ProgressView::Next(StepView::SearchTitleAndAuthor(title, author)),
                ),
                StepView::SearchTitleAndAuthor(title, author) => after_search(
                    found_in_search(html, title, Some(author)),
                    nothing,
                ),
                StepView::ReadRecord(id) => match page_metadata(html, id) {
                    Ok(record) => ProgressView::Done(Ok(Some(record))),
                    Err(failure) => ProgressView::Done(Err(failure)),
                },
            },
        },
    }
}

/// How many more pages a step can call for after its own, at most.
pub open spec fn pages_after(step: StepView) -> nat {
    match step {
        StepView::ReadRecord(_) => 0,
        StepView::SearchTitleFirst(_, _) => 2,
        _ => 1,
    }
}

/// Every request is answered after three pages at most: whatever the answer
/// to a step, the step that follows can call for fewer pages after it.
pub proof fn lemma_steps_run_out(step: StepView, answer: AnswerView)
    ensures
        progress_of(step, answer) matches ProgressView::Next(next) ==> pages_after(next)
            < pages_after(step),
        pages_after(step) <= 2,
{
}

/// A search for a title and author that finds a matching book goes on to
/// that book's record and never asks for the second search.
pub proof fn lemma_first_search_suffices(
    title: Seq<char>,
    author: Seq<char>,
    status: u16,
    html: Seq<char>,
)
    requires
        200 <= status <= 299,
    ensures
        found_in_search(html, title, Some(author)) matches Ok(Some(id)) ==> progress_of(
            StepView::SearchTitleFirst(title, author),
            Ok((status, html)),
        ) == ProgressView::Next(StepView::ReadRecord(id)),
{
}

impl Default for MetadataRequestBuilder<EmptyState> {
    fn default() -> (builder: Self)
        ensures
            builder == MetadataRequestBuilder::<EmptyState>::empty(),
    {
        MetadataRequestBuilder { state: EmptyState }
    }
}

impl MetadataRequestBuilder<EmptyState> {
    /// The request that names no book yet: there is one such request.
    pub closed spec fn empty() -> Self {
        MetadataRequestBuilder { state: EmptyState }
    }

    /// A request that names no book yet.
    pub fn new() -> (builder: Self)
        ensures
            builder == Self::empty(),
    {
        MetadataRequestBuilder { state: EmptyState }
    }

    /// The request for the book with the identifier `id`.
    #[must_use]
    pub fn with_id(self, id: &str) -> (builder: MetadataRequestBuilder<IdState>)
        ensures
            builder.id() == id@,
    {
        MetadataRequestBuilder { state: IdState(id.to_owned()) }
    }

    /// The request for the book with the ISBN `isbn`.
    #[must_use]
    pub fn with_isbn(self, isbn: &str) -> (builder: MetadataRequestBuilder<IsbnState>)
        ensures
            builder.isbn() == isbn@,
    {
        MetadataRequestBuilder { state: IsbnState(isbn.to_owned()) }
    }

    /// The request for the book with the title `title`.
    #[must_use]
    pub fn with_title(self, title: &str) -> (builder: MetadataRequestBuilder<TitleState>)
        ensures
            builder.title() == title@,
    {
        MetadataRequestBuilder { state: TitleState(title.to_owned()) }
    }
}

impl MetadataRequestBuilder<IdState> {
    /// The identifier that the request names.
    pub closed spec fn id(self) -> Seq<char> {
        self.state.0@
    }

    /// The first step of the request: to check that the book exists.
    pub fn execute(&self) -> (step: Step)
        ensures
            step@ == StepView::CheckId(self.id()),
    {
        Step::CheckId(self.state.0.clone())
    }
}

impl MetadataRequestBuilder<IsbnState> {
    /// The ISBN that the request names.
    pub closed spec fn isbn(self) -> Seq<char> {
        self.state.0@
    }

    /// The first step of the request: to search for the ISBN.
    pub fn execute(&self) -> (step: Step)
        ensures
            step@ == StepView::SearchIsbn(self.isbn()),
    {
        Step::SearchIsbn(self.state.0.clone())
    }
}

impl MetadataRequestBuilder<TitleState> {
    /// The title that the request names.
    pub closed spec fn title(self) -> Seq<char> {
        self.state.0@
    }

    /// The request for the book with this title and the author `author`.
    #[must_use]
    pub fn with_author(self, author: &str) -> (builder: MetadataRequestBuilder<
        TitleWithAuthorState,
    >)
        ensures
            builder.title() == self.title(),
            builder.author() == author@,
    {
        MetadataRequestBuilder { state: TitleWithAuthorState(self.state.0, author.to_owned()) }
    }

    /// The first step of the request: to search for the title.
    pub fn execute(&self) -> (step: Step)
        ensures
            step@ == StepView::SearchTitle(self.title()),
    {
        Step::SearchTitle(self.state.0.clone())
    }
}

impl MetadataRequestBuilder<TitleWithAuthorState> {
    /// The title that the request names.
    pub closed spec fn title(self) -> Seq<char> {
        self.state.0@
    }

    /// The author that the request names.
    pub closed spec fn author(self) -> Seq<char> {
        self.state.1@
    }

    /// The first step of the request: to search for the title.
    pub fn execute(&self) -> (step: Step)
        ensures
            step@ == StepView::SearchTitleFirst(self.title(), self.author()),
    {
        Step::SearchTitleFirst(self.state.0.clone(), self.state.1.clone())
    }
}

/// The page that an answer brought.
fn page(answer: Answer) -> (page: Result<String, ScraperError>)
    ensures
        match page {
            Ok(html) => page_of(answer_view(answer)) == Ok::<Seq<char>, Failure>(html@),
            Err(error) => page_of(answer_view(answer)) == Err::<Seq<char>, Failure>(error@),
        },
{
    match answer {
        Ok(response) => if 200 <= response.status && response.status <= 299 {
            Ok(response.body)
        } else {
            Err(ScraperError::FetchError(FetchFailure::Status(response.status)))
        },
        Err(message) => Err(ScraperError::FetchError(FetchFailure::Transport(message))),
    }
}

/// What follows once a search has looked for an identifier.
fn follow(found: Result<Option<String>, ScraperError>, otherwise: Progress) -> (progress: Progress)
    ensures
        progress@ == after_search(id_view(found), otherwise@),
{
    match found {
        Ok(Some(id)) => Progress::Next(Step::ReadRecord(id)),
        Ok(None) => otherwise,
        Err(error) => Progress::Done(Err(error)),
    }
}

impl Step {
    /// The address of the page that the step calls for.
    pub fn url(&self) -> (url: String)
        ensures
            url@ == address(self@),
    {
        match self {
            Step::CheckId(id) => book_url(id.as_str()),
            Step::ReadRecord(id) => book_url(id.as_str()),
            Step::SearchIsbn(isbn) => search_url(isbn.as_str()),
            Step::SearchTitle(title) => search_url(title.as_str()),
            Step::SearchTitleFirst(title, _) => search_url(title.as_str()),
            Step::SearchTitleAndAuthor(title, author) => search_url(
                title_and_author_query(title.as_str(), author.as_str()).as_str(),
            ),
        }
    }

    /// What the answer to the step leads to.
    pub fn advance(self, answer: Answer) -> (progress: Progress)
        ensures
            progress@ == progress_of(self@, answer_view(answer)),
    {
        match self {
            Step::CheckId(id) => {
                let status = match &answer {
                    Ok(response) => Some(response.status),
                    Err(_) => None,
                };
                if verify_id_exists(status) {
                    Progress::Next(Step::ReadRecord(id))
                } else {
                    Progress::Done(Ok(None))
                }
            },
            Step::SearchIsbn(_) => match page(answer) {
                Ok(html) => follow(fetch_id_from_isbn(html.as_str()), Progress::Done(Ok(None))),
                Err(error) => Progress::Done(Err(error)),
            },
            Step::SearchTitle(title) => match page(answer) {
                Ok(html) => follow(
                    fetch_id_from_title(html.as_str(), title.as_str()),
                    Progress::Done(Ok(None)),
                ),
                Err(error) => Progress::Done(Err(error)),
            },
            Step::SearchTitleFirst(title, author) => match page(answer) {
                Ok(html) => {
                    let found = fetch_id_from_title_and_author(
                        html.as_str(),
                        title.as_str(),
                        author.as_str(),
                    );
                    follow(found, Progress::Next(Step::SearchTitleAndAuthor(title, author)))
                },
                Err(error) => Progress::Done(Err(error)),
            },
            Step::SearchTitleAndAuthor(title, author) => match page(answer) {
                Ok(html) => follow(
                    fetch_id_from_title_and_author(html.as_str(), title.as_str(), author.as_str()),
                    Progress::Done(Ok(None)),
                ),
                Err(error) => Progress::Done(Err(error)),
            },
            Step::ReadRecord(id) => match page(answer) {
                Ok(html) => match fetch_metadata(html.as_str(), id.as_str()) {
                    Ok(record) => Progress::Done(Ok(Some(record))),
                    Err(error) => Progress::Done(Err(error)),
                },
                Err(error) => Progress::Done(Err(error)),
            },
        }
    }
}

} // verus!
