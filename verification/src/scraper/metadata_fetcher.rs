//! Reading a book's record out of the reference graph that its page embeds.
//!
//! The graph is a JSON document. Under `props`, `pageProps`, `apolloState` it
//! holds a map from keys to nodes; a member of a node is a plain value or an
//! object whose member `__ref` is the key of another node.

use vstd::prelude::*;
use crate::json::{trees, Json, JsonView};
use crate::numbers::{decimal, decimal_text, float_literal, is_float_literal};
use crate::html::{outcome_view, select, selection, Found, FoundView};
use crate::json::{parse, tree_of_text};
use crate::scraper::errors::{Failure, ScraperError};
use crate::text::{
    after_first, before_first, chars_of, collapse_white_space, head_before, lowercase, starts_with,
    string_of, strip_prefix, tail_after, text_view, trim, trimmed, without_prefix,
};

verus! {

/// Someone who contributed to a book, such as an author or an illustrator.
#[derive(Debug, PartialEq, Clone)]
pub struct BookContributor {
    /// The contributor's name.
    pub name: String,
    /// The contributor's role, such as "Author" or "Illustrator".
    pub role: String,
    /// The catalog's identifier of the contributor.
    pub goodreads_id: String,
}

/// A series that a book belongs to, and the book's place in it.
#[derive(Debug, PartialEq, Clone)]
pub struct BookSeries {
    /// The title of the series.
    pub title: String,
    /// The book's position in the series, as the number's spelling: it may
    /// have a fraction, as in "1.5".
    pub number: String,
    /// The catalog's identifier of the series.
    pub goodreads_id: String,
}

/// What the catalog's record says of a book.
#[derive(Debug, PartialEq, Clone)]
pub struct BookMetadata {
    /// The title, without a subtitle.
    pub title: String,
    /// When the book was published, in milliseconds since the start of 1970,
    /// UTC.
    pub publication_date: Option<i64>,
    /// Those who wrote the book.
    pub contributors: Vec<BookContributor>,
    /// The series that the book belongs to.
    pub series: Vec<BookSeries>,
    /// The number of pages.
    pub page_count: Option<i64>,
    /// The address of a picture of the cover.
    pub image_url: Option<String>,
    /// The catalog's identifier of the book: the one the record was read by.
    pub goodreads_id: String,
}

pub struct BookContributorView {
    pub name: Seq<char>,
    pub role: Seq<char>,
    pub goodreads_id: Seq<char>,
}

pub struct BookSeriesView {
    pub title: Seq<char>,
    pub number: Seq<char>,
    pub goodreads_id: Seq<char>,
}

pub struct BookMetadataView {
    pub title: Seq<char>,
    pub publication_date: Option<i64>,
    pub contributors: Seq<BookContributorView>,
    pub series: Seq<BookSeriesView>,
    pub page_count: Option<i64>,
    pub image_url: Option<Seq<char>>,
    pub goodreads_id: Seq<char>,
}

impl View for BookContributor {
    type V = BookContributorView;

    open spec fn view(&self) -> BookContributorView {
        BookContributorView { name: self.name@, role: self.role@, goodreads_id: self.goodreads_id@ }
    }
}

impl View for BookSeries {
    type V = BookSeriesView;

    open spec fn view(&self) -> BookSeriesView {
        BookSeriesView {
            title: self.title@,
            number: self.number@,
            goodreads_id: self.goodreads_id@,
        }
    }
}

/// The views of `contributors`.
pub open spec fn contributor_views(contributors: Seq<BookContributor>) -> Seq<BookContributorView> {
    contributors.map_values(|contributor: BookContributor| contributor@)
}

/// The views of `series`.
pub open spec fn series_views(series: Seq<BookSeries>) -> Seq<BookSeriesView> {
    series.map_values(|entry: BookSeries| entry@)
}

impl View for BookMetadata {
    type V = BookMetadataView;

    open spec fn view(&self) -> BookMetadataView {
        BookMetadataView {
            title: self.title@,
            publication_date: self.publication_date,
            contributors: contributor_views(self.contributors@),
            series: series_views(self.series@),
            page_count: self.page_count,
            image_url: text_view(self.image_url),
            goodreads_id: self.goodreads_id@,
        }
    }
}

/// The node of the graph `root` under `key`; `Null` where there is none.
pub open spec fn node(root: JsonView, key: Seq<char>) -> JsonView {
    root.member("props"@).member("pageProps"@).member("apolloState"@).member(key)
}

/// `text` without white space at its ends and with every run of white space
/// inside it collapsed to one space.
pub open spec fn normalized(text: Seq<char>) -> Seq<char> {
    collapse_white_space(trim(text))
}

/// The text that a value of the graph stands for: of a string its normalized
/// text, unless that is empty; of anything else, nothing.
pub open spec fn clean_text(value: JsonView) -> Option<Seq<char>> {
    match value.text() {
        Some(text) => if normalized(text).len() > 0 {
            Some(normalized(text))
        } else {
            None
        },
        None => None,
    }
}

/// The key that a reference points to.
pub open spec fn reference(value: JsonView) -> Option<Seq<char>> {
    clean_text(value.member("__ref"@))
}

/// The key under which the root query holds the reference to the book with
/// the identifier `goodreads_id`.
pub open spec fn root_query_key(goodreads_id: Seq<char>) -> Seq<char> {
    "getBookByLegacyId({\"legacyId\":\""@ + goodreads_id + "\"})"@
}

/// The key of the node of the book with the identifier `goodreads_id`.
pub open spec fn book_key(root: JsonView, goodreads_id: Seq<char>) -> Option<Seq<char>> {
    reference(node(root, "ROOT_QUERY"@).member(root_query_key(goodreads_id)))
}

/// The title and the subtitle of the book under `key`: its title member, cut
/// at the first colon; the subtitle is trimmed.
pub open spec fn title_and_subtitle(root: JsonView, key: Seq<char>) -> Option<
    (Seq<char>, Option<Seq<char>>),
> {
    match clean_text(node(root, key).member("title"@)) {
        Some(full) => Some(
            (
                before_first(full, ':'),
                match after_first(full, ':') {
                    Some(rest) => Some(trim(rest)),
                    None => None,
                },
            ),
        ),
        None => None,
    }
}

/// The address of the cover's picture of the book under `key`.
pub open spec fn image_url(root: JsonView, key: Seq<char>) -> Option<Seq<char>> {
    clean_text(node(root, key).member("imageUrl"@))
}

/// The number of pages of the book under `key`: the integer that its
/// details give, where that is positive; a count of zero or less is none.
pub open spec fn page_count(root: JsonView, key: Seq<char>) -> Option<i64> {
    match node(root, key).member("details"@).member("numPages"@).integer() {
        Some(count) => if count <= 0 {
            None
        } else {
            Some(count)
        },
        None => None,
    }
}

/// The publisher of the book under `key`.
pub open spec fn publisher(root: JsonView, key: Seq<char>) -> Option<Seq<char>> {
    clean_text(node(root, key).member("details"@).member("publisher"@))
}

/// The language of the book under `key`.
pub open spec fn language(root: JsonView, key: Seq<char>) -> Option<Seq<char>> {
    clean_text(node(root, key).member("details"@).member("language"@).member("name"@))
}

/// The first of `first` and `second` that is there.
pub open spec fn or_else(first: Option<Seq<char>>, second: Option<Seq<char>>) -> Option<Seq<char>> {
    match first {
        Some(text) => Some(text),
        None => second,
    }
}

/// The ISBN of the book under `key`: its ISBN of ten digits where the record
/// gives one, else its ISBN of thirteen, else the identifier under which the
/// retailer lists it.
pub open spec fn isbn(root: JsonView, key: Seq<char>) -> Option<Seq<char>> {
    let details = node(root, key).member("details"@);
    or_else(
        clean_text(details.member("isbn"@)),
        or_else(clean_text(details.member("isbn13"@)), clean_text(details.member("asin"@))),
    )
}

/// Reads the name of a genre off an edge to it.
pub open spec fn genre_reader() -> spec_fn(JsonView) -> Option<Seq<char>> {
    |edge: JsonView| clean_text(edge.member("genre"@).member("name"@))
}

/// The genres of the book under `key`, in the order of their edges.
pub open spec fn genres(root: JsonView, key: Seq<char>) -> Seq<Seq<char>> {
    match node(root, key).member("bookGenres"@).items() {
        Some(edges) => edges.filter_map(genre_reader()),
        None => Seq::empty(),
    }
}

/// Whether `millis` milliseconds since the start of 1970 lie within the
/// years that a date can hold: from the start of the year -262143 to the end
/// of the year 262142.
pub open spec fn is_instant(millis: i64) -> bool {
    -8_334_601_228_800_000 <= millis <= 8_210_266_876_799_999
}

/// The publication time of the book under `key`, in milliseconds since the
/// start of 1970: its member, where that is a number, an integer, and an
/// instant.
pub open spec fn publication_date(root: JsonView, key: Seq<char>) -> Option<i64> {
    match node(root, key).member("details"@).member("publicationTime"@).integer() {
        Some(millis) => if is_instant(millis) {
            Some(millis)
        } else {
            None
        },
        None => None,
    }
}

/// What every address of an author's page begins with.
pub open spec fn author_address() -> Seq<char> {
    "https://www.goodreads.com/author/show/"@
}

/// What every address of a series' page begins with.
pub open spec fn series_address() -> Seq<char> {
    "https://www.goodreads.com/series/"@
}

/// The catalog's identifier of the person at the node `person`: its legacy
/// identifier in decimal where it has one, else what stands between the
/// start of an author's address and the first point in its web address.
pub open spec fn contributor_id(person: JsonView) -> Option<Seq<char>> {
    match person.member("legacyId"@).integer() {
        Some(legacy) => Some(decimal(legacy as int)),
        None => match person.member("webUrl"@).text() {
            Some(url) => if starts_with(url, author_address()) {
                Some(before_first(url.skip(author_address().len() as int), '.'))
            } else {
                None
            },
            None => None,
        },
    }
}

/// The contributor in the role `role` whose node stands under `key`: there
/// is one where the node has a name and an identifier.
pub open spec fn contributor(root: JsonView, role: Seq<char>, key: Seq<char>) -> Option<
    BookContributorView,
> {
    let person = node(root, key);
    match (clean_text(person.member("name"@)), contributor_id(person)) {
        (Some(name), Some(goodreads_id)) => Some(BookContributorView { name, role, goodreads_id }),
        _ => None,
    }
}

/// Whether `lowered`, a name in lower case, is the name that stands for an
/// author that nobody knows.
pub open spec fn names_nobody(lowered: Seq<char>) -> bool {
    lowered == "unknown author"@
}

/// Whether the contributor stands for an author that nobody knows: its name
/// is "unknown author" in some mix of cases.
pub open spec fn is_unknown_author(contributor: BookContributorView) -> bool {
    names_nobody(lowercase(contributor.name))
}

/// `contributor`, unless it stands for an unknown author.
pub open spec fn known(contributor: Option<BookContributorView>) -> Option<BookContributorView> {
    match contributor {
        Some(contributor) => if is_unknown_author(contributor) {
            None
        } else {
            Some(contributor)
        },
        None => None,
    }
}

/// The contributor that the edge `edge` leads to, whatever its role.
pub open spec fn edge_contributor(root: JsonView, edge: JsonView) -> Option<BookContributorView> {
    match (clean_text(edge.member("role"@)), reference(edge.member("node"@))) {
        (Some(role), Some(key)) => contributor(root, role, key),
        _ => None,
    }
}

/// The contributor that the edge `edge` leads to, where its role is exactly
/// "Author".
pub open spec fn edge_author(root: JsonView, edge: JsonView) -> Option<BookContributorView> {
    if clean_text(edge.member("role"@)) == Some("Author"@) {
        edge_contributor(root, edge)
    } else {
        None
    }
}

/// Reads a secondary edge of the graph `root`: its author, if known.
pub open spec fn secondary_reader(root: JsonView) -> spec_fn(JsonView) -> Option<
    BookContributorView,
> {
    |edge: JsonView| known(edge_author(root, edge))
}

/// The one item of `item`, or none.
pub open spec fn listed<T>(item: Option<T>) -> Seq<T> {
    match item {
        Some(item) => seq![item],
        None => Seq::empty(),
    }
}

/// Those who wrote the book under `key`: its primary contributor, whatever
/// the role, and then, in their order, the secondary contributors whose role
/// is "Author"; but nobody who stands for an unknown author.
pub open spec fn contributors_of(root: JsonView, key: Seq<char>) -> Seq<BookContributorView> {
    let book = node(root, key);
    let primary = listed(known(edge_contributor(root, book.member("primaryContributorEdge"@))));
    match book.member("secondaryContributorEdges"@).items() {
        Some(edges) => primary + edges.filter_map(secondary_reader(root)),
        None => primary,
    }
}

/// The catalog's identifier of a series with the web address `url`: what
/// stands before the first hyphen, once the start of a series' address is
/// taken off.
pub open spec fn series_id(url: JsonView) -> Option<Seq<char>> {
    match url.text() {
        Some(url) => Some(before_first(strip_prefix(url, series_address()), '-')),
        None => None,
    }
}

/// The position that a series edge gives: what stands before the first
/// hyphen of its member `userPosition`, where that spells a number.
pub open spec fn series_position(entry: JsonView) -> Option<Seq<char>> {
    match entry.member("userPosition"@).text() {
        Some(position) => if is_float_literal(before_first(position, '-')) {
            Some(before_first(position, '-'))
        } else {
            None
        },
        None => None,
    }
}

/// The series that the edge `entry` leads to: there is one where the edge
/// has a position and a reference to a node with a title and a web address.
pub open spec fn series_entry(root: JsonView, entry: JsonView) -> Option<BookSeriesView> {
    match (series_position(entry), reference(entry.member("series"@))) {
        (Some(number), Some(key)) => match (
            clean_text(node(root, key).member("title"@)),
            series_id(node(root, key).member("webUrl"@)),
        ) {
            (Some(title), Some(goodreads_id)) => Some(
                BookSeriesView { title, number, goodreads_id },
            ),
            _ => None,
        },
        _ => None,
    }
}

/// Reads a series edge of the graph `root`.
pub open spec fn series_reader(root: JsonView) -> spec_fn(JsonView) -> Option<BookSeriesView> {
    |entry: JsonView| series_entry(root, entry)
}

/// The series of the book under `key`, in the order of its edges.
pub open spec fn series_of(root: JsonView, key: Seq<char>) -> Seq<BookSeriesView> {
    match node(root, key).member("bookSeries"@).items() {
        Some(entries) => entries.filter_map(series_reader(root)),
        None => Seq::empty(),
    }
}

/// The record of the book with the identifier `goodreads_id` in the graph
/// `root`, or what the graph lacks for it. Only the reference to the book
/// and the title are needed: everything else may be missing.
pub open spec fn metadata_of(root: JsonView, goodreads_id: Seq<char>) -> Result<
    BookMetadataView,
    Failure,
> {
    match book_key(root, goodreads_id) {
        Some(key) => match title_and_subtitle(root, key) {
            Some(titles) => Ok(
                BookMetadataView {
                    title: titles.0,
                    publication_date: publication_date(root, key),
                    contributors: contributors_of(root, key),
                    series: series_of(root, key),
                    page_count: page_count(root, key),
                    image_url: image_url(root, key),
                    goodreads_id,
                },
            ),
            None => Err(Failure::Scrape("Failed to scrape book title"@)),
        },
        None => Err(Failure::Scrape("Failed to scrape Amazon ID"@)),
    }
}

/// The view of the outcome of reading a record.
pub open spec fn record_view(record: Result<BookMetadata, ScraperError>) -> Result<
    BookMetadataView,
    Failure,
> {
    match record {
        Ok(record) => Ok(record@),
        Err(error) => Err(error@),
    }
}

/// The page count of a record is positive or missing.
pub proof fn lemma_page_count_is_positive(root: JsonView, goodreads_id: Seq<char>)
    ensures
        metadata_of(root, goodreads_id) matches Ok(record) ==> (record.page_count matches Some(
            pages,
        ) ==> pages > 0),
{
}

/// Reading a record fails only for want of the book's node or of its title:
/// where the graph refers to the book and the book has a title, there is a
/// record, whatever else the graph lacks.
pub proof fn lemma_only_book_and_title_are_needed(root: JsonView, goodreads_id: Seq<char>)
    ensures
        metadata_of(root, goodreads_id).is_ok() <==> (book_key(root, goodreads_id).is_some()
            && title_and_subtitle(root, book_key(root, goodreads_id).unwrap()).is_some()),
        metadata_of(root, goodreads_id).is_err() ==> (book_key(root, goodreads_id).is_none()
            || title_and_subtitle(root, book_key(root, goodreads_id).unwrap()).is_none()),
{
}

/// The selector of the element in which a page embeds its data.
pub open spec fn data_selector() -> Seq<char> {
    "script[id=\"__NEXT_DATA__\"]"@
}

/// The document that a selection of data elements gives: the JSON in the
/// text of the first. A refused selector is a `Parse` failure with its
/// message, a selection of nothing a `Scrape` failure, and a text that is no
/// JSON a `Serialize` failure.
pub open spec fn document_of(outcome: Result<Seq<FoundView>, Seq<char>>) -> Result<
    JsonView,
    Failure,
> {
    match outcome {
        Ok(found) => if found.len() == 0 {
            Err(Failure::Scrape("Failed to scrape book metadata"@))
        } else {
            match tree_of_text(found[0].0) {
                Some(tree) => Ok(tree),
                None => Err(Failure::Serialize),
            }
        },
        Err(message) => Err(Failure::Parse(message)),
    }
}

/// The document that the page `html` embeds.
pub open spec fn page_document(html: Seq<char>) -> Result<JsonView, Failure> {
    document_of(selection(html, data_selector(), "id"@))
}

/// The record of the book with the identifier `goodreads_id` on its page
/// `html`.
pub open spec fn page_metadata(html: Seq<char>, goodreads_id: Seq<char>) -> Result<
    BookMetadataView,
    Failure,
> {
    match page_document(html) {
        Ok(root) => metadata_of(root, goodreads_id),
        Err(failure) => Err(failure),
    }
}

/// The view of a document that was read, or of why it was not.
pub open spec fn document_view(document: Result<Json, ScraperError>) -> Result<JsonView, Failure> {
    match document {
        Ok(tree) => Ok(tree@),
        Err(error) => Err(error@),
    }
}

/// The tree behind a value that may be missing: `Null` for a missing one.
pub open spec fn tree_or_null(value: Option<&Json>) -> JsonView {
    match value {
        Some(value) => value@,
        None => JsonView::Null,
    }
}

/// The pattern of a run of two or more white-space characters.
pub open spec fn white_space_run() -> Seq<char> {
    "\\s{2,}"@
}

/// `regex::Regex::new` on the pattern for a run of two or more white-space
/// characters, and `Regex::replace_all` on `text` with the expression that
/// it gives. The pattern is well-formed, so the expression is there; each
/// match is a maximal run of the characters with the property White_Space.
#[verifier::external_body]
fn replace_runs(pattern: &str, text: &str, replacement: &str) -> (out: Option<String>)
    requires
        pattern@ == white_space_run(),
        replacement@ == " "@,
    ensures
        text_view(out) == Some(collapse_white_space(text@)),
{
    match regex::Regex::new(pattern) {
        Ok(expression) => Some(expression.replace_all(text, replacement).into_owned()),
        Err(_) => None,
    }
}

/// `chrono::DateTime::from_timestamp_millis`, and `DateTime::timestamp_millis`
/// of the instant that it gives. The first accepts the milliseconds that
/// fall on a day of the years from -262143 to 262142; the second gives the
/// same number back.
#[verifier::external_body]
fn instant_millis(millis: i64) -> (instant: Option<i64>)
    ensures
        instant == if is_instant(millis) {
            Some(millis)
        } else {
            None::<i64>
        },
{
    chrono::DateTime::from_timestamp_millis(millis).map(|instant| instant.timestamp_millis())
}

/// The member of `value` under `key`.
fn field<'a>(value: Option<&'a Json>, key: &str) -> (found: Option<&'a Json>)
    ensures
        tree_or_null(found) == tree_or_null(value).member(key@),
{
    match value {
        Some(value) => value.get(key),
        None => None,
    }
}

/// The node of the graph under `key`.
fn graph_node<'a>(metadata: &'a Json, key: &str) -> (found: Option<&'a Json>)
    ensures
        tree_or_null(found) == node(metadata@, key@),
{
    let props = metadata.get("props");
    let page = field(props, "pageProps");
    let state = field(page, "apolloState");
    field(state, key)
}

/// The text that `value` stands for.
pub fn to_string(value: Option<&Json>) -> (text: Option<String>)
    ensures
        text_view(text) == clean_text(tree_or_null(value)),
{
    let raw = match value {
        Some(value) => value.as_str(),
        None => None,
    };
    match raw {
        Some(raw) => {
            let cut = string_of(&trimmed(&chars_of(raw)));
            match replace_runs("\\s{2,}", cut.as_str(), " ") {
                Some(replaced) => if replaced.as_str().is_empty() {
                    None
                } else {
                    Some(replaced)
                },
                None => None,
            }
        },
        None => None,
    }
}

/// The key of the node of the book with the identifier `goodreads_id`. It
/// fails with a `ScrapeError` where the graph holds no reference to that
/// book.
pub fn extract_amazon_id(metadata: &Json, goodreads_id: &str) -> (key: Result<String, ScraperError>)
    ensures
        match key {
            Ok(key) => book_key(metadata@, goodreads_id@) == Some(key@),
            Err(error) => book_key(metadata@, goodreads_id@).is_none() && error@
                == Failure::Scrape("Failed to scrape Amazon ID"@),
        },
{
    let mut query = "getBookByLegacyId({\"legacyId\":\"".to_owned();
    query.append(goodreads_id);
    query.append("\"})");
    let root_query = graph_node(metadata, "ROOT_QUERY");
    let book = field(root_query, query.as_str());
    match to_string(field(book, "__ref")) {
        Some(key) => Ok(key),
        None => Err(ScraperError::scrape("Failed to scrape Amazon ID")),
    }
}

/// The title and the subtitle of the book under `amazon_id`. It fails with a
/// `ScrapeError` where the book has no title.
pub fn extract_title_and_subtitle(metadata: &Json, amazon_id: &str) -> (found: Result<
    (String, Option<String>),
    ScraperError,
>)
    ensures
        match found {
            Ok(found) => title_and_subtitle(metadata@, amazon_id@) == Some(
                (found.0@, text_view(found.1)),
            ),
            Err(error) => title_and_subtitle(metadata@, amazon_id@).is_none() && error@
                == Failure::Scrape("Failed to scrape book title"@),
        },
{
    let book = graph_node(metadata, amazon_id);
    match to_string(field(book, "title")) {
        Some(full) => {
            let chars = chars_of(full.as_str());
            let title = string_of(&head_before(&chars, ':'));
            match tail_after(&chars, ':') {
                Some(rest) => Ok((title, Some(string_of(&trimmed(&rest))))),
                None => Ok((title, None)),
            }
        },
        None => Err(ScraperError::scrape("Failed to scrape book title")),
    }
}

/// The address of the cover's picture of the book under `amazon_id`.
pub fn extract_image_url(metadata: &Json, amazon_id: &str) -> (url: Option<String>)
    ensures
        text_view(url) == image_url(metadata@, amazon_id@),
{
    let book = graph_node(metadata, amazon_id);
    to_string(field(book, "imageUrl"))
}

/// The publication time of the book under `amazon_id`.
pub fn extract_publication_date(metadata: &Json, amazon_id: &str) -> (date: Option<i64>)
    ensures
        date == publication_date(metadata@, amazon_id@),
{
    let book = graph_node(metadata, amazon_id);
    match field(field(book, "details"), "publicationTime") {
        Some(time) => match time.as_i64() {
            Some(millis) => instant_millis(millis),
            None => None,
        },
        None => None,
    }
}

/// The number of pages of the book under `amazon_id`: a positive number, or
/// none.
pub fn extract_page_count(metadata: &Json, amazon_id: &str) -> (count: Option<i64>)
    ensures
        count == page_count(metadata@, amazon_id@),
        count matches Some(pages) ==> pages > 0,
{
    let book = graph_node(metadata, amazon_id);
    let count = match field(field(book, "details"), "numPages") {
        Some(pages) => pages.as_i64(),
        None => None,
    };
    match count {
        Some(pages) => if pages <= 0 {
            None
        } else {
            Some(pages)
        },
        None => None,
    }
}

/// The publisher of the book under `amazon_id`.
pub fn extract_publisher(metadata: &Json, amazon_id: &str) -> (name: Option<String>)
    ensures
        text_view(name) == publisher(metadata@, amazon_id@),
{
    let book = graph_node(metadata, amazon_id);
    to_string(field(field(book, "details"), "publisher"))
}

/// The language of the book under `amazon_id`.
pub fn extract_language(metadata: &Json, amazon_id: &str) -> (name: Option<String>)
    ensures
        text_view(name) == language(metadata@, amazon_id@),
{
    let book = graph_node(metadata, amazon_id);
    to_string(field(field(field(book, "details"), "language"), "name"))
}

/// The ISBN of the book under `amazon_id`.
pub fn extract_isbn(metadata: &Json, amazon_id: &str) -> (number: Option<String>)
    ensures
        text_view(number) == isbn(metadata@, amazon_id@),
{
    let details = field(graph_node(metadata, amazon_id), "details");
    match to_string(field(details, "isbn")) {
        Some(short) => Some(short),
        None => match to_string(field(details, "isbn13")) {
            Some(long) => Some(long),
            None => to_string(field(details, "asin")),
        },
    }
}

/// The views of `texts`.
pub open spec fn text_views(texts: Seq<String>) -> Seq<Seq<char>> {
    texts.map_values(|text: String| text@)
}

/// The genres of the book under `amazon_id`.
pub fn extract_genres(metadata: &Json, amazon_id: &str) -> (found: Vec<String>)
    ensures
        text_views(found@) == genres(metadata@, amazon_id@),
{
    let book = graph_node(metadata, amazon_id);
    let mut found: Vec<String> = Vec::new();
    let edges = match field(book, "bookGenres") {
        Some(edges) => edges.as_array(),
        None => None,
    };
    assert(text_views(found@) =~= Seq::empty());
    match edges {
        Some(edges) => {
            let mut i: usize = 0;
            assert(trees(edges@).take(0).filter_map(genre_reader()) =~= Seq::empty());
            while i < edges.len()
                invariant
                    i <= edges.len(),
                    text_views(found@) == trees(edges@).take(i as int).filter_map(genre_reader()),
                decreases edges.len() - i,
            {
                let name = to_string(field(edges[i].get("genre"), "name"));
                proof {
                    trees(edges@).lemma_filter_map_take_succ(genre_reader(), i as int);
                    assert(trees(edges@)[i as int] == edges@[i as int]@);
                }
                match name {
                    Some(name) => {
                        proof {
                            assert(text_views(found@.push(name)) =~= text_views(found@).push(name@));
                        }
                        found.push(name);
                    },
                    None => {},
                }
                i += 1;
            }
            assert(trees(edges@).take(edges@.len() as int) == trees(edges@));
        },
        None => {},
    }
    found
}

/// The catalog's identifier of the person at `person`.
fn person_id(person: Option<&Json>) -> (id: Option<String>)
    ensures
        text_view(id) == contributor_id(tree_or_null(person)),
{
    let legacy = match field(person, "legacyId") {
        Some(value) => value.as_i64(),
        None => None,
    };
    match legacy {
        Some(legacy) => Some(string_of(&decimal_text(legacy))),
        None => {
            let url = match field(person, "webUrl") {
                Some(value) => value.as_str(),
                None => None,
            };
            match url {
                Some(url) => {
                    let start = chars_of("https://www.goodreads.com/author/show/");
                    match without_prefix(&chars_of(url), &start) {
                        Some(rest) => Some(string_of(&head_before(&rest, '.'))),
                        None => None,
                    }
                },
                None => None,
            }
        },
    }
}

/// The contributor in the role and under the key of `role_and_key`.
pub fn fetch_contributor(metadata: &Json, role_and_key: (String, String)) -> (found: Option<
    BookContributor,
>)
    ensures
        match found {
            Some(found) => contributor(metadata@, role_and_key.0@, role_and_key.1@) == Some(found@),
            None => contributor(metadata@, role_and_key.0@, role_and_key.1@).is_none(),
        },
{
    let (role, key) = role_and_key;
    let person = graph_node(metadata, key.as_str());
    let name = to_string(field(person, "name"));
    let goodreads_id = person_id(person);
    match (name, goodreads_id) {
        (Some(name), Some(goodreads_id)) => Some(BookContributor { name, role, goodreads_id }),
        _ => None,
    }
}

/// `contributor`, unless `lowered`, which is its name in lower case, is the
/// name that stands for an author that nobody knows.
pub fn keep_known(contributor: BookContributor, lowered: &str) -> (kept: Option<BookContributor>)
    ensures
        kept == if names_nobody(lowered@) {
            None
        } else {
            Some(contributor)
        },
{
    if lowered.to_owned() == "unknown author".to_owned() {
        None
    } else {
        Some(contributor)
    }
}

/// The contributor that `edge` leads to; only an author, where `authors_only`.
fn read_edge(metadata: &Json, edge: Option<&Json>, authors_only: bool) -> (found: Option<
    BookContributor,
>)
    ensures
        match found {
            Some(found) => Some(found@),
            None => None,
        } == known(
            if authors_only {
                edge_author(metadata@, tree_or_null(edge))
            } else {
                edge_contributor(metadata@, tree_or_null(edge))
            },
        ),
{
    let role = to_string(field(edge, "role"));
    let key = to_string(field(field(edge, "node"), "__ref"));
    match (role, key) {
        (Some(role), Some(key)) => {
            if authors_only && role != "Author".to_owned() {
                return None;
            }
            match fetch_contributor(metadata, (role, key)) {
                Some(found) => {
                    let lowered = found.name.as_str().to_lowercase();
                    keep_known(found, lowered.as_str())
                },
                None => None,
            }
        },
        _ => None,
    }
}

/// Those who wrote the book under `amazon_id`.
pub fn extract_contributors(metadata: &Json, amazon_id: &str) -> (found: Vec<BookContributor>)
    ensures
        contributor_views(found@) == contributors_of(metadata@, amazon_id@),
{
    let book = graph_node(metadata, amazon_id);
    let mut found: Vec<BookContributor> = Vec::new();
    match read_edge(metadata, field(book, "primaryContributorEdge"), false) {
        Some(primary) => {
            found.push(primary);
        },
        None => {},
    }
    let ghost primary = contributor_views(found@);
    assert(primary =~= listed(
        known(edge_contributor(metadata@, node(metadata@, amazon_id@).member("primaryContributorEdge"@))),
    ));
    let edges = match field(book, "secondaryContributorEdges") {
        Some(edges) => edges.as_array(),
        None => None,
    };
    match edges {
        Some(edges) => {
            let ghost reader = secondary_reader(metadata@);
            let mut i: usize = 0;
            assert(trees(edges@).take(0).filter_map(reader) =~= Seq::empty());
            while i < edges.len()
                invariant
                    i <= edges.len(),
                    reader == secondary_reader(metadata@),
                    contributor_views(found@) == primary + trees(edges@).take(i as int).filter_map(
                        reader,
                    ),
                decreases edges.len() - i,
            {
                let author = read_edge(metadata, Some(&edges[i]), true);
                proof {
                    trees(edges@).lemma_filter_map_take_succ(reader, i as int);
                    assert(trees(edges@)[i as int] == edges@[i as int]@);
                }
                match author {
                    Some(author) => {
                        proof {
                            assert(contributor_views(found@.push(author)) =~= contributor_views(
                                found@,
                            ).push(author@));
                        }
                        found.push(author);
                    },
                    None => {},
                }
                i += 1;
            }
            assert(trees(edges@).take(edges@.len() as int) == trees(edges@));
        },
        None => {},
    }
    found
}

/// The catalog's identifier of a series with the web address `url`.
pub fn extract_id_from_url(url: Option<&Json>) -> (id: Option<String>)
    ensures
        text_view(id) == series_id(tree_or_null(url)),
{
    let url = match url {
        Some(url) => url.as_str(),
        None => None,
    };
    match url {
        Some(url) => {
            let chars = chars_of(url);
            let start = chars_of("https://www.goodreads.com/series/");
            match without_prefix(&chars, &start) {
                Some(rest) => Some(string_of(&head_before(&rest, '-'))),
                None => Some(string_of(&head_before(&chars, '-'))),
            }
        },
        None => None,
    }
}

/// The position that the series edge `entry` gives.
fn read_position(entry: &Json) -> (position: Option<String>)
    ensures
        text_view(position) == series_position(entry@),
{
    let raw = match entry.get("userPosition") {
        Some(value) => value.as_str(),
        None => None,
    };
    match raw {
        Some(raw) => {
            let number = head_before(&chars_of(raw), '-');
            if float_literal(&number) {
                Some(string_of(&number))
            } else {
                None
            }
        },
        None => None,
    }
}

/// The series that the edge `entry` leads to.
fn read_series(metadata: &Json, entry: &Json) -> (found: Option<BookSeries>)
    ensures
        match found {
            Some(found) => Some(found@),
            None => None,
        } == series_entry(metadata@, entry@),
{
    let number = read_position(entry);
    let key = to_string(field(entry.get("series"), "__ref"));
    match (number, key) {
        (Some(number), Some(key)) => {
            let series = graph_node(metadata, key.as_str());
            let title = to_string(field(series, "title"));
            let goodreads_id = extract_id_from_url(field(series, "webUrl"));
            match (title, goodreads_id) {
                (Some(title), Some(goodreads_id)) => Some(
                    BookSeries { title, number, goodreads_id },
                ),
                _ => None,
            }
        },
        _ => None,
    }
}

/// The series of the book under `amazon_id`.
pub fn extract_series(metadata: &Json, amazon_id: &str) -> (found: Vec<BookSeries>)
    ensures
        series_views(found@) == series_of(metadata@, amazon_id@),
{
    let book = graph_node(metadata, amazon_id);
    let mut found: Vec<BookSeries> = Vec::new();
    let entries = match field(book, "bookSeries") {
        Some(entries) => entries.as_array(),
        None => None,
    };
    assert(series_views(found@) =~= Seq::empty());
    match entries {
        Some(entries) => {
            let ghost reader = series_reader(metadata@);
            let mut i: usize = 0;
            assert(trees(entries@).take(0).filter_map(reader) =~= Seq::empty());
            while i < entries.len()
                invariant
                    i <= entries.len(),
                    reader == series_reader(metadata@),
                    series_views(found@) == trees(entries@).take(i as int).filter_map(reader),
                decreases entries.len() - i,
            {
                let series = read_series(metadata, &entries[i]);
                proof {
                    trees(entries@).lemma_filter_map_take_succ(reader, i as int);
                    assert(trees(entries@)[i as int] == entries@[i as int]@);
                }
                match series {
                    Some(series) => {
                        proof {
                            assert(series_views(found@.push(series)) =~= series_views(found@).push(
                                series@,
                            ));
                        }
                        found.push(series);
                    },
                    None => {},
                }
                i += 1;
            }
            assert(trees(entries@).take(entries@.len() as int) == trees(entries@));
        },
        None => {},
    }
    found
}

/// The record of the book with the identifier `goodreads_id` in the graph
/// `metadata`. It fails with a `ScrapeError` where the graph holds no
/// reference to the book, and where the book has no title.
pub fn extract_metadata(metadata: &Json, goodreads_id: &str) -> (record: Result<
    BookMetadata,
    ScraperError,
>)
    ensures
        record_view(record) == metadata_of(metadata@, goodreads_id@),
{
    let amazon_id = match extract_amazon_id(metadata, goodreads_id) {
        Ok(key) => key,
        Err(error) => {
            return Err(error);
        },
    };
    let title = match extract_title_and_subtitle(metadata, amazon_id.as_str()) {
        Ok(titles) => titles.0,
        Err(error) => {
            return Err(error);
        },
    };
    let image_url = extract_image_url(metadata, amazon_id.as_str());
    let contributors = extract_contributors(metadata, amazon_id.as_str());
    let publication_date = extract_publication_date(metadata, amazon_id.as_str());
    let page_count = extract_page_count(metadata, amazon_id.as_str());
    let series = extract_series(metadata, amazon_id.as_str());
    Ok(
        BookMetadata {
            title,
            publication_date,
            contributors,
            series,
            page_count,
            image_url,
            goodreads_id: goodreads_id.to_owned(),
        },
    )
}

/// The document that a selection of data elements gives.
pub fn read_document(outcome: Result<Vec<Found>, String>) -> (document: Result<Json, ScraperError>)
    ensures
        document_view(document) == document_of(outcome_view(outcome)),
{
    match outcome {
        Ok(found) => {
            if found.len() == 0 {
                return Err(ScraperError::scrape("Failed to scrape book metadata"));
            }
            match parse(found[0].0.as_str()) {
                Ok(tree) => Ok(tree),
                Err(error) => Err(ScraperError::SerializeError(error)),
            }
        },
        Err(message) => Err(ScraperError::ParseError(message)),
    }
}

/// The document that the page `html` embeds.
pub fn extract_book_metadata(html: &str) -> (document: Result<Json, ScraperError>)
    ensures
        document_view(document) == page_document(html@),
{
    read_document(select(html, "script[id=\"__NEXT_DATA__\"]", "id"))
}

/// The record of the book with the identifier `goodreads_id`, read from its
/// page `html`.
pub fn fetch_metadata(html: &str, goodreads_id: &str) -> (record: Result<BookMetadata, ScraperError>)
    ensures
        record_view(record) == page_metadata(html@, goodreads_id@),
{
    match extract_book_metadata(html) {
        Ok(metadata) => extract_metadata(&metadata, goodreads_id),
        Err(error) => Err(error),
    }
}

} // verus!
