//! What is handed to the library and what it answers.

use vstd::prelude::*;
use crate::scraper::metadata_fetcher::{BookMetadata, BookMetadataView};
use crate::scraper::sorting::{get_name_sort, get_title_sort, name_sort_key, title_sort_key};
use crate::text::text_view;

verus! {

/// An author of a book that is taken into the library.
#[derive(Debug, PartialEq, Clone)]
pub struct AuthorRecord {
    /// The author's name.
    pub name: String,
    /// The key by which the name is sorted.
    pub sort: String,
    /// The catalog's identifier of the author.
    pub goodreads_id: String,
}

/// A series of a book that is taken into the library, and the book's place
/// in it.
#[derive(Debug, PartialEq, Clone)]
pub struct SeriesAndVolumeRecord {
    /// The name of the series.
    pub series: String,
    /// The key by which the name is sorted.
    pub sort: String,
    /// The book's position in the series, as the number's spelling.
    pub volume: String,
    /// The catalog's identifier of the series.
    pub goodreads_id: String,
}

/// A book as it is taken into the library, with its authors and series.
#[derive(Debug, PartialEq, Clone)]
pub struct BookRecord {
    /// The title.
    pub title: String,
    /// The key by which the title is sorted.
    pub sort: String,
    /// The authors, in their order.
    pub authors: Vec<AuthorRecord>,
    /// The series, in their order.
    pub series_and_volume: Vec<SeriesAndVolumeRecord>,
    /// The number of pages.
    pub number_of_pages: Option<i64>,
    /// The catalog's identifier of the book.
    pub goodreads_id: String,
    /// When the book is taken in, in milliseconds since the start of 1970.
    pub date_added: i64,
    /// When the book was published, in the same measure.
    pub date_published: Option<i64>,
}

pub struct AuthorRecordView {
    pub name: Seq<char>,
    pub sort: Seq<char>,
    pub goodreads_id: Seq<char>,
}

pub struct SeriesAndVolumeRecordView {
    pub series: Seq<char>,
    pub sort: Seq<char>,
    pub volume: Seq<char>,
    pub goodreads_id: Seq<char>,
}

pub struct BookRecordView {
    pub title: Seq<char>,
    pub sort: Seq<char>,
    pub authors: Seq<AuthorRecordView>,
    pub series_and_volume: Seq<SeriesAndVolumeRecordView>,
    pub number_of_pages: Option<i64>,
    pub goodreads_id: Seq<char>,
    pub date_added: i64,
    pub date_published: Option<i64>,
}

impl View for AuthorRecord {
    type V = AuthorRecordView;

    open spec fn view(&self) -> AuthorRecordView {
        AuthorRecordView { name: self.name@, sort: self.sort@, goodreads_id: self.goodreads_id@ }
    }
}

impl View for SeriesAndVolumeRecord {
    type V = SeriesAndVolumeRecordView;

    open spec fn view(&self) -> SeriesAndVolumeRecordView {
        SeriesAndVolumeRecordView {
            series: self.series@,
            sort: self.sort@,
            volume: self.volume@,
            goodreads_id: self.goodreads_id@,
        }
    }
}

/// The views of `authors`.
pub open spec fn author_views(authors: Seq<AuthorRecord>) -> Seq<AuthorRecordView> {
    authors.map_values(|author: AuthorRecord| author@)
}

/// The views of `series`.
pub open spec fn volume_views(series: Seq<SeriesAndVolumeRecord>) -> Seq<SeriesAndVolumeRecordView> {
    series.map_values(|entry: SeriesAndVolumeRecord| entry@)
}

impl View for BookRecord {
    type V = BookRecordView;

    open spec fn view(&self) -> BookRecordView {
        BookRecordView {
            title: self.title@,
            sort: self.sort@,
            authors: author_views(self.authors@),
            series_and_volume: volume_views(self.series_and_volume@),
            number_of_pages: self.number_of_pages,
            goodreads_id: self.goodreads_id@,
            date_added: self.date_added,
            date_published: self.date_published,
        }
    }
}

/// Whether the library is ready for use.
#[derive(Debug, PartialEq, Clone)]
pub enum DbInitStatus {
    /// A library is open.
    Loaded,
    /// No library is open; `reason` says why the last attempt to open one
    /// failed, where one failed.
    NeedsSetup { reason: Option<String> },
}

/// Whether the library is ready for use: it is where one is open; where
/// none is, the last failure to open one is the reason.
pub fn get_init_status(open: bool, last_error: Option<String>) -> (status: DbInitStatus)
    ensures
        open ==> status == DbInitStatus::Loaded,
        !open ==> status == (DbInitStatus::NeedsSetup { reason: last_error }),
{
    if open {
        DbInitStatus::Loaded
    } else {
        DbInitStatus::NeedsSetup { reason: last_error }
    }
}

/// Why a book was not taken into the library.
#[derive(Debug, PartialEq, Clone)]
pub enum InsertBookError {
    /// The library already holds a book with this identifier of the catalog.
    BookAlreadyExists(String),
    /// The store failed; the message says how.
    Db(String),
}

pub enum InsertBookErrorView {
    BookAlreadyExists(Seq<char>),
    Db(Seq<char>),
}

impl View for InsertBookError {
    type V = InsertBookErrorView;

    open spec fn view(&self) -> InsertBookErrorView {
        match self {
            InsertBookError::BookAlreadyExists(id) => InsertBookErrorView::BookAlreadyExists(id@),
            InsertBookError::Db(message) => InsertBookErrorView::Db(message@),
        }
    }
}

impl InsertBookError {
    /// What the error says, for a reader.
    pub fn message(&self) -> (text: String)
        ensures
            text@ == match self@ {
                InsertBookErrorView::BookAlreadyExists(id) => "book already exists (goodreads_id="@
                    + id + ")"@,
                InsertBookErrorView::Db(message) => "database error: "@ + message,
            },
    {
        match self {
            InsertBookError::BookAlreadyExists(id) => {
                let mut text = "book already exists (goodreads_id=".to_owned();
                text.append(id.as_str());
                text.append(")");
                text
            },
            InsertBookError::Db(message) => {
                let mut text = "database error: ".to_owned();
                text.append(message.as_str());
                text
            },
        }
    }
}

/// The sort key to use where the library may already hold one: the stored
/// key where there is one, else the key that is worked out afresh.
pub open spec fn preferred(stored: Option<Seq<char>>, fresh: Seq<char>) -> Seq<char> {
    match stored {
        Some(key) => key,
        None => fresh,
    }
}

/// The `i`-th of `stored`, where the list reaches that far and holds a key
/// there.
pub open spec fn stored_at(stored: Seq<Option<Seq<char>>>, i: int) -> Option<Seq<char>> {
    if 0 <= i < stored.len() {
        stored[i]
    } else {
        None
    }
}

/// The views of keys that may be missing.
pub open spec fn key_views(keys: Seq<Option<String>>) -> Seq<Option<Seq<char>>> {
    keys.map_values(|key: Option<String>| text_view(key))
}

/// The record under which the book of `metadata` is taken into the library
/// at the time `date_added`.
///
/// The title is sorted by its title key. The `i`-th contributor becomes the
/// `i`-th author, sorted by the `i`-th of `author_sorts`, the keys that the
/// library already holds, or else by the name key of its name. The `i`-th
/// series becomes the `i`-th series, sorted by the `i`-th of `series_sorts`
/// or else by the title key of its title.
pub open spec fn record_of(
    metadata: BookMetadataView,
    author_sorts: Seq<Option<Seq<char>>>,
    series_sorts: Seq<Option<Seq<char>>>,
    date_added: i64,
) -> BookRecordView {
    BookRecordView {
        title: metadata.title,
        sort: title_sort_key(metadata.title),
        authors: Seq::new(
            metadata.contributors.len(),
            |i: int|
                AuthorRecordView {
                    name: metadata.contributors[i].name,
                    sort: preferred(
                        stored_at(author_sorts, i),
                        name_sort_key(metadata.contributors[i].name),
                    ),
                    goodreads_id: metadata.contributors[i].goodreads_id,
                },
        ),
        series_and_volume: Seq::new(
            metadata.series.len(),
            |i: int|
                SeriesAndVolumeRecordView {
                    series: metadata.series[i].title,
                    sort: preferred(
                        stored_at(series_sorts, i),
                        title_sort_key(metadata.series[i].title),
                    ),
                    volume: metadata.series[i].number,
                    goodreads_id: metadata.series[i].goodreads_id,
                },
        ),
        number_of_pages: metadata.page_count,
        goodreads_id: metadata.goodreads_id,
        date_added,
        date_published: metadata.publication_date,
    }
}

/// The `i`-th of `stored`, where there is one.
fn stored_key(stored: &Vec<Option<String>>, i: usize) -> (key: Option<String>)
    ensures
        text_view(key) == stored_at(key_views(stored@), i as int),
{
    if i < stored.len() {
        match &stored[i] {
            Some(key) => Some(key.clone()),
            None => None,
        }
    } else {
        None
    }
}

/// The record under which the book of `metadata` is taken into the library
/// at the time `date_added`.
pub fn assemble_record(
    metadata: &BookMetadata,
    author_sorts: &Vec<Option<String>>,
    series_sorts: &Vec<Option<String>>,
    date_added: i64,
) -> (record: BookRecord)
    ensures
        record@ == record_of(
            metadata@,
            key_views(author_sorts@),
            key_views(series_sorts@),
            date_added,
        ),
{
    let mut authors: Vec<AuthorRecord> = Vec::new();
    let mut i: usize = 0;
    while i < metadata.contributors.len()
        invariant
            i <= metadata.contributors.len(),
            author_views(authors@) =~= record_of(
                metadata@,
                key_views(author_sorts@),
                key_views(series_sorts@),
                date_added,
            ).authors.take(i as int),
        decreases metadata.contributors.len() - i,
    {
        let contributor = &metadata.contributors[i];
        let sort = match stored_key(author_sorts, i) {
            Some(key) => key,
            None => get_name_sort(contributor.name.as_str()),
        };
        let author = AuthorRecord {
            name: contributor.name.clone(),
            sort,
            goodreads_id: contributor.goodreads_id.clone(),
        };
        proof {
            assert(metadata@.contributors[i as int] == contributor@);
            assert(author_views(authors@.push(author)) =~= author_views(authors@).push(author@));
        }
        authors.push(author);
        i += 1;
    }
    let ghost wanted = record_of(
            metadata@,
            key_views(author_sorts@),
            key_views(series_sorts@),
            date_added,
        );
    assert(author_views(authors@) == wanted.authors);
    let mut series: Vec<SeriesAndVolumeRecord> = Vec::new();
    let mut k: usize = 0;
    while k < metadata.series.len()
        invariant
            k <= metadata.series.len(),
            author_views(authors@) == wanted.authors,
            wanted == record_of(
            metadata@,
            key_views(author_sorts@),
            key_views(series_sorts@),
            date_added,
        ),
            volume_views(series@) =~= wanted.series_and_volume.take(k as int),
        decreases metadata.series.len() - k,
    {
        let entry = &metadata.series[k];
        let sort = match stored_key(series_sorts, k) {
            Some(key) => key,
            None => get_title_sort(entry.title.as_str()),
        };
        let volume = SeriesAndVolumeRecord {
            series: entry.title.clone(),
            sort,
            volume: entry.number.clone(),
            goodreads_id: entry.goodreads_id.clone(),
        };
        proof {
            assert(metadata@.series[k as int] == entry@);
            assert(volume_views(series@.push(volume)) =~= volume_views(series@).push(volume@));
        }
        series.push(volume);
        k += 1;
    }
    assert(volume_views(series@) == wanted.series_and_volume);
    BookRecord {
        title: metadata.title.clone(),
        sort: get_title_sort(metadata.title.as_str()),
        authors,
        series_and_volume: series,
        number_of_pages: metadata.page_count,
        goodreads_id: metadata.goodreads_id.clone(),
        date_added,
        date_published: metadata.publication_date,
    }
}

} // verus!
