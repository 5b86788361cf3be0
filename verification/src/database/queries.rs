//! The tables of the library, the statements that change them, and how a
//! book is taken in: all of it or nothing.
//!
//! `Library` holds the tables in memory. It says what each statement means;
//! a store that keeps the tables elsewhere runs the same statements in the
//! same order.

use vstd::prelude::*;
use crate::database::laws::lemma_when_a_book_is_taken_in;
use crate::database::types::{
    assemble_record, key_views, record_of, AuthorRecordView, BookRecord, BookRecordView,
    InsertBookError, InsertBookErrorView, SeriesAndVolumeRecordView,
};
use crate::scraper::metadata_fetcher::{BookMetadata, BookMetadataView};
use crate::text::text_view;

verus! {

/// A row of the table of books.
#[derive(Debug, PartialEq, Clone)]
pub struct LibraryBook {
    /// The library's own identifier of the book.
    pub id: i64,
    pub title: String,
    /// The key by which the title is sorted.
    pub sort: String,
    pub number_of_pages: Option<i64>,
    /// The catalog's identifier: no two books have the same.
    pub goodreads_id: String,
    pub date_added: i64,
    pub date_published: Option<i64>,
    pub last_modified: i64,
}

/// A row of the table of authors, or of the table of series.
#[derive(Debug, PartialEq, Clone)]
pub struct LibraryEntry {
    /// The library's own identifier of the author or series.
    pub id: i64,
    pub name: String,
    /// The key by which the name is sorted.
    pub sort: String,
    /// The catalog's identifier: no two rows of a table have the same.
    pub goodreads_id: String,
}

/// A row of the table of authors.
pub type LibraryAuthor = LibraryEntry;

/// A row of the table of series.
pub type LibrarySeries = LibraryEntry;

pub struct LibraryBookView {
    pub id: int,
    pub title: Seq<char>,
    pub sort: Seq<char>,
    pub number_of_pages: Option<i64>,
    pub goodreads_id: Seq<char>,
    pub date_added: i64,
    pub date_published: Option<i64>,
    pub last_modified: i64,
}

pub struct LibraryEntryView {
    pub id: int,
    pub name: Seq<char>,
    pub sort: Seq<char>,
    pub goodreads_id: Seq<char>,
}

impl View for LibraryBook {
    type V = LibraryBookView;

    open spec fn view(&self) -> LibraryBookView {
        LibraryBookView {
            id: self.id as int,
            title: self.title@,
            sort: self.sort@,
            number_of_pages: self.number_of_pages,
            goodreads_id: self.goodreads_id@,
            date_added: self.date_added,
            date_published: self.date_published,
            last_modified: self.last_modified,
        }
    }
}

impl View for LibraryEntry {
    type V = LibraryEntryView;

    open spec fn view(&self) -> LibraryEntryView {
        LibraryEntryView {
            id: self.id as int,
            name: self.name@,
            sort: self.sort@,
            goodreads_id: self.goodreads_id@,
        }
    }
}

/// A link between a book and an author, each by the library's identifier.
pub type AuthorLink = (int, int);

/// A link between a book and a series, each by the library's identifier,
/// with the book's position in the series.
pub type SeriesLink = (int, int, Seq<char>);

/// The tables of the library, as mathematical values.
pub struct LibraryView {
    pub books: Seq<LibraryBookView>,
    pub authors: Seq<LibraryEntryView>,
    pub series: Seq<LibraryEntryView>,
    pub books_authors_link: Seq<AuthorLink>,
    pub books_series_link: Seq<SeriesLink>,
}

/// A change to the tables.
#[derive(Debug, PartialEq, Clone)]
pub enum Statement {
    /// Insert a book. It fails where a book has the same identifier of the
    /// catalog.
    InsertBook {
        title: String,
        sort: String,
        date_added: i64,
        date_published: Option<i64>,
        number_of_pages: Option<i64>,
        goodreads_id: String,
    },
    /// Insert an author, or give the author with this identifier of the
    /// catalog this name and sort key.
    UpsertAuthor { name: String, sort: String, goodreads_id: String },
    /// Link a book and an author, each named by the identifier of the
    /// catalog, unless they are linked.
    LinkAuthor { book: String, author: String },
    /// Insert a series, or give the series with this identifier of the
    /// catalog this name and sort key.
    UpsertSeries { name: String, sort: String, goodreads_id: String },
    /// Link a book and a series, each named by the identifier of the
    /// catalog, with the book's position. It fails where they are linked.
    LinkSeries { book: String, series: String, entry: String },
}

pub enum StatementView {
    InsertBook {
        title: Seq<char>,
        sort: Seq<char>,
        date_added: i64,
        date_published: Option<i64>,
        number_of_pages: Option<i64>,
        goodreads_id: Seq<char>,
    },
    UpsertAuthor { name: Seq<char>, sort: Seq<char>, goodreads_id: Seq<char> },
    LinkAuthor { book: Seq<char>, author: Seq<char> },
    UpsertSeries { name: Seq<char>, sort: Seq<char>, goodreads_id: Seq<char> },
    LinkSeries { book: Seq<char>, series: Seq<char>, entry: Seq<char> },
}

impl View for Statement {
    type V = StatementView;

    open spec fn view(&self) -> StatementView {
        match self {
            Statement::InsertBook {
                title,
                sort,
                date_added,
                date_published,
                number_of_pages,
                goodreads_id,
            } => StatementView::InsertBook {
                title: title@,
                sort: sort@,
                date_added: *date_added,
                date_published: *date_published,
                number_of_pages: *number_of_pages,
                goodreads_id: goodreads_id@,
            },
            Statement::UpsertAuthor { name, sort, goodreads_id } => StatementView::UpsertAuthor {
                name: name@,
                sort: sort@,
                goodreads_id: goodreads_id@,
            },
            Statement::LinkAuthor { book, author } => StatementView::LinkAuthor {
                book: book@,
                author: author@,
            },
            Statement::UpsertSeries { name, sort, goodreads_id } => StatementView::UpsertSeries {
                name: name@,
                sort: sort@,
                goodreads_id: goodreads_id@,
            },
            Statement::LinkSeries { book, series, entry } => StatementView::LinkSeries {
                book: book@,
                series: series@,
                entry: entry@,
            },
        }
    }
}

/// Why a statement failed.
#[derive(Debug, PartialEq, Eq, Clone, Copy, Structural)]
pub enum StoreFailure {
    /// A row with the same key is there already.
    Unique,
    /// A row that the statement refers to is not there.
    Missing,
    /// The table has no identifier left for another row.
    Full,
}

/// The identifiers of the catalog in a table of books.
pub open spec fn book_keys(rows: Seq<LibraryBookView>) -> Seq<Seq<char>> {
    rows.map_values(|row: LibraryBookView| row.goodreads_id)
}

/// The identifiers of the catalog in a table of authors or series.
pub open spec fn entry_keys(rows: Seq<LibraryEntryView>) -> Seq<Seq<char>> {
    rows.map_values(|row: LibraryEntryView| row.goodreads_id)
}

/// The book and the series of each link of a book and a series.
pub open spec fn series_pairs(links: Seq<SeriesLink>) -> Seq<AuthorLink> {
    links.map_values(|link: SeriesLink| (link.0, link.1))
}

/// The library's identifier of the row with the key `key`: one more than the
/// row's place in its table.
pub open spec fn id_of(keys: Seq<Seq<char>>, key: Seq<char>) -> Option<int> {
    match keys.index_of_first(key) {
        Some(at) => Some(at + 1),
        None => None,
    }
}

/// Whether a table of `len` rows has an identifier left for one more.
pub open spec fn has_room(len: nat) -> bool {
    len < i64::MAX
}

/// A table of authors or series after an upsert: the row with the key
/// `goodreads_id` has the new name and sort key and its old identifier;
/// where there was no such row, there is a new one at the end.
pub open spec fn upserted(
    rows: Seq<LibraryEntryView>,
    name: Seq<char>,
    sort: Seq<char>,
    goodreads_id: Seq<char>,
) -> Result<Seq<LibraryEntryView>, StoreFailure> {
    match entry_keys(rows).index_of_first(goodreads_id) {
        Some(at) => Ok(rows.update(at, LibraryEntryView { id: rows[at].id, name, sort, goodreads_id })),
        None => if has_room(rows.len()) {
            Ok(rows.push(LibraryEntryView { id: rows.len() as int + 1, name, sort, goodreads_id }))
        } else {
            Err(StoreFailure::Full)
        },
    }
}

impl LibraryView {
    /// The tables after `statement`, or why it failed.
    pub open spec fn applied(self, statement: StatementView) -> Result<LibraryView, StoreFailure> {
        match statement {
            StatementView::InsertBook {
                title,
                sort,
                date_added,
                date_published,
                number_of_pages,
                goodreads_id,
            } => if book_keys(self.books).contains(goodreads_id) {
                Err(StoreFailure::Unique)
            } else if !has_room(self.books.len()) {
                Err(StoreFailure::Full)
            } else {
                Ok(
                    LibraryView {
                        books: self.books.push(
                            LibraryBookView {
                                id: self.books.len() as int + 1,
                                title,
                                sort,
                                number_of_pages,
                                goodreads_id,
                                date_added,
                                date_published,
                                last_modified: date_added,
                            },
                        ),
                        ..self
                    },
                )
            },
            StatementView::UpsertAuthor { name, sort, goodreads_id } => match upserted(
                self.authors,
                name,
                sort,
                goodreads_id,
            ) {
                Ok(authors) => Ok(LibraryView { authors, ..self }),
                Err(failure) => Err(failure),
            },
            StatementView::UpsertSeries { name, sort, goodreads_id } => match upserted(
                self.series,
                name,
                sort,
                goodreads_id,
            ) {
                Ok(series) => Ok(LibraryView { series, ..self }),
                Err(failure) => Err(failure),
            },
            StatementView::LinkAuthor { book, author } => match (
                id_of(book_keys(self.books), book),
                id_of(entry_keys(self.authors), author),
            ) {
                (Some(book), Some(author)) => if self.books_authors_link.contains((book, author)) {
                    Ok(self)
                } else {
                    Ok(
                        LibraryView {
                            books_authors_link: self.books_authors_link.push((book, author)),
                            ..self
                        },
                    )
                },
                _ => Err(StoreFailure::Missing),
            },
            StatementView::LinkSeries { book, series, entry } => match (
                id_of(book_keys(self.books), book),
                id_of(entry_keys(self.series), series),
            ) {
                (Some(book), Some(series)) => if series_pairs(self.books_series_link).contains(
                    (book, series),
                ) {
                    Err(StoreFailure::Unique)
                } else {
                    Ok(
                        LibraryView {
                            books_series_link: self.books_series_link.push((book, series, entry)),
                            ..self
                        },
                    )
                },
                _ => Err(StoreFailure::Missing),
            },
        }
    }

    /// The tables after the statements of `plan`, one after another, or the
    /// first of them that failed and why.
    pub open spec fn run(self, plan: Seq<StatementView>) -> Result<
        LibraryView,
        (StatementView, StoreFailure),
    >
        decreases plan.len(),
    {
        if plan.len() == 0 {
            Ok(self)
        } else {
            match self.applied(plan[0]) {
                Ok(next) => next.run(plan.skip(1)),
                Err(failure) => Err((plan[0], failure)),
            }
        }
    }

    /// Whether the tables are as the library keeps them: a row's identifier
    /// is one more than its place in its table; no two rows of a table have
    /// the same identifier of the catalog; every link joins rows that are
    /// there; and no book is linked twice to the same author or series.
    pub open spec fn wf(self) -> bool {
        &&& forall|i: int| 0 <= i < self.books.len() ==> (#[trigger] self.books[i]).id == i + 1
        &&& forall|i: int| 0 <= i < self.authors.len() ==> (#[trigger] self.authors[i]).id == i + 1
        &&& forall|i: int| 0 <= i < self.series.len() ==> (#[trigger] self.series[i]).id == i + 1
        &&& book_keys(self.books).no_duplicates()
        &&& entry_keys(self.authors).no_duplicates()
        &&& entry_keys(self.series).no_duplicates()
        &&& forall|i: int|
            0 <= i < self.books_authors_link.len() ==> {
                &&& 1 <= (#[trigger] self.books_authors_link[i]).0 <= self.books.len()
                &&& 1 <= self.books_authors_link[i].1 <= self.authors.len()
            }
        &&& forall|i: int|
            0 <= i < self.books_series_link.len() ==> {
                &&& 1 <= (#[trigger] self.books_series_link[i]).0 <= self.books.len()
                &&& 1 <= self.books_series_link[i].1 <= self.series.len()
            }
        &&& self.books_authors_link.no_duplicates()
        &&& series_pairs(self.books_series_link).no_duplicates()
    }
}

/// The statements for the authors of a book with the key `book`: for each
/// author in turn, its upsert and then its link.
pub open spec fn author_statements(book: Seq<char>, authors: Seq<AuthorRecordView>) -> Seq<
    StatementView,
>
    decreases authors.len(),
{
    if authors.len() == 0 {
        Seq::empty()
    } else {
        author_statements(book, authors.drop_last()) + seq![
            StatementView::UpsertAuthor {
                name: authors.last().name,
                sort: authors.last().sort,
                goodreads_id: authors.last().goodreads_id,
            },
            StatementView::LinkAuthor { book, author: authors.last().goodreads_id },
        ]
    }
}

/// The statements for the series of a book with the key `book`: for each
/// series in turn, its upsert and then its link.
pub open spec fn series_statements(book: Seq<char>, series: Seq<SeriesAndVolumeRecordView>) -> Seq<
    StatementView,
>
    decreases series.len(),
{
    if series.len() == 0 {
        Seq::empty()
    } else {
        series_statements(book, series.drop_last()) + seq![
            StatementView::UpsertSeries {
                name: series.last().series,
                sort: series.last().sort,
                goodreads_id: series.last().goodreads_id,
            },
            StatementView::LinkSeries {
                book,
                series: series.last().goodreads_id,
                entry: series.last().volume,
            },
        ]
    }
}

/// The statement that inserts the book of `record`.
pub open spec fn book_statement(record: BookRecordView) -> StatementView {
    StatementView::InsertBook {
        title: record.title,
        sort: record.sort,
        date_added: record.date_added,
        date_published: record.date_published,
        number_of_pages: record.number_of_pages,
        goodreads_id: record.goodreads_id,
    }
}

/// The statements that take the book of `record` in: the book first, then
/// its authors, then its series.
pub open spec fn plan_of(record: BookRecordView) -> Seq<StatementView> {
    seq![book_statement(record)] + author_statements(record.goodreads_id, record.authors)
        + series_statements(record.goodreads_id, record.series_and_volume)
}

/// What a failure says in a database error.
pub open spec fn failure_text(failure: StoreFailure) -> Seq<char> {
    match failure {
        StoreFailure::Unique => "a row with the same key exists"@,
        StoreFailure::Missing => "a row that is referred to is missing"@,
        StoreFailure::Full => "the table is full"@,
    }
}

/// Why a book is not taken in when `statement` fails with `failure`: a book
/// that is there already is reported as such, with its identifier of the
/// catalog; everything else is a database error.
pub open spec fn rejection(statement: StatementView, failure: StoreFailure) -> InsertBookErrorView {
    match statement {
        StatementView::InsertBook { goodreads_id, .. } => if failure == StoreFailure::Unique {
            InsertBookErrorView::BookAlreadyExists(goodreads_id)
        } else {
            InsertBookErrorView::Db(failure_text(failure))
        },
        _ => InsertBookErrorView::Db(failure_text(failure)),
    }
}

/// The identifiers of the catalog of the series that a record names.
pub open spec fn volume_keys(series: Seq<SeriesAndVolumeRecordView>) -> Seq<Seq<char>> {
    series.map_values(|entry: SeriesAndVolumeRecordView| entry.goodreads_id)
}

impl LibraryView {
    /// Whether the tables have identifiers left for the book of `record`
    /// and for each of its authors and series.
    pub open spec fn has_room_for(self, record: BookRecordView) -> bool {
        &&& self.books.len() < i64::MAX
        &&& self.authors.len() + record.authors.len() <= i64::MAX
        &&& self.series.len() + record.series_and_volume.len() <= i64::MAX
    }

    /// Whether nothing stands against taking the book of `record` in: the
    /// library does not hold a book with its identifier of the catalog, the
    /// record names no series twice, and the tables have room.
    pub open spec fn welcomes(self, record: BookRecordView) -> bool {
        &&& !book_keys(self.books).contains(record.goodreads_id)
        &&& volume_keys(record.series_and_volume).no_duplicates()
        &&& self.has_room_for(record)
    }

    /// The tables after the book of `record` is taken in, or why it is not.
    pub open spec fn ingested(self, record: BookRecordView) -> Result<
        LibraryView,
        InsertBookErrorView,
    > {
        match self.run(plan_of(record)) {
            Ok(after) => Ok(after),
            Err((statement, failure)) => Err(rejection(statement, failure)),
        }
    }

    /// The tables after an attempt to take the book of `record` in: with the
    /// book where that was possible, and as they were where it was not.
    pub open spec fn after_ingestion(self, record: BookRecordView) -> LibraryView {
        match self.ingested(record) {
            Ok(after) => after,
            Err(_) => self,
        }
    }
}

/// A sequence without duplicates stays so when something new is added.
pub proof fn lemma_push_keeps_distinct<T>(items: Seq<T>, item: T)
    requires
        items.no_duplicates(),
        !items.contains(item),
    ensures
        items.push(item).no_duplicates(),
{
    let longer = items.push(item);
    assert forall|i: int, j: int| 0 <= i < longer.len() && 0 <= j < longer.len() && i != j implies longer[i]
        != longer[j] by {
        if i < items.len() && j < items.len() {
        } else if i < items.len() {
            assert(items.contains(items[i]));
        } else {
            assert(items.contains(items[j]));
        }
    }
}

/// An upsert keeps a table of authors or series as the library keeps it.
pub proof fn lemma_upserted(
    rows: Seq<LibraryEntryView>,
    name: Seq<char>,
    sort: Seq<char>,
    goodreads_id: Seq<char>,
)
    requires
        forall|i: int| 0 <= i < rows.len() ==> (#[trigger] rows[i]).id == i + 1,
        entry_keys(rows).no_duplicates(),
        upserted(rows, name, sort, goodreads_id).is_ok(),
    ensures
        ({
            let after = upserted(rows, name, sort, goodreads_id)->Ok_0;
            &&& forall|i: int| 0 <= i < after.len() ==> (#[trigger] after[i]).id == i + 1
            &&& entry_keys(after).no_duplicates()
            &&& entry_keys(rows).is_prefix_of(entry_keys(after))
            &&& rows.len() <= after.len() <= rows.len() + 1
            &&& forall|i: int|
                0 <= i < rows.len() && rows[i].goodreads_id != goodreads_id ==> #[trigger] after[i]
                    == rows[i]
            &&& exists|at: int|
                0 <= at < after.len() && #[trigger] after[at] == (LibraryEntryView {
                    id: at + 1,
                    name,
                    sort,
                    goodreads_id,
                })
        }),
{
    let keys = entry_keys(rows);
    let after = upserted(rows, name, sort, goodreads_id)->Ok_0;
    keys.index_of_first_ensures(goodreads_id);
    match keys.index_of_first(goodreads_id) {
        Some(at) => {
            assert(entry_keys(after) =~= keys);
            assert(after[at] == (LibraryEntryView { id: at + 1, name, sort, goodreads_id }));
        },
        None => {
            assert(entry_keys(after) =~= keys.push(goodreads_id));
            lemma_push_keeps_distinct(keys, goodreads_id);
            assert(after[rows.len() as int] == (LibraryEntryView {
                id: rows.len() as int + 1,
                name,
                sort,
                goodreads_id,
            }));
            assert forall|i: int|
                0 <= i < rows.len() && rows[i].goodreads_id != goodreads_id implies #[trigger] after[i]
                == rows[i] by {}
        },
    }
}

impl LibraryView {
    /// Whether `later` holds all that `self` holds, at the same places: the
    /// books, the keys of the authors and series, and the links.
    pub open spec fn extends_to(self, later: LibraryView) -> bool {
        &&& self.books.is_prefix_of(later.books)
        &&& entry_keys(self.authors).is_prefix_of(entry_keys(later.authors))
        &&& entry_keys(self.series).is_prefix_of(entry_keys(later.series))
        &&& self.books_authors_link.is_prefix_of(later.books_authors_link)
        &&& self.books_series_link.is_prefix_of(later.books_series_link)
    }

    /// A statement that succeeds keeps the tables as the library keeps
    /// them, and takes nothing away.
    pub proof fn lemma_applied(self, statement: StatementView)
        requires
            self.wf(),
            self.applied(statement).is_ok(),
        ensures
            self.applied(statement)->Ok_0.wf(),
            self.extends_to(self.applied(statement)->Ok_0),
    {
        let after = self.applied(statement)->Ok_0;
        match statement {
            StatementView::InsertBook { goodreads_id, .. } => {
                assert(book_keys(after.books) =~= book_keys(self.books).push(goodreads_id));
                lemma_push_keeps_distinct(book_keys(self.books), goodreads_id);
            },
            StatementView::UpsertAuthor { name, sort, goodreads_id } => {
                lemma_upserted(self.authors, name, sort, goodreads_id);
            },
            StatementView::UpsertSeries { name, sort, goodreads_id } => {
                lemma_upserted(self.series, name, sort, goodreads_id);
            },
            StatementView::LinkAuthor { book, author } => {
                book_keys(self.books).index_of_first_ensures(book);
                entry_keys(self.authors).index_of_first_ensures(author);
                let link = (
                    id_of(book_keys(self.books), book)->Some_0,
                    id_of(entry_keys(self.authors), author)->Some_0,
                );
                if !self.books_authors_link.contains(link) {
                    lemma_push_keeps_distinct(self.books_authors_link, link);
                }
            },
            StatementView::LinkSeries { book, series, entry } => {
                book_keys(self.books).index_of_first_ensures(book);
                entry_keys(self.series).index_of_first_ensures(series);
                let pair = (
                    id_of(book_keys(self.books), book)->Some_0,
                    id_of(entry_keys(self.series), series)->Some_0,
                );
                assert(series_pairs(after.books_series_link) =~= series_pairs(
                    self.books_series_link,
                ).push(pair));
                lemma_push_keeps_distinct(series_pairs(self.books_series_link), pair);
            },
        }
    }

    /// What holds of one statement holds of a plan.
    pub proof fn lemma_run(self, plan: Seq<StatementView>)
        requires
            self.wf(),
            self.run(plan).is_ok(),
        ensures
            self.run(plan)->Ok_0.wf(),
            self.extends_to(self.run(plan)->Ok_0),
        decreases plan.len(),
    {
        if plan.len() > 0 {
            self.lemma_applied(plan[0]);
            let next = self.applied(plan[0])->Ok_0;
            next.lemma_run(plan.skip(1));
        }
    }

    /// Running two plans one after the other is running them as one.
    pub proof fn lemma_run_in_parts(self, first: Seq<StatementView>, second: Seq<StatementView>)
        ensures
            self.run(first + second) == match self.run(first) {
                Ok(between) => between.run(second),
                Err(failure) => Err(failure),
            },
        decreases first.len(),
    {
        let whole = first + second;
        if first.len() == 0 {
            assert(whole =~= second);
        } else {
            assert(whole[0] == first[0]);
            assert(whole.skip(1) =~= first.skip(1) + second);
            match self.applied(first[0]) {
                Ok(next) => {
                    next.lemma_run_in_parts(first.skip(1), second);
                },
                Err(_) => {},
            }
        }
    }
}

/// The sort key that a table of authors or series holds for `name`: that of
/// its first row with exactly this name, character for character.
pub open spec fn stored_sort(rows: Seq<LibraryEntryView>, name: Seq<char>) -> Option<Seq<char>>
    decreases rows.len(),
{
    if rows.len() == 0 {
        None
    } else if rows[0].name == name {
        Some(rows[0].sort)
    } else {
        stored_sort(rows.skip(1), name)
    }
}

impl LibraryView {
    /// The record under which the book of `metadata` is taken in at the time
    /// `date_added`: each author and series is sorted by the key that the
    /// library holds for its name, where it holds one.
    pub open spec fn record_for(self, metadata: BookMetadataView, date_added: i64) -> BookRecordView {
        record_of(
            metadata,
            Seq::new(
                metadata.contributors.len(),
                |i: int| stored_sort(self.authors, metadata.contributors[i].name),
            ),
            Seq::new(
                metadata.series.len(),
                |i: int| stored_sort(self.series, metadata.series[i].title),
            ),
            date_added,
        )
    }
}

/// The tables of the library, held in memory.
pub struct Library {
    books: Vec<LibraryBook>,
    authors: Vec<LibraryEntry>,
    series: Vec<LibraryEntry>,
    books_authors_link: Vec<(i64, i64)>,
    books_series_link: Vec<(i64, i64, String)>,
}

/// The views of the rows of a table of books.
pub open spec fn book_views(rows: Seq<LibraryBook>) -> Seq<LibraryBookView> {
    rows.map_values(|row: LibraryBook| row@)
}

/// The views of the rows of a table of authors or series.
pub open spec fn entry_views(rows: Seq<LibraryEntry>) -> Seq<LibraryEntryView> {
    rows.map_values(|row: LibraryEntry| row@)
}

/// The views of links of books and authors.
pub open spec fn author_link_views(links: Seq<(i64, i64)>) -> Seq<AuthorLink> {
    links.map_values(|link: (i64, i64)| (link.0 as int, link.1 as int))
}

/// The views of links of books and series.
pub open spec fn series_link_views(links: Seq<(i64, i64, String)>) -> Seq<SeriesLink> {
    links.map_values(|link: (i64, i64, String)| (link.0 as int, link.1 as int, link.2@))
}

/// The views of statements.
pub open spec fn statement_views(plan: Seq<Statement>) -> Seq<StatementView> {
    plan.map_values(|statement: Statement| statement@)
}

impl View for Library {
    type V = LibraryView;

    closed spec fn view(&self) -> LibraryView {
        LibraryView {
            books: book_views(self.books@),
            authors: entry_views(self.authors@),
            series: entry_views(self.series@),
            books_authors_link: author_link_views(self.books_authors_link@),
            books_series_link: series_link_views(self.books_series_link@),
        }
    }
}

impl LibraryBook {
    /// A copy of the row.
    pub fn copy(&self) -> (row: LibraryBook)
        ensures
            row@ == self@,
    {
        LibraryBook {
            id: self.id,
            title: self.title.clone(),
            sort: self.sort.clone(),
            number_of_pages: self.number_of_pages,
            goodreads_id: self.goodreads_id.clone(),
            date_added: self.date_added,
            date_published: self.date_published,
            last_modified: self.last_modified,
        }
    }
}

impl LibraryEntry {
    /// A copy of the row.
    pub fn copy(&self) -> (row: LibraryEntry)
        ensures
            row@ == self@,
    {
        LibraryEntry {
            id: self.id,
            name: self.name.clone(),
            sort: self.sort.clone(),
            goodreads_id: self.goodreads_id.clone(),
        }
    }
}

/// A copy of a table of books.
fn copy_books(rows: &Vec<LibraryBook>) -> (out: Vec<LibraryBook>)
    ensures
        book_views(out@) == book_views(rows@),
{
    let mut out: Vec<LibraryBook> = Vec::new();
    let mut i: usize = 0;
    while i < rows.len()
        invariant
            i <= rows.len(),
            book_views(out@) =~= book_views(rows@).take(i as int),
        decreases rows.len() - i,
    {
        let row = rows[i].copy();
        assert(book_views(out@.push(row)) =~= book_views(out@).push(row@));
        out.push(row);
        i += 1;
    }
    assert(book_views(rows@).take(rows@.len() as int) =~= book_views(rows@));
    out
}

/// A copy of a table of authors or series.
fn copy_entries(rows: &Vec<LibraryEntry>) -> (out: Vec<LibraryEntry>)
    ensures
        entry_views(out@) == entry_views(rows@),
{
    let mut out: Vec<LibraryEntry> = Vec::new();
    let mut i: usize = 0;
    while i < rows.len()
        invariant
            i <= rows.len(),
            entry_views(out@) =~= entry_views(rows@).take(i as int),
        decreases rows.len() - i,
    {
        let row = rows[i].copy();
        assert(entry_views(out@.push(row)) =~= entry_views(out@).push(row@));
        out.push(row);
        i += 1;
    }
    assert(entry_views(rows@).take(rows@.len() as int) =~= entry_views(rows@));
    out
}

/// A copy of the links of books and authors.
fn copy_author_links(links: &Vec<(i64, i64)>) -> (out: Vec<(i64, i64)>)
    ensures
        author_link_views(out@) == author_link_views(links@),
{
    let mut out: Vec<(i64, i64)> = Vec::new();
    let mut i: usize = 0;
    while i < links.len()
        invariant
            i <= links.len(),
            author_link_views(out@) =~= author_link_views(links@).take(i as int),
        decreases links.len() - i,
    {
        let link = (links[i].0, links[i].1);
        assert(author_link_views(out@.push(link)) =~= author_link_views(out@).push(
            (link.0 as int, link.1 as int),
        ));
        out.push(link);
        i += 1;
    }
    assert(author_link_views(links@).take(links@.len() as int) =~= author_link_views(links@));
    out
}

/// A copy of the links of books and series.
fn copy_series_links(links: &Vec<(i64, i64, String)>) -> (out: Vec<(i64, i64, String)>)
    ensures
        series_link_views(out@) == series_link_views(links@),
{
    let mut out: Vec<(i64, i64, String)> = Vec::new();
    let mut i: usize = 0;
    while i < links.len()
        invariant
            i <= links.len(),
            series_link_views(out@) =~= series_link_views(links@).take(i as int),
        decreases links.len() - i,
    {
        let link = (links[i].0, links[i].1, links[i].2.clone());
        assert(series_link_views(out@.push(link)) =~= series_link_views(out@).push(
            (link.0 as int, link.1 as int, link.2@),
        ));
        out.push(link);
        i += 1;
    }
    assert(series_link_views(links@).take(links@.len() as int) =~= series_link_views(links@));
    out
}

/// Where the first of `keys` that equals `key` stands, knowing that it
/// stands at `at`.
proof fn lemma_first_index(keys: Seq<Seq<char>>, key: Seq<char>, at: int)
    requires
        0 <= at < keys.len(),
        keys[at] == key,
        forall|j: int| 0 <= j < at ==> keys[j] != key,
    ensures
        keys.index_of_first(key) == Some(at),
        keys.contains(key),
{
    keys.index_of_first_ensures(key);
    assert(keys.contains(key));
}

/// No key equals `key`, so none is the first.
proof fn lemma_no_index(keys: Seq<Seq<char>>, key: Seq<char>)
    requires
        forall|j: int| 0 <= j < keys.len() ==> keys[j] != key,
    ensures
        keys.index_of_first(key).is_none(),
        !keys.contains(key),
{
    keys.index_of_first_ensures(key);
}

/// The place of the book with the key `key`.
fn find_book(rows: &Vec<LibraryBook>, key: &str) -> (at: Option<usize>)
    ensures
        match at {
            Some(at) => at < rows.len() && book_keys(book_views(rows@)).index_of_first(key@)
                == Some(at as int) && book_keys(book_views(rows@)).contains(key@),
            None => book_keys(book_views(rows@)).index_of_first(key@).is_none() && !book_keys(
                book_views(rows@),
            ).contains(key@),
        },
{
    let wanted = key.to_owned();
    let ghost keys = book_keys(book_views(rows@));
    let mut i: usize = 0;
    while i < rows.len()
        invariant
            i <= rows.len(),
            wanted@ == key@,
            keys == book_keys(book_views(rows@)),
            forall|j: int| 0 <= j < i ==> keys[j] != key@,
        decreases rows.len() - i,
    {
        assert(keys[i as int] == rows@[i as int].goodreads_id@);
        if rows[i].goodreads_id == wanted {
            proof {
                lemma_first_index(keys, key@, i as int);
            }
            return Some(i);
        }
        i += 1;
    }
    proof {
        lemma_no_index(keys, key@);
    }
    None
}

/// The place of the author or series with the key `key`.
fn find_entry(rows: &Vec<LibraryEntry>, key: &str) -> (at: Option<usize>)
    ensures
        match at {
            Some(at) => at < rows.len() && entry_keys(entry_views(rows@)).index_of_first(key@)
                == Some(at as int),
            None => entry_keys(entry_views(rows@)).index_of_first(key@).is_none(),
        },
{
    let wanted = key.to_owned();
    let ghost keys = entry_keys(entry_views(rows@));
    let mut i: usize = 0;
    while i < rows.len()
        invariant
            i <= rows.len(),
            wanted@ == key@,
            keys == entry_keys(entry_views(rows@)),
            forall|j: int| 0 <= j < i ==> keys[j] != key@,
        decreases rows.len() - i,
    {
        assert(keys[i as int] == rows@[i as int].goodreads_id@);
        if rows[i].goodreads_id == wanted {
            proof {
                lemma_first_index(keys, key@, i as int);
            }
            return Some(i);
        }
        i += 1;
    }
    proof {
        lemma_no_index(keys, key@);
    }
    None
}

/// The library's identifier of the row at the place `at`, where the table
/// has identifiers that far.
fn id_at(at: usize) -> (id: Option<i64>)
    ensures
        match id {
            Some(id) => id == at + 1,
            None => !has_room(at as nat),
        },
{
    let wide: u64 = at as u64;
    if wide < 0x7fff_ffff_ffff_ffff {
        Some((wide + 1) as i64)
    } else {
        None
    }
}

/// Runs an upsert on a table of authors or series.
fn upsert(rows: &mut Vec<LibraryEntry>, name: &String, sort: &String, goodreads_id: &String) -> (done:
    Result<(), StoreFailure>)
    ensures
        match done {
            Ok(_) => upserted(entry_views(old(rows)@), name@, sort@, goodreads_id@) == Ok::<
                Seq<LibraryEntryView>,
                StoreFailure,
            >(entry_views(final(rows)@)),
            Err(failure) => upserted(entry_views(old(rows)@), name@, sort@, goodreads_id@) == Err::<
                Seq<LibraryEntryView>,
                StoreFailure,
            >(failure) && final(rows)@ == old(rows)@,
        },
{
    match find_entry(rows, goodreads_id.as_str()) {
        Some(at) => {
            let row = LibraryEntry {
                id: rows[at].id,
                name: name.clone(),
                sort: sort.clone(),
                goodreads_id: goodreads_id.clone(),
            };
            proof {
                assert(entry_views(rows@.update(at as int, row)) =~= entry_views(rows@).update(
                    at as int,
                    row@,
                ));
            }
            rows.set(at, row);
            Ok(())
        },
        None => match id_at(rows.len()) {
            Some(id) => {
                let row = LibraryEntry {
                    id,
                    name: name.clone(),
                    sort: sort.clone(),
                    goodreads_id: goodreads_id.clone(),
                };
                proof {
                    assert(entry_views(rows@.push(row)) =~= entry_views(rows@).push(row@));
                }
                rows.push(row);
                Ok(())
            },
            None => Err(StoreFailure::Full),
        },
    }
}

/// Whether `links` holds the link of `book` and `author`.
fn has_author_link(links: &Vec<(i64, i64)>, book: i64, author: i64) -> (b: bool)
    ensures
        b == author_link_views(links@).contains((book as int, author as int)),
{
    let ghost all = author_link_views(links@);
    let mut i: usize = 0;
    while i < links.len()
        invariant
            i <= links.len(),
            all == author_link_views(links@),
            forall|j: int| 0 <= j < i ==> all[j] != (book as int, author as int),
        decreases links.len() - i,
    {
        assert(all[i as int] == (links@[i as int].0 as int, links@[i as int].1 as int));
        if links[i].0 == book && links[i].1 == author {
            return true;
        }
        i += 1;
    }
    false
}

/// Whether `links` holds a link of `book` and `series`.
fn has_series_link(links: &Vec<(i64, i64, String)>, book: i64, series: i64) -> (b: bool)
    ensures
        b == series_pairs(series_link_views(links@)).contains((book as int, series as int)),
{
    let ghost all = series_pairs(series_link_views(links@));
    let mut i: usize = 0;
    while i < links.len()
        invariant
            i <= links.len(),
            all == series_pairs(series_link_views(links@)),
            forall|j: int| 0 <= j < i ==> all[j] != (book as int, series as int),
        decreases links.len() - i,
    {
        assert(all[i as int] == (links@[i as int].0 as int, links@[i as int].1 as int));
        if links[i].0 == book && links[i].1 == series {
            return true;
        }
        i += 1;
    }
    false
}

impl Library {
    /// A library without books.
    pub fn new() -> (library: Library)
        ensures
            library@.wf(),
            library@.books.len() == 0,
            library@.authors.len() == 0,
            library@.series.len() == 0,
            library@.books_authors_link.len() == 0,
            library@.books_series_link.len() == 0,
    {
        Library {
            books: Vec::new(),
            authors: Vec::new(),
            series: Vec::new(),
            books_authors_link: Vec::new(),
            books_series_link: Vec::new(),
        }
    }

    /// A copy of the library.
    pub fn copy(&self) -> (library: Library)
        ensures
            library@ == self@,
    {
        Library {
            books: copy_books(&self.books),
            authors: copy_entries(&self.authors),
            series: copy_entries(&self.series),
            books_authors_link: copy_author_links(&self.books_authors_link),
            books_series_link: copy_series_links(&self.books_series_link),
        }
    }

    /// The library's identifier of the book with the key `key`.
    fn book_id(&self, key: &str) -> (id: Option<i64>)
        requires
            self@.wf(),
        ensures
            match id {
                Some(id) => id_of(book_keys(self@.books), key@) == Some(id as int),
                None => id_of(book_keys(self@.books), key@).is_none(),
            },
    {
        match find_book(&self.books, key) {
            Some(at) => {
                assert(self@.books[at as int] == self.books@[at as int]@);
                Some(self.books[at].id)
            },
            None => None,
        }
    }

    /// The library's identifier of the author with the key `key`.
    fn author_id(&self, key: &str) -> (id: Option<i64>)
        requires
            self@.wf(),
        ensures
            match id {
                Some(id) => id_of(entry_keys(self@.authors), key@) == Some(id as int),
                None => id_of(entry_keys(self@.authors), key@).is_none(),
            },
    {
        match find_entry(&self.authors, key) {
            Some(at) => {
                assert(self@.authors[at as int] == self.authors@[at as int]@);
                Some(self.authors[at].id)
            },
            None => None,
        }
    }

    /// The library's identifier of the series with the key `key`.
    fn series_id(&self, key: &str) -> (id: Option<i64>)
        requires
            self@.wf(),
        ensures
            match id {
                Some(id) => id_of(entry_keys(self@.series), key@) == Some(id as int),
                None => id_of(entry_keys(self@.series), key@).is_none(),
            },
    {
        match find_entry(&self.series, key) {
            Some(at) => {
                assert(self@.series[at as int] == self.series@[at as int]@);
                Some(self.series[at].id)
            },
            None => None,
        }
    }

    /// Runs `statement` on the tables. Where it fails, they stay as they
    /// were.
    pub fn execute(&mut self, statement: &Statement) -> (done: Result<(), StoreFailure>)
        requires
            old(self)@.wf(),
        ensures
            final(self)@.wf(),
            match done {
                Ok(_) => old(self)@.applied(statement@) == Ok::<LibraryView, StoreFailure>(
                    final(self)@,
                ),
                Err(failure) => old(self)@.applied(statement@) == Err::<LibraryView, StoreFailure>(
                    failure,
                ) && final(self)@ == old(self)@,
            },
    {
        let ghost before = self@;
        let done = match statement {
            Statement::InsertBook {
                title,
                sort,
                date_added,
                date_published,
                number_of_pages,
                goodreads_id,
            } => {
                match find_book(&self.books, goodreads_id.as_str()) {
                    Some(_) => Err(StoreFailure::Unique),
                    None => match id_at(self.books.len()) {
                        Some(id) => {
                            let row = LibraryBook {
                                id,
                                title: title.clone(),
                                sort: sort.clone(),
                                number_of_pages: *number_of_pages,
                                goodreads_id: goodreads_id.clone(),
                                date_added: *date_added,
                                date_published: *date_published,
                                last_modified: *date_added,
                            };
                            proof {
                                assert(book_views(self.books@.push(row)) =~= book_views(
                                    self.books@,
                                ).push(row@));
                            }
                            self.books.push(row);
                            Ok(())
                        },
                        None => Err(StoreFailure::Full),
                    },
                }
            },
            Statement::UpsertAuthor { name, sort, goodreads_id } => upsert(
                &mut self.authors,
                name,
                sort,
                goodreads_id,
            ),
            Statement::UpsertSeries { name, sort, goodreads_id } => upsert(
                &mut self.series,
                name,
                sort,
                goodreads_id,
            ),
            Statement::LinkAuthor { book, author } => {
                match (self.book_id(book.as_str()), self.author_id(author.as_str())) {
                    (Some(book), Some(author)) => {
                        if !has_author_link(&self.books_authors_link, book, author) {
                            proof {
                                assert(author_link_views(
                                    self.books_authors_link@.push((book, author)),
                                ) =~= author_link_views(self.books_authors_link@).push(
                                    (book as int, author as int),
                                ));
                            }
                            self.books_authors_link.push((book, author));
                        }
                        Ok(())
                    },
                    _ => Err(StoreFailure::Missing),
                }
            },
            Statement::LinkSeries { book, series, entry } => {
                match (self.book_id(book.as_str()), self.series_id(series.as_str())) {
                    (Some(book), Some(series)) => {
                        if has_series_link(&self.books_series_link, book, series) {
                            Err(StoreFailure::Unique)
                        } else {
                            let link = (book, series, entry.clone());
                            proof {
                                assert(series_link_views(self.books_series_link@.push(link))
                                    =~= series_link_views(self.books_series_link@).push(
                                    (book as int, series as int, entry@),
                                ));
                            }
                            self.books_series_link.push(link);
                            Ok(())
                        }
                    },
                    _ => Err(StoreFailure::Missing),
                }
            },
        };
        proof {
            if done.is_ok() {
                before.lemma_applied(statement@);
            }
        }
        done
    }
}

/// The sort key that `rows` hold for `name`.
fn find_sort(rows: &Vec<LibraryEntry>, name: &str) -> (sort: Option<String>)
    ensures
        text_view(sort) == stored_sort(entry_views(rows@), name@),
{
    let wanted = name.to_owned();
    let ghost all = entry_views(rows@);
    let mut i: usize = 0;
    assert(all.skip(0) == all);
    while i < rows.len()
        invariant
            i <= rows.len(),
            wanted@ == name@,
            all == entry_views(rows@),
            stored_sort(all, name@) == stored_sort(all.skip(i as int), name@),
        decreases rows.len() - i,
    {
        proof {
            assert(all.skip(i as int)[0] == rows@[i as int]@);
            assert(all.skip(i as int).skip(1) == all.skip(i + 1));
        }
        if rows[i].name == wanted {
            return Some(rows[i].sort.clone());
        }
        i += 1;
    }
    None
}

/// The statements that take the book of `book` in.
pub fn plan(book: &BookRecord) -> (statements: Vec<Statement>)
    ensures
        statement_views(statements@) == plan_of(book@),
{
    let mut statements: Vec<Statement> = Vec::new();
    let first = Statement::InsertBook {
        title: book.title.clone(),
        sort: book.sort.clone(),
        date_added: book.date_added,
        date_published: book.date_published,
        number_of_pages: book.number_of_pages,
        goodreads_id: book.goodreads_id.clone(),
    };
    assert(statement_views(statements@.push(first)) =~= seq![book_statement(book@)]);
    statements.push(first);
    let ghost key = book@.goodreads_id;
    let ghost authors = book@.authors;
    let mut i: usize = 0;
    assert(author_statements(key, authors.take(0)) =~= Seq::empty());
    while i < book.authors.len()
        invariant
            i <= book.authors.len(),
            key == book@.goodreads_id,
            authors == book@.authors,
            statement_views(statements@) =~= seq![book_statement(book@)] + author_statements(
                key,
                authors.take(i as int),
            ),
        decreases book.authors.len() - i,
    {
        let author = &book.authors[i];
        let upsert = Statement::UpsertAuthor {
            name: author.name.clone(),
            sort: author.sort.clone(),
            goodreads_id: author.goodreads_id.clone(),
        };
        let link = Statement::LinkAuthor {
            book: book.goodreads_id.clone(),
            author: author.goodreads_id.clone(),
        };
        proof {
            assert(authors.take(i + 1).drop_last() == authors.take(i as int));
            assert(authors.take(i + 1).last() == author@);
            assert(statement_views(statements@.push(upsert).push(link)) =~= statement_views(
                statements@,
            ).push(upsert@).push(link@));
        }
        statements.push(upsert);
        statements.push(link);
        i += 1;
    }
    assert(authors.take(authors.len() as int) == authors);
    let ghost series = book@.series_and_volume;
    let ghost front = statement_views(statements@);
    let mut k: usize = 0;
    assert(series_statements(key, series.take(0)) =~= Seq::empty());
    while k < book.series_and_volume.len()
        invariant
            k <= book.series_and_volume.len(),
            key == book@.goodreads_id,
            series == book@.series_and_volume,
            front == seq![book_statement(book@)] + author_statements(key, book@.authors),
            statement_views(statements@) =~= front + series_statements(key, series.take(k as int)),
        decreases book.series_and_volume.len() - k,
    {
        let entry = &book.series_and_volume[k];
        let upsert = Statement::UpsertSeries {
            name: entry.series.clone(),
            sort: entry.sort.clone(),
            goodreads_id: entry.goodreads_id.clone(),
        };
        let link = Statement::LinkSeries {
            book: book.goodreads_id.clone(),
            series: entry.goodreads_id.clone(),
            entry: entry.volume.clone(),
        };
        proof {
            assert(series.take(k + 1).drop_last() == series.take(k as int));
            assert(series.take(k + 1).last() == entry@);
            assert(statement_views(statements@.push(upsert).push(link)) =~= statement_views(
                statements@,
            ).push(upsert@).push(link@));
        }
        statements.push(upsert);
        statements.push(link);
        k += 1;
    }
    assert(series.take(series.len() as int) == series);
    statements
}

/// Why a book is not taken in when `statement` fails with `failure`.
pub fn reject(statement: &Statement, failure: StoreFailure) -> (error: InsertBookError)
    ensures
        error@ == rejection(statement@, failure),
{
    let text = match failure {
        StoreFailure::Unique => "a row with the same key exists",
        StoreFailure::Missing => "a row that is referred to is missing",
        StoreFailure::Full => "the table is full",
    };
    match statement {
        Statement::InsertBook { goodreads_id, .. } => match failure {
            StoreFailure::Unique => InsertBookError::BookAlreadyExists(goodreads_id.clone()),
            _ => InsertBookError::Db(text.to_owned()),
        },
        _ => InsertBookError::Db(text.to_owned()),
    }
}

impl Library {
    /// Takes the book of `book` into the library: all of it, or, where a
    /// statement fails, nothing. A book that the library welcomes is taken
    /// in; a book that it holds already, and a book whose record names a
    /// series twice, is not.
    pub fn insert_book(&mut self, book: BookRecord) -> (done: Result<(), InsertBookError>)
        requires
            old(self)@.wf(),
        ensures
            final(self)@.wf(),
            final(self)@ == old(self)@.after_ingestion(book@),
            match done {
                Ok(_) => old(self)@.ingested(book@) == Ok::<LibraryView, InsertBookErrorView>(
                    final(self)@,
                ),
                Err(error) => old(self)@.ingested(book@) == Err::<LibraryView, InsertBookErrorView>(
                    error@,
                ),
            },
            old(self)@.welcomes(book@) ==> done.is_ok(),
            done.is_ok() ==> !book_keys(old(self)@.books).contains(book@.goodreads_id)
                && volume_keys(book@.series_and_volume).no_duplicates(),
    {
        proof {
            lemma_when_a_book_is_taken_in(self@, book@);
        }
        let statements = plan(&book);
        let ghost all = statement_views(statements@);
        let mut next = self.copy();
        let mut i: usize = 0;
        assert(all.skip(0) == all);
        while i < statements.len()
            invariant
                i <= statements.len(),
                next@.wf(),
                all == statement_views(statements@),
                all == plan_of(book@),
                self@ == old(self)@,
                self@.wf(),
                old(self)@.welcomes(book@) ==> old(self)@.ingested(book@).is_ok(),
                old(self)@.ingested(book@).is_ok() ==> !book_keys(old(self)@.books).contains(
                    book@.goodreads_id,
                ) && volume_keys(book@.series_and_volume).no_duplicates(),
                old(self)@.run(all) == next@.run(all.skip(i as int)),
            decreases statements.len() - i,
        {
            proof {
                assert(all.skip(i as int)[0] == statements@[i as int]@);
                assert(all.skip(i as int).skip(1) == all.skip(i + 1));
            }
            match next.execute(&statements[i]) {
                Ok(_) => {},
                Err(failure) => {
                    return Err(reject(&statements[i], failure));
                },
            }
            i += 1;
        }
        *self = next;
        Ok(())
    }

    /// The sort key that the library holds for an author whose name is exactly
    /// `name`.
    pub fn try_fetch_author_sort(&self, name: &str) -> (sort: Option<String>)
        ensures
            text_view(sort) == stored_sort(self@.authors, name@),
    {
        find_sort(&self.authors, name)
    }

    /// The sort key that the library holds for a series whose name is exactly
    /// `name`.
    pub fn try_fetch_series_sort(&self, name: &str) -> (sort: Option<String>)
        ensures
            text_view(sort) == stored_sort(self@.series, name@),
    {
        find_sort(&self.series, name)
    }

    /// Takes the book of `metadata` into the library at the time
    /// `date_added`, under the sort keys that the library holds for its
    /// authors and series, or else under fresh ones.
    pub fn add_book(&mut self, metadata: &BookMetadata, date_added: i64) -> (done: Result<
        (),
        InsertBookError,
    >)
        requires
            old(self)@.wf(),
        ensures
            final(self)@.wf(),
            final(self)@ == old(self)@.after_ingestion(old(self)@.record_for(metadata@, date_added)),
            match done {
                Ok(_) => old(self)@.ingested(old(self)@.record_for(metadata@, date_added)) == Ok::<
                    LibraryView,
                    InsertBookErrorView,
                >(final(self)@),
                Err(error) => old(self)@.ingested(old(self)@.record_for(metadata@, date_added))
                    == Err::<LibraryView, InsertBookErrorView>(error@),
            },
            old(self)@.welcomes(old(self)@.record_for(metadata@, date_added)) ==> done.is_ok(),
    {
        let mut author_sorts: Vec<Option<String>> = Vec::new();
        let mut i: usize = 0;
        while i < metadata.contributors.len()
            invariant
                i <= metadata.contributors.len(),
                self@ == old(self)@,
                key_views(author_sorts@) =~= Seq::new(
                    i as nat,
                    |k: int| stored_sort(self@.authors, metadata@.contributors[k].name),
                ),
            decreases metadata.contributors.len() - i,
        {
            let sort = self.try_fetch_author_sort(metadata.contributors[i].name.as_str());
            proof {
                assert(metadata@.contributors[i as int] == metadata.contributors@[i as int]@);
                assert(key_views(author_sorts@.push(sort)) =~= key_views(author_sorts@).push(
                    text_view(sort),
                ));
            }
            author_sorts.push(sort);
            i += 1;
        }
        let mut series_sorts: Vec<Option<String>> = Vec::new();
        let mut k: usize = 0;
        while k < metadata.series.len()
            invariant
                k <= metadata.series.len(),
                self@ == old(self)@,
                key_views(series_sorts@) =~= Seq::new(
                    k as nat,
                    |j: int| stored_sort(self@.series, metadata@.series[j].title),
                ),
            decreases metadata.series.len() - k,
        {
            let sort = self.try_fetch_series_sort(metadata.series[k].title.as_str());
            proof {
                assert(metadata@.series[k as int] == metadata.series@[k as int]@);
                assert(key_views(series_sorts@.push(sort)) =~= key_views(series_sorts@).push(
                    text_view(sort),
                ));
            }
            series_sorts.push(sort);
            k += 1;
        }
        let record = assemble_record(metadata, &author_sorts, &series_sorts, date_added);
        self.insert_book(record)
    }

    /// The rows of the table of books.
    pub fn books(&self) -> (rows: Vec<LibraryBook>)
        ensures
            book_views(rows@) == self@.books,
    {
        copy_books(&self.books)
    }

    /// The rows of the table of authors.
    pub fn authors(&self) -> (rows: Vec<LibraryEntry>)
        ensures
            entry_views(rows@) == self@.authors,
    {
        copy_entries(&self.authors)
    }

    /// The rows of the table of series.
    pub fn series(&self) -> (rows: Vec<LibraryEntry>)
        ensures
            entry_views(rows@) == self@.series,
    {
        copy_entries(&self.series)
    }

    /// The links of books and authors: of each, the book and the author.
    pub fn books_authors_link(&self) -> (links: Vec<(i64, i64)>)
        ensures
            author_link_views(links@) == self@.books_authors_link,
    {
        copy_author_links(&self.books_authors_link)
    }

    /// The links of books and series: of each, the book, the series, and
    /// the book's position in the series.
    pub fn books_series_link(&self) -> (links: Vec<(i64, i64, String)>)
        ensures
            series_link_views(links@) == self@.books_series_link,
    {
        copy_series_links(&self.books_series_link)
    }
}

} // verus!
