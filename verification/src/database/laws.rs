//! What holds of the library whatever is taken into it.

use vstd::prelude::*;
use crate::database::queries::{
    author_statements, book_keys, book_statement, entry_keys, id_of, lemma_upserted, plan_of,
    series_pairs, series_statements, volume_keys, LibraryBookView, LibraryEntryView, LibraryView,
    StatementView, StoreFailure,
};
use crate::database::types::{
    AuthorRecordView, BookRecordView, InsertBookErrorView, SeriesAndVolumeRecordView,
};
use crate::scraper::metadata_fetcher::BookMetadataView;
use crate::scraper::sorting::{lemma_title_sort_key_is_not_empty, title_sort_key};

verus! {

/// Whether `statement` touches the authors and their links only.
pub open spec fn is_author_statement(statement: StatementView) -> bool {
    statement is UpsertAuthor || statement is LinkAuthor
}

/// Whether `statement` touches the series and their links only.
pub open spec fn is_series_statement(statement: StatementView) -> bool {
    statement is UpsertSeries || statement is LinkSeries
}

/// The statements for the authors of a book touch nothing else.
pub proof fn lemma_author_statements_kind(book: Seq<char>, authors: Seq<AuthorRecordView>)
    ensures
        forall|i: int|
            0 <= i < author_statements(book, authors).len() ==> is_author_statement(
                #[trigger] author_statements(book, authors)[i],
            ),
    decreases authors.len(),
{
    if authors.len() > 0 {
        lemma_author_statements_kind(book, authors.drop_last());
        let front = author_statements(book, authors.drop_last());
        let all = author_statements(book, authors);
        assert forall|i: int| 0 <= i < all.len() implies is_author_statement(#[trigger] all[i]) by {
            if i < front.len() {
                assert(all[i] == front[i]);
            } else {
                assert(i == front.len() || i == front.len() + 1);
            }
        }
    }
}

/// The statements for the series of a book touch nothing else.
pub proof fn lemma_series_statements_kind(book: Seq<char>, series: Seq<SeriesAndVolumeRecordView>)
    ensures
        forall|i: int|
            0 <= i < series_statements(book, series).len() ==> is_series_statement(
                #[trigger] series_statements(book, series)[i],
            ),
    decreases series.len(),
{
    if series.len() > 0 {
        lemma_series_statements_kind(book, series.drop_last());
        let front = series_statements(book, series.drop_last());
        let all = series_statements(book, series);
        assert forall|i: int| 0 <= i < all.len() implies is_series_statement(#[trigger] all[i]) by {
            if i < front.len() {
                assert(all[i] == front[i]);
            } else {
                assert(i == front.len() || i == front.len() + 1);
            }
        }
    }
}

/// Statements for authors leave the books and the series as they are.
pub proof fn lemma_author_run(store: LibraryView, plan: Seq<StatementView>)
    requires
        forall|i: int| 0 <= i < plan.len() ==> is_author_statement(#[trigger] plan[i]),
        store.run(plan).is_ok(),
    ensures
        store.run(plan)->Ok_0.books == store.books,
        store.run(plan)->Ok_0.series == store.series,
        store.run(plan)->Ok_0.books_series_link == store.books_series_link,
    decreases plan.len(),
{
    if plan.len() > 0 {
        assert(is_author_statement(plan[0]));
        let next = store.applied(plan[0])->Ok_0;
        assert forall|i: int| 0 <= i < plan.skip(1).len() implies is_author_statement(
            #[trigger] plan.skip(1)[i],
        ) by {
            assert(plan.skip(1)[i] == plan[i + 1]);
        }
        lemma_author_run(next, plan.skip(1));
    }
}

/// Statements for series leave the books and the authors as they are.
pub proof fn lemma_series_run(store: LibraryView, plan: Seq<StatementView>)
    requires
        forall|i: int| 0 <= i < plan.len() ==> is_series_statement(#[trigger] plan[i]),
        store.run(plan).is_ok(),
    ensures
        store.run(plan)->Ok_0.books == store.books,
        store.run(plan)->Ok_0.authors == store.authors,
        store.run(plan)->Ok_0.books_authors_link == store.books_authors_link,
    decreases plan.len(),
{
    if plan.len() > 0 {
        assert(is_series_statement(plan[0]));
        let next = store.applied(plan[0])->Ok_0;
        assert forall|i: int| 0 <= i < plan.skip(1).len() implies is_series_statement(
            #[trigger] plan.skip(1)[i],
        ) by {
            assert(plan.skip(1)[i] == plan[i + 1]);
        }
        lemma_series_run(next, plan.skip(1));
    }
}

/// The tables once the book of `record` is inserted, before its authors
/// and series are.
pub open spec fn with_book(store: LibraryView, record: BookRecordView) -> LibraryView {
    store.applied(book_statement(record))->Ok_0
}

/// The tables once the book of `record` and its authors are inserted,
/// before its series are.
pub open spec fn with_authors(store: LibraryView, record: BookRecordView) -> LibraryView {
    with_book(store, record).run(author_statements(record.goodreads_id, record.authors))->Ok_0
}

/// Taking a book in is inserting the book, then its authors, then its
/// series; each part succeeds where the whole does, and only the first part
/// changes the table of books.
pub proof fn lemma_ingested_in_parts(store: LibraryView, record: BookRecordView)
    requires
        store.wf(),
        store.ingested(record).is_ok(),
    ensures
        store.applied(book_statement(record)).is_ok(),
        with_book(store, record).run(
            author_statements(record.goodreads_id, record.authors),
        ).is_ok(),
        with_authors(store, record).run(
            series_statements(record.goodreads_id, record.series_and_volume),
        ) == Ok::<LibraryView, (StatementView, StoreFailure)>(store.ingested(record)->Ok_0),
        with_book(store, record).wf(),
        with_authors(store, record).wf(),
        store.ingested(record)->Ok_0.wf(),
        with_authors(store, record).books == with_book(store, record).books,
        store.ingested(record)->Ok_0.books == with_book(store, record).books,
        store.ingested(record)->Ok_0.authors == with_authors(store, record).authors,
        store.ingested(record)->Ok_0.books_authors_link == with_authors(
            store,
            record,
        ).books_authors_link,
{
    let first = seq![book_statement(record)];
    let second = author_statements(record.goodreads_id, record.authors);
    let third = series_statements(record.goodreads_id, record.series_and_volume);
    store.lemma_run_in_parts(first + second, third);
    store.lemma_run_in_parts(first, second);
    assert(first[0] == book_statement(record));
    assert(first.skip(1) =~= Seq::<StatementView>::empty());
    assert(store.run(first) == match store.applied(book_statement(record)) {
        Ok(next) => Ok::<LibraryView, (StatementView, StoreFailure)>(next),
        Err(failure) => Err((book_statement(record), failure)),
    }) by {
        match store.applied(book_statement(record)) {
            Ok(next) => {
                assert(next.run(first.skip(1)) == Ok::<LibraryView, (StatementView, StoreFailure)>(
                    next,
                ));
            },
            Err(_) => {},
        }
    }
    store.lemma_applied(book_statement(record));
    with_book(store, record).lemma_run(second);
    with_authors(store, record).lemma_run(third);
    lemma_author_statements_kind(record.goodreads_id, record.authors);
    lemma_series_statements_kind(record.goodreads_id, record.series_and_volume);
    lemma_author_run(with_book(store, record), second);
    lemma_series_run(with_authors(store, record), third);
}

/// A book is taken in once. Where the library has taken the book of `first`
/// in, it holds exactly one more book than before and exactly one with that
/// identifier of the catalog; and the book of `second`, which has the same
/// identifier, is refused as being there already, which leaves the library
/// as it was.
pub proof fn lemma_book_is_taken_in_once(
    store: LibraryView,
    first: BookRecordView,
    second: BookRecordView,
)
    requires
        store.wf(),
        first.goodreads_id == second.goodreads_id,
        store.ingested(first).is_ok(),
    ensures
        ({
            let after = store.ingested(first)->Ok_0;
            let at = store.books.len() as int;
            &&& after.wf()
            &&& after.books.len() == store.books.len() + 1
            &&& after.books[at].goodreads_id == first.goodreads_id
            &&& forall|other: int|
                0 <= other < after.books.len() && other != at ==> (#[trigger] after.books[other]).goodreads_id
                    != first.goodreads_id
            &&& after.ingested(second) == Err::<LibraryView, InsertBookErrorView>(
                InsertBookErrorView::BookAlreadyExists(first.goodreads_id),
            )
            &&& after.after_ingestion(second) == after
        }),
{
    let after = store.ingested(first)->Ok_0;
    let at = store.books.len() as int;
    lemma_ingested_in_parts(store, first);
    let keys = book_keys(after.books);
    assert(keys[at] == first.goodreads_id);
    assert(keys.contains(second.goodreads_id));
    assert forall|other: int| 0 <= other < after.books.len() && other != at implies (
    #[trigger] after.books[other]).goodreads_id != first.goodreads_id by {
        assert(keys[other] == after.books[other].goodreads_id);
    }
    let plan = plan_of(second);
    assert(plan[0] == book_statement(second));
    assert(after.applied(plan[0]) == Err::<LibraryView, StoreFailure>(StoreFailure::Unique));
}

/// The record of a book is taken in once, whenever it is offered again.
/// Where the library has taken the book of `metadata` in at the time
/// `first`, it refuses at any later time `second` the book of the same
/// `metadata` as being there already, and stays as it was.
pub proof fn lemma_metadata_is_taken_in_once(
    store: LibraryView,
    metadata: BookMetadataView,
    first: i64,
    second: i64,
)
    requires
        store.wf(),
        store.ingested(store.record_for(metadata, first)).is_ok(),
    ensures
        ({
            let after = store.ingested(store.record_for(metadata, first))->Ok_0;
            let again = after.record_for(metadata, second);
            &&& after.wf()
            &&& after.books.len() == store.books.len() + 1
            &&& after.ingested(again) == Err::<LibraryView, InsertBookErrorView>(
                InsertBookErrorView::BookAlreadyExists(metadata.goodreads_id),
            )
            &&& after.after_ingestion(again) == after
        }),
{
    let after = store.ingested(store.record_for(metadata, first))->Ok_0;
    lemma_book_is_taken_in_once(
        store,
        store.record_for(metadata, first),
        after.record_for(metadata, second),
    );
}

/// Where a key stands in a sequence without duplicates, it stands first.
pub proof fn lemma_key_place(keys: Seq<Seq<char>>, key: Seq<char>, at: int)
    requires
        keys.no_duplicates(),
        0 <= at < keys.len(),
        keys[at] == key,
    ensures
        keys.index_of_first(key) == Some(at),
        id_of(keys, key) == Some(at + 1),
{
    keys.index_of_first_ensures(key);
    assert(keys.contains(key));
}

/// The row of an author that the statements for a book's authors leave
/// behind, and the link: the author's row has the name and sort key of the
/// last of `authors` with its identifier, and the book is linked to it.
pub proof fn lemma_authors_taken_in(
    store: LibraryView,
    book: Seq<char>,
    authors: Seq<AuthorRecordView>,
    k: int,
)
    requires
        store.wf(),
        store.run(author_statements(book, authors)).is_ok(),
        0 <= k < authors.len(),
        forall|j: int| k < j < authors.len() ==> (#[trigger] authors[j]).goodreads_id != authors[k].goodreads_id,
    ensures
        ({
            let after = store.run(author_statements(book, authors))->Ok_0;
            let key = authors[k].goodreads_id;
            &&& after.wf()
            &&& after.books == store.books
            &&& store.extends_to(after)
            &&& id_of(book_keys(store.books), book).is_some()
            &&& exists|at: int|
                0 <= at < after.authors.len() && #[trigger] after.authors[at] == (LibraryEntryView {
                    id: at + 1,
                    name: authors[k].name,
                    sort: authors[k].sort,
                    goodreads_id: key,
                }) && after.books_authors_link.contains(
                    (id_of(book_keys(store.books), book)->Some_0, at + 1),
                )
        }),
    decreases authors.len(),
{
    let front = authors.drop_last();
    let last = authors.last();
    let upsert = StatementView::UpsertAuthor {
        name: last.name,
        sort: last.sort,
        goodreads_id: last.goodreads_id,
    };
    let link = StatementView::LinkAuthor { book, author: last.goodreads_id };
    let tail = seq![upsert, link];
    let key = authors[k].goodreads_id;
    store.lemma_run_in_parts(author_statements(book, front), tail);
    let middle = store.run(author_statements(book, front))->Ok_0;
    store.lemma_run(author_statements(book, front));
    lemma_author_statements_kind(book, front);
    lemma_author_run(store, author_statements(book, front));
    assert(tail[0] == upsert);
    assert(tail.skip(1)[0] == link);
    assert(tail.skip(1).skip(1) =~= Seq::<StatementView>::empty());
    let upserted = middle.applied(upsert)->Ok_0;
    let after = upserted.applied(link)->Ok_0;
    assert(middle.run(tail) == Ok::<LibraryView, (StatementView, StoreFailure)>(after)) by {
        assert(upserted.run(tail.skip(1)) == after.run(tail.skip(1).skip(1)));
    }
    middle.lemma_applied(upsert);
    upserted.lemma_applied(link);
    lemma_upserted(middle.authors, last.name, last.sort, last.goodreads_id);
    let book_id = id_of(book_keys(store.books), book)->Some_0;
    if k == authors.len() - 1 {
        let at = choose|at: int|
            0 <= at < upserted.authors.len() && #[trigger] upserted.authors[at] == (
            LibraryEntryView { id: at + 1, name: last.name, sort: last.sort, goodreads_id: key });
        assert(entry_keys(upserted.authors)[at] == key);
        lemma_key_place(entry_keys(upserted.authors), key, at);
        assert(after.authors[at] == upserted.authors[at]);
        assert(after.books_authors_link.contains((book_id, at + 1))) by {
            if !upserted.books_authors_link.contains((book_id, at + 1)) {
                assert(after.books_authors_link[upserted.books_authors_link.len() as int] == (
                    book_id,
                    at + 1,
                ));
            }
        }
    } else {
        assert forall|j: int| k < j < front.len() implies (#[trigger] front[j]).goodreads_id
            != front[k].goodreads_id by {
            assert(front[j] == authors[j]);
        }
        assert(front[k] == authors[k]);
        lemma_authors_taken_in(store, book, front, k);
        let at = choose|at: int|
            0 <= at < middle.authors.len() && #[trigger] middle.authors[at] == (LibraryEntryView {
                id: at + 1,
                name: authors[k].name,
                sort: authors[k].sort,
                goodreads_id: key,
            }) && middle.books_authors_link.contains((book_id, at + 1));
        assert(last.goodreads_id != key);
        assert(upserted.authors[at] == middle.authors[at]);
        assert(after.authors[at] == upserted.authors[at]);
        let i = choose|i: int|
            0 <= i < middle.books_authors_link.len() && middle.books_authors_link[i] == (
                book_id,
                at + 1,
            );
        assert(after.books_authors_link[i] == (book_id, at + 1));
    }
}

/// The statements for a book's authors link nobody but that book: every
/// link that they leave behind was there before or is a link of the book.
pub proof fn lemma_links_of_a_book(
    store: LibraryView,
    book: Seq<char>,
    authors: Seq<AuthorRecordView>,
)
    requires
        store.wf(),
        store.run(author_statements(book, authors)).is_ok(),
    ensures
        ({
            let after = store.run(author_statements(book, authors))->Ok_0;
            forall|i: int|
                0 <= i < after.books_authors_link.len() ==> store.books_authors_link.contains(
                    #[trigger] after.books_authors_link[i],
                ) || Some(after.books_authors_link[i].0) == id_of(book_keys(store.books), book)
        }),
    decreases authors.len(),
{
    let after = store.run(author_statements(book, authors))->Ok_0;
    if authors.len() == 0 {
        assert forall|i: int| 0 <= i < after.books_authors_link.len() implies store.books_authors_link.contains(
            #[trigger] after.books_authors_link[i],
        ) by {
            assert(store.books_authors_link[i] == after.books_authors_link[i]);
        }
    } else {
        let front = authors.drop_last();
        let last = authors.last();
        let upsert = StatementView::UpsertAuthor {
            name: last.name,
            sort: last.sort,
            goodreads_id: last.goodreads_id,
        };
        let link = StatementView::LinkAuthor { book, author: last.goodreads_id };
        let tail = seq![upsert, link];
        store.lemma_run_in_parts(author_statements(book, front), tail);
        let middle = store.run(author_statements(book, front))->Ok_0;
        lemma_author_statements_kind(book, front);
        lemma_author_run(store, author_statements(book, front));
        lemma_links_of_a_book(store, book, front);
        assert(tail[0] == upsert);
        assert(tail.skip(1)[0] == link);
        assert(tail.skip(1).skip(1) =~= Seq::<StatementView>::empty());
        let upserted = middle.applied(upsert)->Ok_0;
        assert(middle.run(tail) == Ok::<LibraryView, (StatementView, StoreFailure)>(
            upserted.applied(link)->Ok_0,
        )) by {
            assert(upserted.run(tail.skip(1)) == upserted.applied(link)->Ok_0.run(
                tail.skip(1).skip(1),
            ));
        }
        assert forall|i: int| 0 <= i < after.books_authors_link.len() implies store.books_authors_link.contains(
            #[trigger] after.books_authors_link[i],
        ) || Some(after.books_authors_link[i].0) == id_of(book_keys(store.books), book) by {
            if i < middle.books_authors_link.len() {
                assert(after.books_authors_link[i] == middle.books_authors_link[i]);
            }
        }
    }
}

/// Among `authors`, the last that has the identifier of the `i`-th.
pub proof fn lemma_last_mention(authors: Seq<AuthorRecordView>, i: int) -> (k: int)
    requires
        0 <= i < authors.len(),
    ensures
        i <= k < authors.len(),
        authors[k].goodreads_id == authors[i].goodreads_id,
        forall|j: int| k < j < authors.len() ==> (#[trigger] authors[j]).goodreads_id != authors[k].goodreads_id,
    decreases authors.len() - i,
{
    if exists|j: int| i < j < authors.len() && (#[trigger] authors[j]).goodreads_id == authors[i].goodreads_id {
        let j = choose|j: int|
            i < j < authors.len() && (#[trigger] authors[j]).goodreads_id == authors[i].goodreads_id;
        lemma_last_mention(authors, j)
    } else {
        i
    }
}

/// An author is one row, whatever the number of books. Where the library
/// has taken in the book of `first` and then the book of `second`, another
/// book, and both name an author with the same identifier of the catalog,
/// the library holds exactly one author with that identifier. The row has
/// the name and the sort key that `second` gives the author where it names
/// the author last, and each of the two books is linked to it, once.
pub proof fn lemma_shared_author_is_one_row(
    store: LibraryView,
    first: BookRecordView,
    second: BookRecordView,
    i: int,
    k: int,
)
    requires
        store.wf(),
        first.goodreads_id != second.goodreads_id,
        0 <= i < first.authors.len(),
        0 <= k < second.authors.len(),
        first.authors[i].goodreads_id == second.authors[k].goodreads_id,
        forall|j: int|
            k < j < second.authors.len() ==> (#[trigger] second.authors[j]).goodreads_id
                != second.authors[k].goodreads_id,
        store.ingested(first).is_ok(),
        store.ingested(first)->Ok_0.ingested(second).is_ok(),
    ensures
        ({
            let after = store.ingested(first)->Ok_0.ingested(second)->Ok_0;
            let key = second.authors[k].goodreads_id;
            let first_book = store.books.len() as int + 1;
            let second_book = store.books.len() as int + 2;
            &&& after.wf()
            &&& after.books.len() == store.books.len() + 2
            &&& after.books[first_book - 1].goodreads_id == first.goodreads_id
            &&& after.books[second_book - 1].goodreads_id == second.goodreads_id
            &&& after.books_authors_link.no_duplicates()
            &&& exists|at: int|
                0 <= at < after.authors.len() && #[trigger] after.authors[at] == (LibraryEntryView {
                    id: at + 1,
                    name: second.authors[k].name,
                    sort: second.authors[k].sort,
                    goodreads_id: key,
                }) && (forall|other: int|
                    0 <= other < after.authors.len() && other != at ==> (
                    #[trigger] after.authors[other]).goodreads_id != key)
                    && after.books_authors_link.contains((first_book, at + 1))
                    && after.books_authors_link.contains((second_book, at + 1))
                    && (forall|i: int|
                    0 <= i < after.books_authors_link.len() && (
                    #[trigger] after.books_authors_link[i]).1 == at + 1
                        ==> store.books_authors_link.contains(after.books_authors_link[i])
                        || after.books_authors_link[i].0 == first_book
                        || after.books_authors_link[i].0 == second_book)
        }),
{
    let between = store.ingested(first)->Ok_0;
    let after = between.ingested(second)->Ok_0;
    let key = second.authors[k].goodreads_id;
    let first_book = store.books.len() as int + 1;
    let second_book = store.books.len() as int + 2;
    lemma_ingested_in_parts(store, first);
    lemma_ingested_in_parts(between, second);
    // The first book and its link.
    let last = lemma_last_mention(first.authors, i);
    lemma_authors_taken_in(with_book(store, first), first.goodreads_id, first.authors, last);
    let first_keys = book_keys(with_book(store, first).books);
    assert(first_keys[first_book - 1] == first.goodreads_id);
    lemma_key_place(first_keys, first.goodreads_id, first_book - 1);
    let early = choose|at: int|
        0 <= at < with_authors(store, first).authors.len() && #[trigger] with_authors(
            store,
            first,
        ).authors[at] == (LibraryEntryView {
            id: at + 1,
            name: first.authors[last].name,
            sort: first.authors[last].sort,
            goodreads_id: key,
        }) && with_authors(store, first).books_authors_link.contains((first_book, at + 1));
    assert(between.books_authors_link.contains((first_book, early + 1)));
    assert(entry_keys(between.authors)[early] == key);
    // The second book and its link.
    lemma_authors_taken_in(with_book(between, second), second.goodreads_id, second.authors, k);
    let second_keys = book_keys(with_book(between, second).books);
    assert(second_keys[second_book - 1] == second.goodreads_id);
    lemma_key_place(second_keys, second.goodreads_id, second_book - 1);
    let at = choose|at: int|
        0 <= at < with_authors(between, second).authors.len() && #[trigger] with_authors(
            between,
            second,
        ).authors[at] == (LibraryEntryView {
            id: at + 1,
            name: second.authors[k].name,
            sort: second.authors[k].sort,
            goodreads_id: key,
        }) && with_authors(between, second).books_authors_link.contains((second_book, at + 1));
    // The author keeps its place.
    between.lemma_run(plan_of(second));
    let late_keys = entry_keys(after.authors);
    assert(late_keys[at] == key);
    assert(late_keys[early] == entry_keys(between.authors)[early]);
    assert(at == early);
    assert forall|other: int| 0 <= other < after.authors.len() && other != at implies (
    #[trigger] after.authors[other]).goodreads_id != key by {
        assert(late_keys[other] == after.authors[other].goodreads_id);
    }
    let place = choose|place: int|
        0 <= place < between.books_authors_link.len() && between.books_authors_link[place] == (
            first_book,
            early + 1,
        );
    assert(after.books_authors_link[place] == (first_book, at + 1));
    // The links that the two books brought.
    lemma_links_of_a_book(with_book(store, first), first.goodreads_id, first.authors);
    lemma_links_of_a_book(with_book(between, second), second.goodreads_id, second.authors);
    assert forall|i: int|
        0 <= i < after.books_authors_link.len() implies store.books_authors_link.contains(
        #[trigger] after.books_authors_link[i],
    ) || after.books_authors_link[i].0 == first_book || after.books_authors_link[i].0
        == second_book by {
        let link = after.books_authors_link[i];
        if with_book(between, second).books_authors_link.contains(link) {
            let j = choose|j: int|
                0 <= j < between.books_authors_link.len() && between.books_authors_link[j] == link;
            assert(with_authors(store, first).books_authors_link[j] == link);
        }
    }
}

/// The row of a series that the statements for a book's series leave
/// behind, and the link: the row has the name and sort key of the last of
/// `series` with its identifier, and the book is linked to it at the
/// position that this one gives.
pub proof fn lemma_series_taken_in(
    store: LibraryView,
    book: Seq<char>,
    series: Seq<SeriesAndVolumeRecordView>,
    k: int,
)
    requires
        store.wf(),
        store.run(series_statements(book, series)).is_ok(),
        0 <= k < series.len(),
        forall|j: int| k < j < series.len() ==> (#[trigger] series[j]).goodreads_id != series[k].goodreads_id,
    ensures
        ({
            let after = store.run(series_statements(book, series))->Ok_0;
            let key = series[k].goodreads_id;
            &&& after.wf()
            &&& after.books == store.books
            &&& store.extends_to(after)
            &&& id_of(book_keys(store.books), book).is_some()
            &&& exists|at: int|
                0 <= at < after.series.len() && #[trigger] after.series[at] == (LibraryEntryView {
                    id: at + 1,
                    name: series[k].series,
                    sort: series[k].sort,
                    goodreads_id: key,
                }) && after.books_series_link.contains(
                    (id_of(book_keys(store.books), book)->Some_0, at + 1, series[k].volume),
                )
        }),
    decreases series.len(),
{
    let front = series.drop_last();
    let last = series.last();
    let upsert = StatementView::UpsertSeries {
        name: last.series,
        sort: last.sort,
        goodreads_id: last.goodreads_id,
    };
    let link = StatementView::LinkSeries { book, series: last.goodreads_id, entry: last.volume };
    let tail = seq![upsert, link];
    let key = series[k].goodreads_id;
    store.lemma_run_in_parts(series_statements(book, front), tail);
    let middle = store.run(series_statements(book, front))->Ok_0;
    store.lemma_run(series_statements(book, front));
    lemma_series_statements_kind(book, front);
    lemma_series_run(store, series_statements(book, front));
    assert(tail[0] == upsert);
    assert(tail.skip(1)[0] == link);
    assert(tail.skip(1).skip(1) =~= Seq::<StatementView>::empty());
    let upserted = middle.applied(upsert)->Ok_0;
    let after = upserted.applied(link)->Ok_0;
    assert(middle.run(tail) == Ok::<LibraryView, (StatementView, StoreFailure)>(after)) by {
        assert(upserted.run(tail.skip(1)) == after.run(tail.skip(1).skip(1)));
    }
    middle.lemma_applied(upsert);
    upserted.lemma_applied(link);
    lemma_upserted(middle.series, last.series, last.sort, last.goodreads_id);
    let book_id = id_of(book_keys(store.books), book)->Some_0;
    if k == series.len() - 1 {
        let at = choose|at: int|
            0 <= at < upserted.series.len() && #[trigger] upserted.series[at] == (LibraryEntryView {
                id: at + 1,
                name: last.series,
                sort: last.sort,
                goodreads_id: key,
            });
        assert(entry_keys(upserted.series)[at] == key);
        lemma_key_place(entry_keys(upserted.series), key, at);
        assert(after.series[at] == upserted.series[at]);
        assert(after.books_series_link[upserted.books_series_link.len() as int] == (
            book_id,
            at + 1,
            last.volume,
        ));
    } else {
        assert forall|j: int| k < j < front.len() implies (#[trigger] front[j]).goodreads_id
            != front[k].goodreads_id by {
            assert(front[j] == series[j]);
        }
        assert(front[k] == series[k]);
        lemma_series_taken_in(store, book, front, k);
        let at = choose|at: int|
            0 <= at < middle.series.len() && #[trigger] middle.series[at] == (LibraryEntryView {
                id: at + 1,
                name: series[k].series,
                sort: series[k].sort,
                goodreads_id: key,
            }) && middle.books_series_link.contains((book_id, at + 1, series[k].volume));
        assert(last.goodreads_id != key);
        assert(upserted.series[at] == middle.series[at]);
        assert(after.series[at] == upserted.series[at]);
        let i = choose|i: int|
            0 <= i < middle.books_series_link.len() && middle.books_series_link[i] == (
                book_id,
                at + 1,
                series[k].volume,
            );
        assert(after.books_series_link[i] == (book_id, at + 1, series[k].volume));
    }
}

/// Among `series`, the last that has the identifier of the `i`-th.
pub proof fn lemma_last_series_mention(series: Seq<SeriesAndVolumeRecordView>, i: int) -> (k: int)
    requires
        0 <= i < series.len(),
    ensures
        i <= k < series.len(),
        series[k].goodreads_id == series[i].goodreads_id,
        forall|j: int| k < j < series.len() ==> (#[trigger] series[j]).goodreads_id != series[k].goodreads_id,
    decreases series.len() - i,
{
    if exists|j: int| i < j < series.len() && (#[trigger] series[j]).goodreads_id == series[i].goodreads_id {
        let j = choose|j: int|
            i < j < series.len() && (#[trigger] series[j]).goodreads_id == series[i].goodreads_id;
        lemma_last_series_mention(series, j)
    } else {
        i
    }
}

/// A series is one row, whatever the number of books. Where the library has
/// taken in the book of `first` and then the book of `second`, another book,
/// and both name a series with the same identifier of the catalog, the
/// library holds exactly one series with that identifier. The row has the
/// name and the sort key that `second` gives the series where it names the
/// series last, and each of the two books is linked to it, once, the second
/// at the position that `second` gives there.
pub proof fn lemma_shared_series_is_one_row(
    store: LibraryView,
    first: BookRecordView,
    second: BookRecordView,
    i: int,
    k: int,
)
    requires
        store.wf(),
        first.goodreads_id != second.goodreads_id,
        0 <= i < first.series_and_volume.len(),
        0 <= k < second.series_and_volume.len(),
        first.series_and_volume[i].goodreads_id == second.series_and_volume[k].goodreads_id,
        forall|j: int|
            k < j < second.series_and_volume.len() ==> (
            #[trigger] second.series_and_volume[j]).goodreads_id
                != second.series_and_volume[k].goodreads_id,
        store.ingested(first).is_ok(),
        store.ingested(first)->Ok_0.ingested(second).is_ok(),
    ensures
        ({
            let after = store.ingested(first)->Ok_0.ingested(second)->Ok_0;
            let key = second.series_and_volume[k].goodreads_id;
            let first_book = store.books.len() as int + 1;
            let second_book = store.books.len() as int + 2;
            &&& after.wf()
            &&& series_pairs(after.books_series_link).no_duplicates()
            &&& exists|at: int|
                0 <= at < after.series.len() && #[trigger] after.series[at] == (LibraryEntryView {
                    id: at + 1,
                    name: second.series_and_volume[k].series,
                    sort: second.series_and_volume[k].sort,
                    goodreads_id: key,
                }) && (forall|other: int|
                    0 <= other < after.series.len() && other != at ==> (
                    #[trigger] after.series[other]).goodreads_id != key) && series_pairs(
                    after.books_series_link,
                ).contains((first_book, at + 1)) && after.books_series_link.contains(
                    (second_book, at + 1, second.series_and_volume[k].volume),
                )
        }),
{
    let between = store.ingested(first)->Ok_0;
    let after = between.ingested(second)->Ok_0;
    let key = second.series_and_volume[k].goodreads_id;
    let first_book = store.books.len() as int + 1;
    let second_book = store.books.len() as int + 2;
    lemma_ingested_in_parts(store, first);
    lemma_ingested_in_parts(between, second);
    // The first book and its link.
    let last = lemma_last_series_mention(first.series_and_volume, i);
    lemma_series_taken_in(
        with_authors(store, first),
        first.goodreads_id,
        first.series_and_volume,
        last,
    );
    let first_keys = book_keys(with_authors(store, first).books);
    assert(first_keys[first_book - 1] == first.goodreads_id);
    lemma_key_place(first_keys, first.goodreads_id, first_book - 1);
    let early = choose|at: int|
        0 <= at < between.series.len() && #[trigger] between.series[at] == (LibraryEntryView {
            id: at + 1,
            name: first.series_and_volume[last].series,
            sort: first.series_and_volume[last].sort,
            goodreads_id: key,
        }) && between.books_series_link.contains(
            (first_book, at + 1, first.series_and_volume[last].volume),
        );
    assert(entry_keys(between.series)[early] == key);
    // The second book and its link.
    lemma_series_taken_in(
        with_authors(between, second),
        second.goodreads_id,
        second.series_and_volume,
        k,
    );
    let second_keys = book_keys(with_authors(between, second).books);
    assert(second_keys[second_book - 1] == second.goodreads_id);
    lemma_key_place(second_keys, second.goodreads_id, second_book - 1);
    let at = choose|at: int|
        0 <= at < after.series.len() && #[trigger] after.series[at] == (LibraryEntryView {
            id: at + 1,
            name: second.series_and_volume[k].series,
            sort: second.series_and_volume[k].sort,
            goodreads_id: key,
        }) && after.books_series_link.contains(
            (second_book, at + 1, second.series_and_volume[k].volume),
        );
    // The series keeps its place.
    between.lemma_run(plan_of(second));
    let late_keys = entry_keys(after.series);
    assert(late_keys[at] == key);
    assert(late_keys[early] == entry_keys(between.series)[early]);
    assert(at == early);
    assert forall|other: int| 0 <= other < after.series.len() && other != at implies (
    #[trigger] after.series[other]).goodreads_id != key by {
        assert(late_keys[other] == after.series[other].goodreads_id);
    }
    let place = choose|place: int|
        0 <= place < between.books_series_link.len() && between.books_series_link[place] == (
            first_book,
            early + 1,
            first.series_and_volume[last].volume,
        );
    assert(after.books_series_link[place] == between.books_series_link[place]);
    assert(series_pairs(after.books_series_link)[place] == (first_book, at + 1));
}

/// The statements for the authors of a book that is there succeed where the
/// table of authors has room for them all.
pub proof fn lemma_authors_are_taken_in(
    store: LibraryView,
    book: Seq<char>,
    authors: Seq<AuthorRecordView>,
)
    requires
        store.wf(),
        book_keys(store.books).contains(book),
        store.authors.len() + authors.len() <= i64::MAX,
    ensures
        store.run(author_statements(book, authors)).is_ok(),
        store.run(author_statements(book, authors))->Ok_0.authors.len() <= store.authors.len()
            + authors.len(),
    decreases authors.len(),
{
    if authors.len() > 0 {
        let front = authors.drop_last();
        let last = authors.last();
        let upsert = StatementView::UpsertAuthor {
            name: last.name,
            sort: last.sort,
            goodreads_id: last.goodreads_id,
        };
        let link = StatementView::LinkAuthor { book, author: last.goodreads_id };
        let tail = seq![upsert, link];
        lemma_authors_are_taken_in(store, book, front);
        store.lemma_run_in_parts(author_statements(book, front), tail);
        let middle = store.run(author_statements(book, front))->Ok_0;
        store.lemma_run(author_statements(book, front));
        lemma_author_statements_kind(book, front);
        lemma_author_run(store, author_statements(book, front));
        entry_keys(middle.authors).index_of_first_ensures(last.goodreads_id);
        assert(middle.applied(upsert).is_ok());
        let upserted = middle.applied(upsert)->Ok_0;
        middle.lemma_applied(upsert);
        lemma_upserted(middle.authors, last.name, last.sort, last.goodreads_id);
        let at = choose|at: int|
            0 <= at < upserted.authors.len() && #[trigger] upserted.authors[at] == (
            LibraryEntryView {
                id: at + 1,
                name: last.name,
                sort: last.sort,
                goodreads_id: last.goodreads_id,
            });
        assert(entry_keys(upserted.authors)[at] == last.goodreads_id);
        lemma_key_place(entry_keys(upserted.authors), last.goodreads_id, at);
        book_keys(upserted.books).index_of_first_ensures(book);
        assert(upserted.applied(link).is_ok());
        let after = upserted.applied(link)->Ok_0;
        assert(tail[0] == upsert);
        assert(tail.skip(1)[0] == link);
        assert(tail.skip(1).skip(1) =~= Seq::<StatementView>::empty());
        assert(middle.run(tail) == Ok::<LibraryView, (StatementView, StoreFailure)>(after)) by {
            assert(upserted.run(tail.skip(1)) == after.run(tail.skip(1).skip(1)));
        }
    }
}

/// Whether every series that the book with the identifier `book` is linked
/// to in `store` is one of those that `series` names.
pub open spec fn links_within(
    store: LibraryView,
    book: int,
    series: Seq<SeriesAndVolumeRecordView>,
) -> bool {
    forall|i: int|
        0 <= i < store.books_series_link.len() && (#[trigger] store.books_series_link[i]).0 == book
            ==> volume_keys(series).contains(
            entry_keys(store.series)[store.books_series_link[i].1 - 1],
        )
}

/// The statements for the series of a book that is there and has no series
/// yet succeed where no series is named twice and the table of series has
/// room for them all.
pub proof fn lemma_series_are_taken_in(
    store: LibraryView,
    book: Seq<char>,
    series: Seq<SeriesAndVolumeRecordView>,
)
    requires
        store.wf(),
        book_keys(store.books).contains(book),
        volume_keys(series).no_duplicates(),
        store.series.len() + series.len() <= i64::MAX,
        forall|i: int|
            0 <= i < store.books_series_link.len() ==> Some(
                (#[trigger] store.books_series_link[i]).0,
            ) != id_of(book_keys(store.books), book),
    ensures
        store.run(series_statements(book, series)).is_ok(),
        store.run(series_statements(book, series))->Ok_0.series.len() <= store.series.len()
            + series.len(),
        links_within(
            store.run(series_statements(book, series))->Ok_0,
            id_of(book_keys(store.books), book)->Some_0,
            series,
        ),
    decreases series.len(),
{
    book_keys(store.books).index_of_first_ensures(book);
    let book_id = id_of(book_keys(store.books), book)->Some_0;
    if series.len() > 0 {
        let front = series.drop_last();
        let last = series.last();
        let upsert = StatementView::UpsertSeries {
            name: last.series,
            sort: last.sort,
            goodreads_id: last.goodreads_id,
        };
        let link = StatementView::LinkSeries {
            book,
            series: last.goodreads_id,
            entry: last.volume,
        };
        let tail = seq![upsert, link];
        let keys = volume_keys(series);
        assert forall|i: int, j: int|
            0 <= i < front.len() && 0 <= j < front.len() && i != j implies volume_keys(front)[i]
            != volume_keys(front)[j] by {
            assert(volume_keys(front)[i] == keys[i]);
            assert(volume_keys(front)[j] == keys[j]);
        }
        lemma_series_are_taken_in(store, book, front);
        store.lemma_run_in_parts(series_statements(book, front), tail);
        let middle = store.run(series_statements(book, front))->Ok_0;
        store.lemma_run(series_statements(book, front));
        lemma_series_statements_kind(book, front);
        lemma_series_run(store, series_statements(book, front));
        entry_keys(middle.series).index_of_first_ensures(last.goodreads_id);
        assert(middle.applied(upsert).is_ok());
        let upserted = middle.applied(upsert)->Ok_0;
        middle.lemma_applied(upsert);
        lemma_upserted(middle.series, last.series, last.sort, last.goodreads_id);
        let at = choose|at: int|
            0 <= at < upserted.series.len() && #[trigger] upserted.series[at] == (LibraryEntryView {
                id: at + 1,
                name: last.series,
                sort: last.sort,
                goodreads_id: last.goodreads_id,
            });
        let late_keys = entry_keys(upserted.series);
        assert(late_keys[at] == last.goodreads_id);
        lemma_key_place(late_keys, last.goodreads_id, at);
        assert(keys[series.len() - 1] == last.goodreads_id);
        // The book is not yet linked to the last series.
        assert(!series_pairs(upserted.books_series_link).contains((book_id, at + 1))) by {
            if series_pairs(upserted.books_series_link).contains((book_id, at + 1)) {
                let i = choose|i: int|
                    0 <= i < upserted.books_series_link.len() && series_pairs(
                        upserted.books_series_link,
                    )[i] == (book_id, at + 1);
                assert(middle.books_series_link[i].0 == book_id);
                let linked = entry_keys(middle.series)[at];
                assert(volume_keys(front).contains(linked));
                let j = choose|j: int| 0 <= j < front.len() && volume_keys(front)[j] == linked;
                assert(keys[j] == front[j].goodreads_id);
                assert(late_keys[at] == linked);
            }
        }
        assert(upserted.applied(link).is_ok());
        let after = upserted.applied(link)->Ok_0;
        upserted.lemma_applied(link);
        assert(tail[0] == upsert);
        assert(tail.skip(1)[0] == link);
        assert(tail.skip(1).skip(1) =~= Seq::<StatementView>::empty());
        assert(middle.run(tail) == Ok::<LibraryView, (StatementView, StoreFailure)>(after)) by {
            assert(upserted.run(tail.skip(1)) == after.run(tail.skip(1).skip(1)));
        }
        assert forall|i: int|
            0 <= i < after.books_series_link.len() && (#[trigger] after.books_series_link[i]).0
                == book_id implies keys.contains(
            entry_keys(after.series)[after.books_series_link[i].1 - 1],
        ) by {
            if i < middle.books_series_link.len() {
                assert(after.books_series_link[i] == middle.books_series_link[i]);
                let place = middle.books_series_link[i].1 - 1;
                let linked = entry_keys(middle.series)[place];
                assert(volume_keys(front).contains(linked));
                let j = choose|j: int| 0 <= j < front.len() && volume_keys(front)[j] == linked;
                assert(keys[j] == linked);
                assert(late_keys[place] == linked);
            } else {
                assert(after.books_series_link[i] == (book_id, at + 1, last.volume));
            }
        }
    } else {
        assert forall|i: int|
            0 <= i < store.books_series_link.len() && (#[trigger] store.books_series_link[i]).0
                == book_id implies volume_keys(series).contains(
            entry_keys(store.series)[store.books_series_link[i].1 - 1],
        ) by {}
    }
}

/// A book that the library welcomes is taken in. The table of books then
/// holds one more row, the last: it has the next identifier and what the
/// record says of the book, and it was last changed when it was added.
pub proof fn lemma_welcome_book_is_taken_in(store: LibraryView, record: BookRecordView)
    requires
        store.wf(),
        store.welcomes(record),
    ensures
        store.ingested(record).is_ok(),
        store.ingested(record)->Ok_0.books == store.books.push(
            LibraryBookView {
                id: store.books.len() as int + 1,
                title: record.title,
                sort: record.sort,
                number_of_pages: record.number_of_pages,
                goodreads_id: record.goodreads_id,
                date_added: record.date_added,
                date_published: record.date_published,
                last_modified: record.date_added,
            },
        ),
{
    let first = seq![book_statement(record)];
    let second = author_statements(record.goodreads_id, record.authors);
    let third = series_statements(record.goodreads_id, record.series_and_volume);
    let with_book = store.applied(book_statement(record))->Ok_0;
    store.lemma_applied(book_statement(record));
    let keys = book_keys(with_book.books);
    let place = store.books.len() as int;
    assert(keys[place] == record.goodreads_id);
    lemma_key_place(keys, record.goodreads_id, place);
    assert(keys.contains(record.goodreads_id));
    lemma_authors_are_taken_in(with_book, record.goodreads_id, record.authors);
    let with_authors = with_book.run(second)->Ok_0;
    with_book.lemma_run(second);
    lemma_author_statements_kind(record.goodreads_id, record.authors);
    lemma_author_run(with_book, second);
    lemma_series_are_taken_in(with_authors, record.goodreads_id, record.series_and_volume);
    lemma_series_statements_kind(record.goodreads_id, record.series_and_volume);
    lemma_series_run(with_authors, third);
    store.lemma_run_in_parts(first + second, third);
    store.lemma_run_in_parts(first, second);
    assert(first[0] == book_statement(record));
    assert(first.skip(1) =~= Seq::<StatementView>::empty());
    assert(store.run(first) == Ok::<LibraryView, (StatementView, StoreFailure)>(with_book)) by {
        assert(with_book.run(first.skip(1)) == Ok::<LibraryView, (StatementView, StoreFailure)>(
            with_book,
        ));
    }
}

/// A book that the library holds is refused, whatever else the record says:
/// the library takes in no book whose identifier of the catalog it holds.
pub proof fn lemma_held_book_is_refused(store: LibraryView, record: BookRecordView)
    requires
        book_keys(store.books).contains(record.goodreads_id),
    ensures
        store.ingested(record) == Err::<LibraryView, InsertBookErrorView>(
            InsertBookErrorView::BookAlreadyExists(record.goodreads_id),
        ),
        store.after_ingestion(record) == store,
{
    let plan = plan_of(record);
    assert(plan[0] == book_statement(record));
    assert(store.applied(plan[0]) == Err::<LibraryView, StoreFailure>(StoreFailure::Unique));
}

/// The statements for the series of a book fail where a series is named
/// twice: the book cannot hold two positions in one series.
pub proof fn lemma_series_twice_fail(
    store: LibraryView,
    book: Seq<char>,
    series: Seq<SeriesAndVolumeRecordView>,
)
    requires
        store.wf(),
        !volume_keys(series).no_duplicates(),
    ensures
        store.run(series_statements(book, series)).is_err(),
    decreases series.len(),
{
    let keys = volume_keys(series);
    assert(exists|i: int, j: int|
        0 <= i < keys.len() && 0 <= j < keys.len() && i != j && keys[i] == keys[j]);
    let (i, j) = choose|i: int, j: int|
        0 <= i < keys.len() && 0 <= j < keys.len() && i != j && keys[i] == keys[j];
    assert(series.len() >= 2);
    let front = series.drop_last();
    let last = series.last();
    let upsert = StatementView::UpsertSeries {
        name: last.series,
        sort: last.sort,
        goodreads_id: last.goodreads_id,
    };
    let link = StatementView::LinkSeries { book, series: last.goodreads_id, entry: last.volume };
    let tail = seq![upsert, link];
    store.lemma_run_in_parts(series_statements(book, front), tail);
    if !volume_keys(front).no_duplicates() {
        lemma_series_twice_fail(store, book, front);
    } else if store.run(series_statements(book, front)).is_ok() {
        // One of the two is the last, and the other stands before it.
        let early = if i < j {
            i
        } else {
            j
        };
        assert(i == series.len() - 1 || j == series.len() - 1) by {
            if i < front.len() && j < front.len() {
                assert(volume_keys(front)[i] == keys[i]);
                assert(volume_keys(front)[j] == keys[j]);
            }
        }
        assert(front[early].goodreads_id == keys[early]);
        assert(keys[series.len() - 1] == last.goodreads_id);
        let k = lemma_last_series_mention(front, early);
        lemma_series_taken_in(store, book, front, k);
        let middle = store.run(series_statements(book, front))->Ok_0;
        let book_id = id_of(book_keys(store.books), book)->Some_0;
        let at = choose|at: int|
            0 <= at < middle.series.len() && #[trigger] middle.series[at] == (LibraryEntryView {
                id: at + 1,
                name: front[k].series,
                sort: front[k].sort,
                goodreads_id: last.goodreads_id,
            }) && middle.books_series_link.contains((book_id, at + 1, front[k].volume));
        assert(tail[0] == upsert);
        assert(tail.skip(1)[0] == link);
        if middle.applied(upsert).is_ok() {
            let upserted = middle.applied(upsert)->Ok_0;
            middle.lemma_applied(upsert);
            assert(entry_keys(middle.series)[at] == last.goodreads_id);
            assert(entry_keys(upserted.series)[at] == last.goodreads_id);
            lemma_key_place(entry_keys(upserted.series), last.goodreads_id, at);
            let place = choose|place: int|
                0 <= place < middle.books_series_link.len() && middle.books_series_link[place] == (
                    book_id,
                    at + 1,
                    front[k].volume,
                );
            assert(series_pairs(upserted.books_series_link)[place] == (book_id, at + 1));
            assert(upserted.applied(link).is_err());
            assert(upserted.run(tail.skip(1)).is_err());
        }
        assert(middle.run(tail).is_err());
    }
}

/// A record that names a series twice is refused, and the library stays as
/// it was.
pub proof fn lemma_series_named_twice_is_refused(store: LibraryView, record: BookRecordView)
    requires
        store.wf(),
        !volume_keys(record.series_and_volume).no_duplicates(),
    ensures
        store.ingested(record).is_err(),
        store.after_ingestion(record) == store,
{
    let first = seq![book_statement(record)];
    let second = author_statements(record.goodreads_id, record.authors);
    let third = series_statements(record.goodreads_id, record.series_and_volume);
    store.lemma_run_in_parts(first + second, third);
    if store.run(first + second).is_ok() {
        let with_authors = store.run(first + second)->Ok_0;
        store.lemma_run(first + second);
        lemma_series_twice_fail(with_authors, record.goodreads_id, record.series_and_volume);
    }
}

/// When a book is taken in, in short: a book that the library welcomes is
/// taken in; a book that it holds, and a book whose record names a series
/// twice, is not.
pub proof fn lemma_when_a_book_is_taken_in(store: LibraryView, record: BookRecordView)
    requires
        store.wf(),
    ensures
        store.welcomes(record) ==> store.ingested(record).is_ok(),
        store.ingested(record).is_ok() ==> !book_keys(store.books).contains(record.goodreads_id)
            && volume_keys(record.series_and_volume).no_duplicates(),
{
    if store.welcomes(record) {
        lemma_welcome_book_is_taken_in(store, record);
    }
    if book_keys(store.books).contains(record.goodreads_id) {
        lemma_held_book_is_refused(store, record);
    }
    if !volume_keys(record.series_and_volume).no_duplicates() {
        lemma_series_named_twice_is_refused(store, record);
    }
}

/// The book that the catalog's record describes is committed. Where the
/// library welcomes the record under which the book of `metadata` is taken
/// in, it takes the book in: the table of books then ends with a row that
/// has the book's identifier of the catalog, its title, and the sort key of
/// the title, which is empty only where the title is.
pub proof fn lemma_welcome_record_is_committed(
    store: LibraryView,
    metadata: BookMetadataView,
    date_added: i64,
)
    requires
        store.wf(),
        store.welcomes(store.record_for(metadata, date_added)),
    ensures
        ({
            let taken = store.ingested(store.record_for(metadata, date_added));
            &&& taken.is_ok()
            &&& taken->Ok_0.wf()
            &&& taken->Ok_0.books.len() == store.books.len() + 1
            &&& taken->Ok_0.books.last().goodreads_id == metadata.goodreads_id
            &&& taken->Ok_0.books.last().title == metadata.title
            &&& taken->Ok_0.books.last().sort == title_sort_key(metadata.title)
            &&& taken->Ok_0.books.last().number_of_pages == metadata.page_count
            &&& taken->Ok_0.books.last().date_added == date_added
            &&& metadata.title.len() > 0 ==> taken->Ok_0.books.last().sort.len() > 0
        }),
{
    let record = store.record_for(metadata, date_added);
    lemma_welcome_book_is_taken_in(store, record);
    store.lemma_run(plan_of(record));
    lemma_title_sort_key_is_not_empty(metadata.title);
}

} // verus!
