use promethea_core::database::queries::{
    plan, reject, Library, LibraryBook, LibraryEntry, Statement, StoreFailure,
};
use promethea_core::database::types::{
    assemble_record, get_init_status, AuthorRecord, BookRecord, DbInitStatus, InsertBookError,
    SeriesAndVolumeRecord,
};
use promethea_core::scraper::metadata_fetcher::{BookContributor, BookMetadata, BookSeries};

fn author(name: &str, sort: &str, id: &str) -> AuthorRecord {
    AuthorRecord {
        name: name.to_owned(),
        sort: sort.to_owned(),
        goodreads_id: id.to_owned(),
    }
}

fn volume(series: &str, sort: &str, volume: &str, id: &str) -> SeriesAndVolumeRecord {
    SeriesAndVolumeRecord {
        series: series.to_owned(),
        sort: sort.to_owned(),
        volume: volume.to_owned(),
        goodreads_id: id.to_owned(),
    }
}

fn book(
    title: &str,
    id: &str,
    authors: Vec<AuthorRecord>,
    series: Vec<SeriesAndVolumeRecord>,
) -> BookRecord {
    BookRecord {
        title: title.to_owned(),
        sort: title.to_owned(),
        authors,
        series_and_volume: series,
        number_of_pages: Some(300),
        goodreads_id: id.to_owned(),
        date_added: 1_700_000_000_000,
        date_published: Some(1_254_726_000_000),
    }
}

fn entry(id: i64, name: &str, sort: &str, goodreads_id: &str) -> LibraryEntry {
    LibraryEntry {
        id,
        name: name.to_owned(),
        sort: sort.to_owned(),
        goodreads_id: goodreads_id.to_owned(),
    }
}

fn graceling() -> BookRecord {
    book(
        "Graceling",
        "3236307",
        vec![author("Kristin Cashore", "Cashore, Kristin", "1373880")],
        vec![volume("Graceling Realm", "Graceling Realm", "1", "50706")],
    )
}

fn fire() -> BookRecord {
    book(
        "Fire",
        "6137154",
        vec![author("K. Cashore", "Cashore, K.", "1373880")],
        vec![volume("The Graceling Realm", "Graceling Realm, The", "2", "50706")],
    )
}

#[test]
fn new_library_is_empty() {
    let library = Library::new();
    assert!(library.books().is_empty());
    assert!(library.authors().is_empty());
    assert!(library.series().is_empty());
    assert!(library.books_authors_link().is_empty());
    assert!(library.books_series_link().is_empty());
}

#[test]
fn book_is_taken_in_with_its_authors_and_series() {
    let mut library = Library::new();
    assert_eq!(library.insert_book(graceling()), Ok(()));
    assert_eq!(
        library.books(),
        vec![LibraryBook {
            id: 1,
            title: "Graceling".to_owned(),
            sort: "Graceling".to_owned(),
            number_of_pages: Some(300),
            goodreads_id: "3236307".to_owned(),
            date_added: 1_700_000_000_000,
            date_published: Some(1_254_726_000_000),
            last_modified: 1_700_000_000_000,
        }]
    );
    assert_eq!(
        library.authors(),
        vec![entry(1, "Kristin Cashore", "Cashore, Kristin", "1373880")]
    );
    assert_eq!(
        library.series(),
        vec![entry(1, "Graceling Realm", "Graceling Realm", "50706")]
    );
    assert_eq!(library.books_authors_link(), vec![(1, 1)]);
    assert_eq!(library.books_series_link(), vec![(1, 1, "1".to_owned())]);
}

#[test]
fn same_book_twice_is_one_row_and_a_duplicate_error() {
    let mut library = Library::new();
    library.insert_book(graceling()).unwrap();
    let before = library.copy();
    let mut again = graceling();
    again.title = "Graceling, again".to_owned();
    again.authors.push(author("New Author", "Author, New", "99"));
    assert_eq!(
        library.insert_book(again),
        Err(InsertBookError::BookAlreadyExists("3236307".to_owned()))
    );
    assert_eq!(library.books(), before.books());
    assert_eq!(library.authors(), before.authors());
    assert_eq!(library.series(), before.series());
    assert_eq!(library.books_authors_link(), before.books_authors_link());
    assert_eq!(library.books_series_link(), before.books_series_link());
    assert_eq!(library.books().len(), 1);
}

#[test]
fn shared_author_and_series_are_one_row_with_the_latest_values() {
    let mut library = Library::new();
    library.insert_book(graceling()).unwrap();
    library.insert_book(fire()).unwrap();
    assert_eq!(library.books().len(), 2);
    assert_eq!(
        library.authors(),
        vec![entry(1, "K. Cashore", "Cashore, K.", "1373880")]
    );
    assert_eq!(
        library.series(),
        vec![entry(1, "The Graceling Realm", "Graceling Realm, The", "50706")]
    );
    assert_eq!(library.books_authors_link(), vec![(1, 1), (2, 1)]);
    assert_eq!(
        library.books_series_link(),
        vec![(1, 1, "1".to_owned()), (2, 1, "2".to_owned())]
    );
}

#[test]
fn author_named_twice_is_linked_once() {
    let mut library = Library::new();
    let record = book(
        "Good Omens",
        "12067",
        vec![
            author("Terry Pratchett", "Pratchett, Terry", "1654"),
            author("Neil Gaiman", "Gaiman, Neil", "1221698"),
            author("Sir Terry Pratchett", "Pratchett, Sir Terry", "1654"),
        ],
        Vec::new(),
    );
    library.insert_book(record).unwrap();
    assert_eq!(
        library.authors(),
        vec![
            entry(1, "Sir Terry Pratchett", "Pratchett, Sir Terry", "1654"),
            entry(2, "Neil Gaiman", "Gaiman, Neil", "1221698"),
        ]
    );
    assert_eq!(library.books_authors_link(), vec![(1, 1), (1, 2)]);
}

#[test]
fn series_named_twice_is_a_database_error_and_nothing_is_kept() {
    let mut library = Library::new();
    library.insert_book(graceling()).unwrap();
    let before = library.copy();
    let record = book(
        "Bitterblue",
        "12680907",
        vec![author("Someone New", "New, Someone", "5")],
        vec![
            volume("Graceling Realm", "Graceling Realm", "3", "50706"),
            volume("Another", "Another", "1", "7"),
            volume("Graceling Realm", "Graceling Realm", "3.5", "50706"),
        ],
    );
    assert_eq!(
        library.insert_book(record),
        Err(InsertBookError::Db("a row with the same key exists".to_owned()))
    );
    assert_eq!(library.books(), before.books());
    assert_eq!(library.authors(), before.authors());
    assert_eq!(library.series(), before.series());
    assert_eq!(library.books_authors_link(), before.books_authors_link());
    assert_eq!(library.books_series_link(), before.books_series_link());
}

#[test]
fn book_without_authors_or_series_is_taken_in() {
    let mut library = Library::new();
    library.insert_book(book("Beowulf", "52357", Vec::new(), Vec::new())).unwrap();
    assert_eq!(library.books().len(), 1);
    assert!(library.authors().is_empty());
    assert!(library.books_authors_link().is_empty());
}

#[test]
fn plan_inserts_the_book_then_authors_then_series() {
    let statements = plan(&fire());
    assert_eq!(
        statements,
        vec![
            Statement::InsertBook {
                title: "Fire".to_owned(),
                sort: "Fire".to_owned(),
                date_added: 1_700_000_000_000,
                date_published: Some(1_254_726_000_000),
                number_of_pages: Some(300),
                goodreads_id: "6137154".to_owned(),
            },
            Statement::UpsertAuthor {
                name: "K. Cashore".to_owned(),
                sort: "Cashore, K.".to_owned(),
                goodreads_id: "1373880".to_owned(),
            },
            Statement::LinkAuthor {
                book: "6137154".to_owned(),
                author: "1373880".to_owned(),
            },
            Statement::UpsertSeries {
                name: "The Graceling Realm".to_owned(),
                sort: "Graceling Realm, The".to_owned(),
                goodreads_id: "50706".to_owned(),
            },
            Statement::LinkSeries {
                book: "6137154".to_owned(),
                series: "50706".to_owned(),
                entry: "2".to_owned(),
            },
        ]
    );
    assert_eq!(plan(&book("Beowulf", "52357", Vec::new(), Vec::new())).len(), 1);
}

#[test]
fn statements_fail_as_the_tables_demand() {
    let mut library = Library::new();
    let link = Statement::LinkAuthor {
        book: "1".to_owned(),
        author: "2".to_owned(),
    };
    assert_eq!(library.execute(&link), Err(StoreFailure::Missing));
    let statements = plan(&graceling());
    for statement in &statements {
        assert_eq!(library.execute(statement), Ok(()));
    }
    assert_eq!(library.execute(&statements[0]), Err(StoreFailure::Unique));
    assert_eq!(library.execute(&statements[1]), Ok(()));
    assert_eq!(library.execute(&statements[2]), Ok(()));
    assert_eq!(library.execute(&statements[3]), Ok(()));
    assert_eq!(library.execute(&statements[4]), Err(StoreFailure::Unique));
    assert_eq!(library.books_authors_link(), vec![(1, 1)]);
    assert_eq!(library.books_series_link().len(), 1);
    let unknown_series = Statement::LinkSeries {
        book: "3236307".to_owned(),
        series: "none".to_owned(),
        entry: "1".to_owned(),
    };
    assert_eq!(library.execute(&unknown_series), Err(StoreFailure::Missing));
}

#[test]
fn only_a_book_that_is_there_is_reported_as_such() {
    let statements = plan(&graceling());
    assert_eq!(
        reject(&statements[0], StoreFailure::Unique),
        InsertBookError::BookAlreadyExists("3236307".to_owned())
    );
    assert_eq!(
        reject(&statements[0], StoreFailure::Full),
        InsertBookError::Db("the table is full".to_owned())
    );
    assert_eq!(
        reject(&statements[2], StoreFailure::Missing),
        InsertBookError::Db("a row that is referred to is missing".to_owned())
    );
    assert_eq!(
        reject(&statements[4], StoreFailure::Unique),
        InsertBookError::Db("a row with the same key exists".to_owned())
    );
}

#[test]
fn errors_say_what_happened() {
    assert_eq!(
        InsertBookError::BookAlreadyExists("3236307".to_owned()).message(),
        "book already exists (goodreads_id=3236307)"
    );
    assert_eq!(
        InsertBookError::Db("the table is full".to_owned()).message(),
        "database error: the table is full"
    );
}

#[test]
fn stored_sort_keys_are_found_by_name() {
    let mut library = Library::new();
    library.insert_book(graceling()).unwrap();
    assert_eq!(
        library.try_fetch_author_sort("Kristin Cashore"),
        Some("Cashore, Kristin".to_owned())
    );
    assert_eq!(library.try_fetch_author_sort("kristin cashore"), None);
    assert_eq!(library.try_fetch_author_sort("Graceling Realm"), None);
    assert_eq!(
        library.try_fetch_series_sort("Graceling Realm"),
        Some("Graceling Realm".to_owned())
    );
    assert_eq!(library.try_fetch_series_sort("Kristin Cashore"), None);
}

fn metadata() -> BookMetadata {
    BookMetadata {
        title: "The Left Hand of Darkness".to_owned(),
        publication_date: Some(-26_000_000_000),
        contributors: vec![
            BookContributor {
                name: "Ursula K. Le Guin".to_owned(),
                role: "Author".to_owned(),
                goodreads_id: "874602".to_owned(),
            },
            BookContributor {
                name: "Someone Else".to_owned(),
                role: "Author".to_owned(),
                goodreads_id: "2".to_owned(),
            },
        ],
        series: vec![BookSeries {
            title: "The Hainish Cycle".to_owned(),
            number: "4".to_owned(),
            goodreads_id: "40909".to_owned(),
        }],
        page_count: Some(304),
        image_url: None,
        goodreads_id: "18423".to_owned(),
    }
}

#[test]
fn record_prefers_stored_sort_keys() {
    let record = assemble_record(
        &metadata(),
        &vec![Some("Le Guin, Ursula K.".to_owned())],
        &vec![None, Some("ignored".to_owned())],
        42,
    );
    assert_eq!(
        record,
        BookRecord {
            title: "The Left Hand of Darkness".to_owned(),
            sort: "Left Hand of Darkness, The".to_owned(),
            authors: vec![
                author("Ursula K. Le Guin", "Le Guin, Ursula K.", "874602"),
                author("Someone Else", "Else, Someone", "2"),
            ],
            series_and_volume: vec![volume("The Hainish Cycle", "Hainish Cycle, The", "4", "40909")],
            number_of_pages: Some(304),
            goodreads_id: "18423".to_owned(),
            date_added: 42,
            date_published: Some(-26_000_000_000),
        }
    );
}

#[test]
fn library_sorts_new_books_by_the_keys_it_holds() {
    let mut library = Library::new();
    library
        .insert_book(book(
            "Earthsea",
            "13642",
            vec![author("Ursula K. Le Guin", "Le Guin, Ursula K.", "874602")],
            vec![volume("The Hainish Cycle", "Hainish", "1", "40909")],
        ))
        .unwrap();
    library.add_book(&metadata(), 43).unwrap();
    assert_eq!(
        library.authors(),
        vec![
            entry(1, "Ursula K. Le Guin", "Le Guin, Ursula K.", "874602"),
            entry(2, "Someone Else", "Else, Someone", "2"),
        ]
    );
    assert_eq!(library.series(), vec![entry(1, "The Hainish Cycle", "Hainish", "40909")]);
    let books = library.books();
    assert_eq!(books[1].sort, "Left Hand of Darkness, The");
    assert_eq!(books[1].date_added, 43);
    assert_eq!(books[1].last_modified, 43);
    assert_eq!(
        library.add_book(&metadata(), 44),
        Err(InsertBookError::BookAlreadyExists("18423".to_owned()))
    );
    assert_eq!(library.books().len(), 2);
}

#[test]
fn library_needs_setup_until_one_is_open() {
    assert_eq!(get_init_status(true, None), DbInitStatus::Loaded);
    assert_eq!(
        get_init_status(true, Some("earlier failure".to_owned())),
        DbInitStatus::Loaded
    );
    assert_eq!(
        get_init_status(false, Some("unable to open database file".to_owned())),
        DbInitStatus::NeedsSetup {
            reason: Some("unable to open database file".to_owned())
        }
    );
    assert_eq!(
        get_init_status(false, None),
        DbInitStatus::NeedsSetup { reason: None }
    );
}
