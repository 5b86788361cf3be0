use promethea_core::database::queries::Library;
use promethea_core::scraper::errors::{FetchFailure, ScraperError};
use promethea_core::scraper::metadata_fetcher::BookMetadata;
use promethea_core::scraper::request_builder::{
    Answer, MetadataRequestBuilder, Progress, Response, Step,
};

fn ok(body: &str) -> Answer {
    Ok(Response {
        status: 200,
        body: body.to_owned(),
    })
}

fn status(status: u16) -> Answer {
    Ok(Response {
        status,
        body: String::from("<html></html>"),
    })
}

fn search_page(rows: &[(&str, &str, &str)]) -> String {
    let mut page = String::from("<html><body><table>");
    for (href, title, author) in rows {
        page.push_str(&format!(
            "<tr><td><a class=\"bookTitle\" href=\"{}\"><span>{}</span></a>\
             <a class=\"authorName\" href=\"/author/show/1\"><span>{}</span></a></td></tr>",
            href, title, author
        ));
    }
    page.push_str("</table></body></html>");
    page
}

fn fire_page() -> String {
    String::from(
        r#"<html><head><script id="__NEXT_DATA__" type="application/json">
        {"props": {"pageProps": {"apolloState": {
            "ROOT_QUERY": {"getBookByLegacyId({\"legacyId\":\"6137154\"})": {"__ref": "Book:fire"}},
            "Book:fire": {
                "title": "Fire",
                "imageUrl": "https://images.example/fire.jpg",
                "details": {"numPages": 480, "publicationTime": 1254726000000},
                "primaryContributorEdge": {"role": "Author", "node": {"__ref": "Contributor:cashore"}},
                "secondaryContributorEdges": [],
                "bookSeries": [{"userPosition": "2", "series": {"__ref": "Series:realm"}}]},
            "Contributor:cashore": {"name": "Kristin Cashore", "legacyId": 1373880},
            "Series:realm": {"title": "Graceling Realm",
                "webUrl": "https://www.goodreads.com/series/50706-graceling-realm"}
        }}}}</script></head><body></body></html>"#,
    )
}

fn next(progress: Progress) -> Step {
    match progress {
        Progress::Next(step) => step,
        Progress::Done(done) => panic!("done too early: {:?}", done),
    }
}

fn done(progress: Progress) -> Result<Option<BookMetadata>, ScraperError> {
    match progress {
        Progress::Done(done) => done,
        Progress::Next(step) => panic!("not done: {}", step.url()),
    }
}

#[test]
fn request_by_identifier_checks_and_then_reads() {
    let step = MetadataRequestBuilder::new().with_id("6137154").execute();
    assert!(matches!(step, Step::CheckId(_)));
    assert_eq!(step.url(), "https://www.goodreads.com/book/show/6137154");
    let step = next(step.advance(status(204)));
    assert!(matches!(step, Step::ReadRecord(_)));
    assert_eq!(step.url(), "https://www.goodreads.com/book/show/6137154");
    let record = done(step.advance(ok(&fire_page()))).unwrap().unwrap();
    assert_eq!(record.title, "Fire");
    assert_eq!(record.goodreads_id, "6137154");
}

#[test]
fn request_by_identifier_finds_nothing_where_the_check_fails() {
    for answer in [status(404), status(301), status(500), Err("timed out".to_owned())] {
        let step = MetadataRequestBuilder::default().with_id("bad_id").execute();
        assert_eq!(done(step.advance(answer)).unwrap(), None);
    }
}

#[test]
fn request_by_isbn_searches_and_then_reads() {
    let step = MetadataRequestBuilder::new().with_isbn("978 0063021426").execute();
    assert!(matches!(step, Step::SearchIsbn(_)));
    assert_eq!(step.url(), "https://www.goodreads.com/search?q=978%200063021426");
    let page = "<html><head><script id=\"__NEXT_DATA__\">\
                {\"props\":{\"pageProps\":{\"params\":{\"book_id\":\"6137154-fire\"}}}}\
                </script></head></html>";
    let step = next(step.advance(ok(page)));
    assert_eq!(step.url(), "https://www.goodreads.com/book/show/6137154");
    assert!(done(step.advance(ok(&fire_page()))).unwrap().is_some());
}

#[test]
fn request_by_title_searches_once() {
    let step = MetadataRequestBuilder::new().with_title("Fire").execute();
    assert!(matches!(step, Step::SearchTitle(_)));
    assert_eq!(step.url(), "https://www.goodreads.com/search?q=Fire");
    let page = search_page(&[("/book/show/1-water", "Water", "Someone")]);
    assert_eq!(done(step.advance(ok(&page))).unwrap(), None);

    let step = MetadataRequestBuilder::new().with_title("Fire").execute();
    let page = search_page(&[
        ("/book/show/1-water", "Water", "Someone"),
        ("/book/show/6137154-fire", "Fire", "Kristin Cashore"),
    ]);
    let step = next(step.advance(ok(&page)));
    assert_eq!(step.url(), "https://www.goodreads.com/book/show/6137154");
}

#[test]
fn request_by_title_and_author_searches_twice_at_most() {
    let step = MetadataRequestBuilder::new()
        .with_title("Fire")
        .with_author("Kristin Cashore")
        .execute();
    assert!(matches!(step, Step::SearchTitleFirst(_, _)));
    assert_eq!(step.url(), "https://www.goodreads.com/search?q=Fire");
    let others = search_page(&[
        ("/book/show/6148028-catching-fire", "Catching Fire", "Suzanne Collins"),
        ("/book/show/3-fire", "Fire", "Someone Else"),
    ]);
    let step = next(step.advance(ok(&others)));
    assert!(matches!(step, Step::SearchTitleAndAuthor(_, _)));
    assert_eq!(
        step.url(),
        "https://www.goodreads.com/search?q=Fire%20Kristin%20Cashore"
    );
    assert_eq!(done(step.advance(ok(&others))).unwrap(), None);
}

#[test]
fn failed_request_is_a_fetch_error() {
    let steps = || {
        vec![
            MetadataRequestBuilder::new().with_isbn("1").execute(),
            MetadataRequestBuilder::new().with_title("t").execute(),
            MetadataRequestBuilder::new().with_title("t").with_author("a").execute(),
            Step::SearchTitleAndAuthor("t".to_owned(), "a".to_owned()),
            Step::ReadRecord("1".to_owned()),
        ]
    };
    for step in steps() {
        match done(step.advance(Err("connection refused".to_owned()))) {
            Err(ScraperError::FetchError(FetchFailure::Transport(message))) => {
                assert_eq!(message, "connection refused")
            }
            other => panic!("unexpected: {:?}", other),
        }
    }
    for step in steps() {
        match done(step.advance(status(503))) {
            Err(ScraperError::FetchError(FetchFailure::Status(code))) => assert_eq!(code, 503),
            other => panic!("unexpected: {:?}", other),
        }
    }
}

#[test]
fn failure_to_read_a_page_ends_the_request() {
    let step = MetadataRequestBuilder::new().with_title("Fire").execute();
    let page = "<html><body><a class=\"bookTitle\">Fire</a><a class=\"authorName\">K</a></body></html>";
    assert!(matches!(
        done(step.advance(ok(page))),
        Err(ScraperError::ParseError(_))
    ));
    let step = Step::ReadRecord("6137154".to_owned());
    assert!(matches!(
        done(step.advance(ok("<html></html>"))),
        Err(ScraperError::ScrapeError(_))
    ));
}

#[test]
fn book_is_found_read_and_taken_in() {
    let mut step = MetadataRequestBuilder::new()
        .with_title("Fire")
        .with_author("Kristin Cashore")
        .execute();
    let mut pages = vec![
        (
            "https://www.goodreads.com/search?q=Fire".to_owned(),
            search_page(&[
                ("/book/show/6148028-catching-fire", "Catching Fire (The Hunger Games, #2)", "Suzanne Collins"),
                ("/book/show/6137154-fire?from_search=true", "Fire (Graceling Realm, #2)", "Kristin Cashore"),
            ]),
        ),
        ("https://www.goodreads.com/book/show/6137154".to_owned(), fire_page()),
    ]
    .into_iter();
    let record = loop {
        let (url, page) = pages.next().unwrap();
        assert_eq!(step.url(), url);
        match step.advance(ok(&page)) {
            Progress::Next(following) => step = following,
            Progress::Done(done) => break done.unwrap().unwrap(),
        }
    };
    assert!(pages.next().is_none());
    assert_eq!(record.goodreads_id, "6137154");
    assert_eq!(record.page_count, Some(480));
    assert!(record.contributors.iter().any(|contributor| contributor.role == "Author"));

    let mut library = Library::new();
    library.add_book(&record, 1_700_000_000_000).unwrap();
    let books = library.books();
    assert_eq!(books.len(), 1);
    assert_eq!(books[0].title, "Fire");
    assert_eq!(books[0].sort, "Fire");
    assert!(!books[0].sort.is_empty());
    assert_eq!(books[0].goodreads_id, "6137154");
    assert_eq!(library.authors()[0].sort, "Cashore, Kristin");
    assert_eq!(library.series()[0].sort, "Graceling Realm");
}
