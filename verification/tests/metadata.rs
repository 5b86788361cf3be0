use promethea_core::json::{parse, Json};
use promethea_core::scraper::errors::ScraperError;
use promethea_core::scraper::metadata_fetcher::{
    extract_amazon_id, extract_book_metadata, extract_contributors, extract_genres,
    extract_id_from_url, extract_image_url, extract_isbn, extract_language, extract_metadata,
    extract_page_count, extract_publication_date, extract_publisher, extract_series,
    extract_title_and_subtitle, fetch_contributor, fetch_metadata, keep_known, read_document,
    to_string, BookContributor, BookMetadata, BookSeries,
};

fn graph(nodes: &str) -> Json {
    parse(&format!(
        "{{\"props\":{{\"pageProps\":{{\"apolloState\":{{{}}}}}}}}}",
        nodes
    ))
    .unwrap()
}

fn page(nodes: &str) -> String {
    format!(
        "<!DOCTYPE html><html><head><title>A book</title>\
         <script id=\"other\">{{\"props\":1}}</script>\
         <script id=\"__NEXT_DATA__\" type=\"application/json\">\
         {{\"props\":{{\"pageProps\":{{\"apolloState\":{{{}}}}}}}}}</script></head>\
         <body><p>text</p></body></html>",
        nodes
    )
}

fn contributor(name: &str, role: &str, id: &str) -> BookContributor {
    BookContributor {
        name: name.to_owned(),
        role: role.to_owned(),
        goodreads_id: id.to_owned(),
    }
}

fn series(title: &str, number: &str, id: &str) -> BookSeries {
    BookSeries {
        title: title.to_owned(),
        number: number.to_owned(),
        goodreads_id: id.to_owned(),
    }
}

const LAST_OLYMPIAN: &str = r#"
"ROOT_QUERY": {"__typename": "Query",
    "getBookByLegacyId({\"legacyId\":\"4556058\"})": {"__ref": "Book:kca://book/amzn1.gr.book.v1.olympian"}},
"Book:kca://book/amzn1.gr.book.v1.olympian": {
    "title": "The Last Olympian",
    "imageUrl": "https://m.media-amazon.com/images/S/compressed.photo.goodreads.com/books/1723393514i/4556058.jpg",
    "details": {"numPages": 381, "publicationTime": 1241506800000, "publisher": "Disney-Hyperion Books"},
    "primaryContributorEdge": {"__typename": "BookContributorEdge", "role": "Author",
        "node": {"__ref": "Contributor:kca://author/amzn1.gr.author.v1.riordan"}},
    "secondaryContributorEdges": [],
    "bookSeries": [
        {"userPosition": "5", "series": {"__ref": "Series:kca://series/1"}},
        {"userPosition": "5", "series": {"__ref": "Series:kca://series/2"}},
        {"userPosition": "5", "series": {"__ref": "Series:kca://series/3"}}
    ]},
"Contributor:kca://author/amzn1.gr.author.v1.riordan": {
    "name": "Rick Riordan", "legacyId": 15872,
    "webUrl": "https://www.goodreads.com/author/show/15872.Rick_Riordan"},
"Series:kca://series/1": {"title": "Percy Jackson and the Olympians",
    "webUrl": "https://www.goodreads.com/series/40736-percy-jackson-and-the-olympians"},
"Series:kca://series/2": {"title": "Camp Half-Blood Chronicles",
    "webUrl": "https://www.goodreads.com/series/183923-camp-half-blood-chronicles"},
"Series:kca://series/3": {"title": "Coleccionable Percy Jackson",
    "webUrl": "https://www.goodreads.com/series/399169-coleccionable-percy-jackson"}
"#;

const DARKE: &str = r#"
"ROOT_QUERY": {"getBookByLegacyId({\"legacyId\":\"7355137\"})": {"__ref": "Book:darke"}},
"Book:darke": {
    "title": "Darke",
    "primaryContributorEdge": {"role": "Author", "node": {"__ref": "Contributor:sage"}},
    "secondaryContributorEdges": [
        {"role": "Illustrations",
         "node": {"__ref": "Contributor:kca://author/amzn1.gr.author.v1.pVNrjuvKvXYyslKm1pwHxQ"}}
    ]},
"Contributor:sage": {"name": "Angie Sage", "legacyId": 157663},
"Contributor:kca://author/amzn1.gr.author.v1.pVNrjuvKvXYyslKm1pwHxQ": {
    "name": "Mark Zug", "webUrl": "https://www.goodreads.com/author/show/619712.Mark_Zug"}
"#;

const MEMORY_OF_LIGHT: &str = r#"
"ROOT_QUERY": {"getBookByLegacyId({\"legacyId\":\"7743175\"})": {"__ref": "Book:light"}},
"Book:light": {
    "title": "A Memory of Light",
    "primaryContributorEdge": {"role": "Author", "node": {"__ref": "Contributor:jordan"}},
    "secondaryContributorEdges": [
        {"role": "Author", "node": {"__ref": "Contributor:sanderson"}},
        {"role": "Narrator", "node": {"__ref": "Contributor:kramer"}}
    ]},
"Contributor:jordan": {"name": "Robert Jordan", "legacyId": 6252},
"Contributor:sanderson": {"name": "Brandon Sanderson", "legacyId": 38550},
"Contributor:kramer": {"name": "Michael Kramer", "legacyId": 4}
"#;

#[test]
fn fetch_metadata_test() {
    let expected_series = vec![
        series("Percy Jackson and the Olympians", "5", "40736"),
        series("Camp Half-Blood Chronicles", "5", "183923"),
        series("Coleccionable Percy Jackson", "5", "399169"),
    ];
    let expected_contributors = vec![contributor("Rick Riordan", "Author", "15872")];
    let expected_metadata = BookMetadata {
        title: "The Last Olympian".to_owned(),
        publication_date: Some(1241506800000),
        contributors: expected_contributors,
        series: expected_series,
        page_count: Some(381),
        image_url: Some("https://m.media-amazon.com/images/S/compressed.photo.goodreads.com/books/1723393514i/4556058.jpg".to_owned()),
        goodreads_id: String::from("4556058"),
    };

    let metadata = fetch_metadata(&page(LAST_OLYMPIAN), "4556058").unwrap();
    assert_eq!(metadata, expected_metadata);
    assert_eq!(metadata.series[0].number.parse::<f32>().unwrap(), 5.0);
}

#[test]
fn fetch_metadata_contributor_with_no_legacy_id() {
    let expected_contributor = contributor("Mark Zug", "Illustrations", "619712");
    let metadata = extract_book_metadata(&page(DARKE)).unwrap();
    let contributor = fetch_contributor(
        &metadata,
        (
            "Illustrations".to_owned(),
            "Contributor:kca://author/amzn1.gr.author.v1.pVNrjuvKvXYyslKm1pwHxQ".to_owned(),
        ),
    )
    .unwrap();
    assert_eq!(expected_contributor, contributor);
}

#[test]
fn multiple_contributors_single_author() {
    let expected_authors = vec![contributor("Angie Sage", "Author", "157663")];
    let metadata = fetch_metadata(&page(DARKE), "7355137").unwrap();
    assert_eq!(expected_authors, metadata.contributors);
}

#[test]
fn multiple_contributors_multiple_authors() {
    let expected_authors = [
        contributor("Brandon Sanderson", "Author", "38550"),
        contributor("Robert Jordan", "Author", "6252"),
    ];
    let contributors = fetch_metadata(&page(MEMORY_OF_LIGHT), "7743175")
        .unwrap()
        .contributors;
    assert_eq!(contributors.len(), expected_authors.len());
    for contributor in contributors {
        assert!(expected_authors.contains(&contributor));
    }
}

#[test]
fn contributors_keep_the_order_of_their_edges() {
    let contributors = extract_contributors(&graph(MEMORY_OF_LIGHT), "Book:light");
    assert_eq!(
        contributors,
        vec![
            contributor("Robert Jordan", "Author", "6252"),
            contributor("Brandon Sanderson", "Author", "38550"),
        ]
    );
}

#[test]
fn json_text_is_read_as_a_tree() {
    let tree = parse(r#"{"b": [1, -2, 1.5, 18446744073709551615, "x", null, true], "a": {"k": "v"}}"#)
        .unwrap();
    let items = tree.get("b").unwrap().as_array().unwrap();
    assert_eq!(items.len(), 7);
    assert_eq!(items[0].as_i64(), Some(1));
    assert_eq!(items[1].as_i64(), Some(-2));
    assert!(items[2].is_number());
    assert_eq!(items[2].as_i64(), None);
    assert!(items[3].is_number());
    assert_eq!(items[3].as_i64(), None);
    assert_eq!(items[4].as_str(), Some("x"));
    assert_eq!(items[4].as_i64(), None);
    assert!(!items[5].is_number());
    assert!(items[5].as_str().is_none());
    assert!(tree.get("a").unwrap().is_object());
    assert_eq!(tree.get("a").unwrap().get("k").unwrap().as_str(), Some("v"));
    assert!(tree.get("c").is_none());
    assert!(items[0].get("a").is_none());
    assert!(parse("{\"a\": ").is_err());
    assert!(parse("").is_err());
}

#[test]
fn text_is_trimmed_and_its_white_space_runs_collapsed() {
    let tree = parse(
        r#"["  The   Last \t\n Olympian ", "a\tb", "a   b", "   ", "", 7, "x  y  z", " 　A"]"#,
    )
    .unwrap();
    let items = tree.as_array().unwrap();
    assert_eq!(to_string(Some(&items[0])), Some("The Last Olympian".to_owned()));
    assert_eq!(to_string(Some(&items[1])), Some("a\tb".to_owned()));
    assert_eq!(to_string(Some(&items[2])), Some("a b".to_owned()));
    assert_eq!(to_string(Some(&items[3])), None);
    assert_eq!(to_string(Some(&items[4])), None);
    assert_eq!(to_string(Some(&items[5])), None);
    assert_eq!(to_string(Some(&items[6])), Some("x y z".to_owned()));
    assert_eq!(to_string(Some(&items[7])), Some("A".to_owned()));
    assert_eq!(to_string(None), None);
}

#[test]
fn book_key_is_found_through_the_root_query() {
    let tree = graph(LAST_OLYMPIAN);
    assert_eq!(
        extract_amazon_id(&tree, "4556058").unwrap(),
        "Book:kca://book/amzn1.gr.book.v1.olympian"
    );
    match extract_amazon_id(&tree, "1") {
        Err(ScraperError::ScrapeError(message)) => assert_eq!(message, "Failed to scrape Amazon ID"),
        other => panic!("unexpected: {:?}", other),
    }
    match extract_amazon_id(&parse("[]").unwrap(), "4556058") {
        Err(ScraperError::ScrapeError(message)) => assert_eq!(message, "Failed to scrape Amazon ID"),
        other => panic!("unexpected: {:?}", other),
    }
}

#[test]
fn title_is_cut_at_the_first_colon() {
    let tree = graph(
        r#""a": {"title": " Babel:  Or the Necessity of Violence: An Arcane History "},
           "b": {"title": "Neverwhere"}, "c": {"title": "  "}, "d": {"title": "Trailing :"},
           "e": {"title": 12}"#,
    );
    assert_eq!(
        extract_title_and_subtitle(&tree, "a").unwrap(),
        (
            "Babel".to_owned(),
            Some("Or the Necessity of Violence: An Arcane History".to_owned())
        )
    );
    assert_eq!(
        extract_title_and_subtitle(&tree, "b").unwrap(),
        ("Neverwhere".to_owned(), None)
    );
    assert_eq!(
        extract_title_and_subtitle(&tree, "d").unwrap(),
        ("Trailing ".to_owned(), Some(String::new()))
    );
    for key in ["c", "e", "missing"] {
        match extract_title_and_subtitle(&tree, key) {
            Err(ScraperError::ScrapeError(message)) => {
                assert_eq!(message, "Failed to scrape book title")
            }
            other => panic!("unexpected: {:?}", other),
        }
    }
}

#[test]
fn page_count_of_zero_is_none() {
    let tree = graph(
        r#""a": {"details": {"numPages": 381}}, "b": {"details": {"numPages": 0}},
           "c": {"details": {"numPages": "381"}}, "d": {"details": {"numPages": 381.5}},
           "e": {"details": {}}, "f": {}"#,
    );
    assert_eq!(extract_page_count(&tree, "a"), Some(381));
    for key in ["b", "c", "d", "e", "f", "g"] {
        assert_eq!(extract_page_count(&tree, key), None, "{}", key);
    }
}

#[test]
fn page_count_is_positive_or_none() {
    let tree = graph(
        r#""ROOT_QUERY": {"getBookByLegacyId({\"legacyId\":\"1\"})": {"__ref": "minus"}},
           "minus": {"title": "Short", "details": {"numPages": -5}},
           "least": {"details": {"numPages": -9223372036854775808}},
           "one": {"details": {"numPages": 1}},
           "most": {"details": {"numPages": 9223372036854775807}}"#,
    );
    assert_eq!(extract_page_count(&tree, "minus"), None);
    assert_eq!(extract_page_count(&tree, "least"), None);
    assert_eq!(extract_page_count(&tree, "one"), Some(1));
    assert_eq!(extract_page_count(&tree, "most"), Some(9223372036854775807));
    assert_eq!(extract_metadata(&tree, "1").unwrap().page_count, None);
}

#[test]
fn unknown_author_is_told_by_the_lower_case_name() {
    let author = contributor("Unknown Author", "Author", "2");
    assert_eq!(keep_known(author.clone(), "unknown author"), None);
    assert_eq!(keep_known(author.clone(), "Unknown Author"), Some(author.clone()));
    assert_eq!(keep_known(author.clone(), "unknown  author"), Some(author.clone()));
    assert_eq!(keep_known(author.clone(), ""), Some(author.clone()));
    let other = contributor("Rick Riordan", "Author", "15872");
    assert_eq!(keep_known(other.clone(), "rick riordan"), Some(other.clone()));
    assert_eq!(keep_known(other, "unknown author"), None);
}

#[test]
fn publication_date_is_an_instant_in_milliseconds() {
    let tree = graph(
        r#""a": {"details": {"publicationTime": 1241506800000}},
           "b": {"details": {"publicationTime": -86400000}},
           "c": {"details": {"publicationTime": "1241506800000"}},
           "d": {"details": {"publicationTime": 1.5}},
           "e": {"details": {"publicationTime": 9223372036854775807}},
           "f": {"details": {"publicationTime": -9223372036854775808}},
           "g": {"details": {"publicationTime": null}},
           "h": {"details": {"publicationTime": 0}}"#,
    );
    assert_eq!(extract_publication_date(&tree, "a"), Some(1241506800000));
    assert_eq!(extract_publication_date(&tree, "b"), Some(-86400000));
    assert_eq!(extract_publication_date(&tree, "h"), Some(0));
    for key in ["c", "d", "e", "f", "g", "i"] {
        assert_eq!(extract_publication_date(&tree, key), None, "{}", key);
    }
}

#[test]
fn image_url_is_optional() {
    let tree = graph(r#""a": {"imageUrl": " https://images.example/a.jpg "}, "b": {"imageUrl": null}"#);
    assert_eq!(
        extract_image_url(&tree, "a"),
        Some("https://images.example/a.jpg".to_owned())
    );
    assert_eq!(extract_image_url(&tree, "b"), None);
    assert_eq!(extract_image_url(&tree, "c"), None);
}

#[test]
fn contributor_needs_a_name_and_an_identifier() {
    let tree = graph(
        r#""legacy": {"name": "  Rick   Riordan ", "legacyId": 15872,
                      "webUrl": "https://www.goodreads.com/author/show/1.Other"},
           "negative": {"name": "N", "legacyId": -5},
           "url": {"name": "Mark Zug", "webUrl": "https://www.goodreads.com/author/show/619712.Mark_Zug.x"},
           "nodot": {"name": "No Dot", "webUrl": "https://www.goodreads.com/author/show/77"},
           "elsewhere": {"name": "Else", "webUrl": "https://example.com/author/show/77.Else"},
           "text": {"name": "Text", "legacyId": "15872"},
           "nameless": {"legacyId": 3}, "blank": {"name": " ", "legacyId": 3},
           "bare": {"name": "Bare"}"#,
    );
    let fetch = |key: &str| fetch_contributor(&tree, ("Author".to_owned(), key.to_owned()));
    assert_eq!(fetch("legacy"), Some(contributor("Rick Riordan", "Author", "15872")));
    assert_eq!(fetch("negative"), Some(contributor("N", "Author", "-5")));
    assert_eq!(fetch("url"), Some(contributor("Mark Zug", "Author", "619712")));
    assert_eq!(fetch("nodot"), Some(contributor("No Dot", "Author", "77")));
    for key in ["elsewhere", "text", "nameless", "blank", "bare", "missing"] {
        assert_eq!(fetch(key), None, "{}", key);
    }
}

#[test]
fn unknown_authors_and_other_roles_are_left_out() {
    let tree = graph(
        r#""book": {
             "primaryContributorEdge": {"role": "Illustrator", "node": {"__ref": "p"}},
             "secondaryContributorEdges": [
                 {"role": "Author", "node": {"__ref": "u"}},
                 {"role": "author", "node": {"__ref": "a"}},
                 {"role": " Author ", "node": {"__ref": "a"}},
                 {"node": {"__ref": "a"}},
                 {"role": "Author"},
                 {"role": "Author", "node": {"__ref": "gone"}},
                 "not an edge",
                 {"role": "Author", "node": {"__ref": "b"}}
             ]},
           "unknown": {
             "primaryContributorEdge": {"role": "Author", "node": {"__ref": "u"}}},
           "odd": {"primaryContributorEdge": "x", "secondaryContributorEdges": {"role": "Author"}},
           "p": {"name": "Primary", "legacyId": 1},
           "u": {"name": "Unknown AUTHOR", "legacyId": 2},
           "a": {"name": "Second", "legacyId": 3},
           "b": {"name": "Third", "legacyId": 4}"#,
    );
    assert_eq!(
        extract_contributors(&tree, "book"),
        vec![
            contributor("Primary", "Illustrator", "1"),
            contributor("Second", "Author", "3"),
            contributor("Third", "Author", "4"),
        ]
    );
    assert_eq!(extract_contributors(&tree, "unknown"), Vec::new());
    assert_eq!(extract_contributors(&tree, "odd"), Vec::new());
    assert_eq!(extract_contributors(&tree, "missing"), Vec::new());
}

#[test]
fn series_with_malformed_entries_are_skipped() {
    let tree = graph(
        r#""book": {"bookSeries": [
               {"userPosition": "1.5", "series": {"__ref": "s1"}},
               {"userPosition": "2-3", "series": {"__ref": "s2"}},
               {"userPosition": "", "series": {"__ref": "s1"}},
               {"userPosition": "one", "series": {"__ref": "s1"}},
               {"userPosition": " 1", "series": {"__ref": "s1"}},
               {"userPosition": 1, "series": {"__ref": "s1"}},
               {"series": {"__ref": "s1"}},
               {"userPosition": "4"},
               {"userPosition": "4", "series": {"__ref": "untitled"}},
               {"userPosition": "4", "series": {"__ref": "unlinked"}},
               {"userPosition": "4", "series": {"__ref": "gone"}},
               {"userPosition": "-1e1", "series": {"__ref": "s3"}},
               {"userPosition": "+1e1", "series": {"__ref": "s3"}}
           ]},
           "flat": {"bookSeries": "none"},
           "s1": {"title": "Graceling  Realm", "webUrl": "https://www.goodreads.com/series/50706-graceling-realm"},
           "s2": {"title": "Second", "webUrl": "https://www.goodreads.com/series/77"},
           "s3": {"title": "Third", "webUrl": "https://example.com/series/5-x"},
           "untitled": {"webUrl": "https://www.goodreads.com/series/1-x"},
           "unlinked": {"title": "Unlinked"}"#,
    );
    assert_eq!(
        extract_series(&tree, "book"),
        vec![
            series("Graceling Realm", "1.5", "50706"),
            series("Second", "2", "77"),
            series("Third", "+1e1", "https://example.com/series/5"),
        ]
    );
    assert_eq!(extract_series(&tree, "flat"), Vec::new());
    assert_eq!(extract_series(&tree, "missing"), Vec::new());
}

#[test]
fn series_identifier_comes_out_of_the_address() {
    let tree = parse(
        r#"["https://www.goodreads.com/series/40736-percy-jackson", "https://www.goodreads.com/series/",
            "40736", "x-https://www.goodreads.com/series/1-y", 5]"#,
    )
    .unwrap();
    let items = tree.as_array().unwrap();
    assert_eq!(extract_id_from_url(Some(&items[0])), Some("40736".to_owned()));
    assert_eq!(extract_id_from_url(Some(&items[1])), Some(String::new()));
    assert_eq!(extract_id_from_url(Some(&items[2])), Some("40736".to_owned()));
    assert_eq!(extract_id_from_url(Some(&items[3])), Some("x".to_owned()));
    assert_eq!(extract_id_from_url(Some(&items[4])), None);
    assert_eq!(extract_id_from_url(None), None);
}

#[test]
fn record_needs_only_the_book_and_its_title() {
    let tree = graph(
        r#""ROOT_QUERY": {"getBookByLegacyId({\"legacyId\":\"1\"})": {"__ref": "Book:1"},
                          "getBookByLegacyId({\"legacyId\":\"2\"})": {"__ref": "Book:2"}},
           "Book:1": {"title": "Bare: A Book"}, "Book:2": {"imageUrl": "x", "details": {"numPages": 3}}"#,
    );
    assert_eq!(
        extract_metadata(&tree, "1").unwrap(),
        BookMetadata {
            title: "Bare".to_owned(),
            publication_date: None,
            contributors: Vec::new(),
            series: Vec::new(),
            page_count: None,
            image_url: None,
            goodreads_id: "1".to_owned(),
        }
    );
    match extract_metadata(&tree, "2") {
        Err(ScraperError::ScrapeError(message)) => assert_eq!(message, "Failed to scrape book title"),
        other => panic!("unexpected: {:?}", other),
    }
    match extract_metadata(&tree, "3") {
        Err(ScraperError::ScrapeError(message)) => assert_eq!(message, "Failed to scrape Amazon ID"),
        other => panic!("unexpected: {:?}", other),
    }
}

#[test]
fn page_without_data_is_a_scrape_error() {
    match fetch_metadata("<html><head><script id=\"x\">{}</script></head></html>", "1") {
        Err(ScraperError::ScrapeError(message)) => {
            assert_eq!(message, "Failed to scrape book metadata")
        }
        other => panic!("unexpected: {:?}", other),
    }
    match extract_book_metadata("") {
        Err(ScraperError::ScrapeError(message)) => {
            assert_eq!(message, "Failed to scrape book metadata")
        }
        other => panic!("unexpected: {:?}", other),
    }
}

#[test]
fn page_with_malformed_data_is_a_serialize_error() {
    let html = "<html><head><script id=\"__NEXT_DATA__\">{\"props\": </script></head></html>";
    match fetch_metadata(html, "1") {
        Err(ScraperError::SerializeError(_)) => {}
        other => panic!("unexpected: {:?}", other),
    }
}

#[test]
fn document_is_read_from_the_first_data_element() {
    let html = "<html><head><script id=\"__NEXT_DATA__\">{\"n\": 1}</script></head>\
                <body><script id=\"__NEXT_DATA__\">{\"n\": 2}</script></body></html>";
    let tree = extract_book_metadata(html).unwrap();
    assert_eq!(tree.get("n").unwrap().as_i64(), Some(1));
    match read_document(Err("no selector".to_owned())) {
        Err(ScraperError::ParseError(message)) => assert_eq!(message, "no selector"),
        other => panic!("unexpected: {:?}", other.map(|_| ())),
    }
    let found = vec![("[7]".to_owned(), None), ("{".to_owned(), None)];
    let tree = read_document(Ok(found)).unwrap();
    assert_eq!(tree.as_array().unwrap()[0].as_i64(), Some(7));
}

#[test]
fn instants_span_the_years_that_a_date_can_hold() {
    let date = |millis: i64| {
        let tree = graph(&format!(
            "\"a\": {{\"details\": {{\"publicationTime\": {}}}}}",
            millis
        ));
        extract_publication_date(&tree, "a")
    };
    assert_eq!(date(8_210_266_876_799_999), Some(8_210_266_876_799_999));
    assert_eq!(date(8_210_266_876_800_000), None);
    assert_eq!(date(-8_334_601_228_800_000), Some(-8_334_601_228_800_000));
    assert_eq!(date(-8_334_601_228_800_001), None);
}

#[test]
fn publisher_language_and_genres_are_read_where_they_are() {
    let tree = graph(
        r#""book": {"details": {"publisher": " Disney-Hyperion  Books ", "language": {"name": "English"}},
                    "bookGenres": [{"genre": {"name": "Fantasy"}}, {"genre": {"name": " "}},
                                   {"genre": {}}, "x", {"genre": {"name": "Young  Adult"}}]},
           "bare": {"details": {"language": "English"}, "bookGenres": {"genre": {"name": "Fantasy"}}}"#,
    );
    assert_eq!(extract_publisher(&tree, "book"), Some("Disney-Hyperion Books".to_owned()));
    assert_eq!(extract_language(&tree, "book"), Some("English".to_owned()));
    assert_eq!(
        extract_genres(&tree, "book"),
        vec!["Fantasy".to_owned(), "Young Adult".to_owned()]
    );
    assert_eq!(extract_publisher(&tree, "bare"), None);
    assert_eq!(extract_language(&tree, "bare"), None);
    assert_eq!(extract_genres(&tree, "bare"), Vec::<String>::new());
    assert_eq!(extract_genres(&tree, "missing"), Vec::<String>::new());
}

#[test]
fn isbn_falls_back_to_the_longer_one_and_then_to_the_retailer() {
    let tree = graph(
        r#""all": {"details": {"isbn": "1423101472", "isbn13": "9781423101475", "asin": "B002"}},
           "long": {"details": {"isbn": null, "isbn13": "9781423101475", "asin": "B002"}},
           "retail": {"details": {"isbn": " ", "asin": "B002"}},
           "none": {"details": {"isbn": 1423101472}}"#,
    );
    assert_eq!(extract_isbn(&tree, "all"), Some("1423101472".to_owned()));
    assert_eq!(extract_isbn(&tree, "long"), Some("9781423101475".to_owned()));
    assert_eq!(extract_isbn(&tree, "retail"), Some("B002".to_owned()));
    assert_eq!(extract_isbn(&tree, "none"), None);
    assert_eq!(extract_isbn(&tree, "missing"), None);
}
