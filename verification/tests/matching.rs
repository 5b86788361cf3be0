use promethea_core::scraper::errors::ScraperError;
use promethea_core::scraper::goodreads_id_fetcher;
use promethea_core::scraper::goodreads_id_fetcher::{
    book_url, extract_goodreads_id, fetch_id_from_isbn, fetch_id_from_title,
    fetch_id_from_title_and_author, pair_results, search_books, search_url, select_by_title,
    select_by_title_and_author, title_and_author_query, verify_id_exists,
};

fn result(title: &str, author: &str, id: &str) -> (String, String, String) {
    (title.to_owned(), author.to_owned(), id.to_owned())
}

fn search_page(rows: &[(&str, &str, &str)]) -> String {
    let mut page = String::from("<html><body><table>");
    for (href, title, author) in rows {
        page.push_str(&format!(
            "<tr><td><a class=\"bookTitle\" href=\"{}\"><span>{}</span></a>\
             <a class=\"authorName\" href=\"/author/show/1\"><span>{}</span></a></td></tr>",
            href, title, author
        ));
    }
    page.push_str("</table></body></html>");
    page
}

fn data_page(json: &str) -> String {
    format!(
        "<html><head><script id=\"__NEXT_DATA__\" type=\"application/json\">{}</script></head>\
         <body></body></html>",
        json
    )
}

#[test]
fn matching_ignores_case_and_punctuation() {
    assert!(goodreads_id_fetcher::matches("J.R.R. Tolkien", "tolkien"));
    assert!(!goodreads_id_fetcher::matches("The Hobbit", "Hobbit 2"));
}

#[test]
fn matching_holds_where_either_text_holds_the_other() {
    assert!(goodreads_id_fetcher::matches("tolkien", "J.R.R. Tolkien"));
    assert!(goodreads_id_fetcher::matches("The Last Magician (The Last Magician, #1)", "the last magician"));
    assert!(goodreads_id_fetcher::matches("Fire", "FIRE!"));
    assert!(!goodreads_id_fetcher::matches("Fire", "Water"));
}

#[test]
fn matching_keeps_letters_and_numbers_of_every_script() {
    assert!(!goodreads_id_fetcher::matches("Straße 9", "STRASSE9"));
    assert!(goodreads_id_fetcher::matches("Straße 9", "STRAßE9"));
    assert!(goodreads_id_fetcher::matches("ÉCOLE-42", "école 42"));
    assert!(!goodreads_id_fetcher::matches("Book 1", "Book 2"));
    assert!(goodreads_id_fetcher::matches("", "anything"));
}

#[test]
fn identifier_is_the_digit_run_after_the_third_slash() {
    assert_eq!(
        extract_goodreads_id("/book/show/30312855-the-last-magician?from_search=true"),
        "30312855"
    );
    assert_eq!(extract_goodreads_id("/book/show/6137154.Fire"), "6137154");
    assert_eq!(extract_goodreads_id("/book/show/42?x=/7"), "42");
    assert_eq!(extract_goodreads_id("/book/show/42/editions"), "42");
    assert_eq!(extract_goodreads_id("/book/show/?12"), "");
    assert_eq!(extract_goodreads_id("/book/show/abc123"), "");
    assert_eq!(extract_goodreads_id("/book/show"), "");
    assert_eq!(extract_goodreads_id(""), "");
    assert_eq!(
        extract_goodreads_id("https://www.goodreads.com/book/show/1"),
        ""
    );
}

#[test]
fn identifier_holds_decimal_digits_only() {
    assert_eq!(extract_goodreads_id("/book/show/12٣4"), "12");
    assert_eq!(extract_goodreads_id("/book/show/7²"), "7");
}

#[test]
fn first_matching_result_is_selected() {
    let results = vec![
        result("Catching Fire", "Suzanne Collins", "6148028"),
        result("Fire", "Kristin Cashore", "6137154"),
        result("Fire", "Someone Else", "1"),
    ];
    assert_eq!(select_by_title(&results, "Fire"), Some("6148028".to_owned()));
    assert_eq!(
        select_by_title_and_author(&results, "Fire", "Kristin Cashore"),
        Some("6137154".to_owned())
    );
    assert_eq!(select_by_title_and_author(&results, "Fire", "noauthor"), None);
    assert_eq!(select_by_title(&results, "thistitledoesnotexist"), None);
    assert_eq!(select_by_title(&Vec::new(), "Fire"), None);
}

#[test]
fn search_address_is_percent_encoded() {
    assert_eq!(
        search_url("The Last Magician"),
        "https://www.goodreads.com/search?q=The%20Last%20Magician"
    );
    assert_eq!(
        search_url("a-b_c.d~e/f?g&h=é"),
        "https://www.goodreads.com/search?q=a-b_c.d~e%2Ff%3Fg%26h%3D%C3%A9"
    );
    assert_eq!(search_url(""), "https://www.goodreads.com/search?q=");
    assert_eq!(book_url("57945316"), "https://www.goodreads.com/book/show/57945316");
    assert_eq!(title_and_author_query("Fire", "Kristin Cashore"), "Fire Kristin Cashore");
}

#[test]
fn verify_id_exists_test() {
    assert!(verify_id_exists(Some(200)));
    assert!(verify_id_exists(Some(299)));
}

#[test]
fn verify_id_not_found_test() {
    assert!(!verify_id_exists(Some(404)));
    assert!(!verify_id_exists(Some(199)));
    assert!(!verify_id_exists(Some(300)));
    assert!(!verify_id_exists(Some(500)));
    assert!(!verify_id_exists(None));
}

#[test]
fn search_page_gives_its_books_in_order() {
    let page = search_page(&[
        ("/book/show/30312855-the-last-magician?from_search=true", "The Last Magician", "Lisa Maxwell"),
        ("/book/show/2-other", " Other  Book ", "A. N. Other"),
    ]);
    let results = search_books(&page).unwrap();
    assert_eq!(
        results,
        vec![
            result("The Last Magician", "Lisa Maxwell", "30312855"),
            result(" Other  Book ", "A. N. Other", "2"),
        ]
    );
}

#[test]
fn search_page_pairs_titles_and_authors_by_position() {
    let page = "<html><body>\
        <a class=\"bookTitle\" href=\"/book/show/1-a\">A</a>\
        <a class=\"bookTitle\" href=\"/book/show/2-b\">B</a>\
        <a class=\"authorName\" href=\"/author/show/9\">First</a>\
        <a class=\"bookTitle extra\" href=\"/book/show/3-c\">C</a>\
        </body></html>";
    assert_eq!(search_books(page).unwrap(), vec![result("A", "First", "1")]);
    assert_eq!(search_books("<html></html>").unwrap(), Vec::new());
}

#[test]
fn title_link_without_address_is_a_parse_error() {
    let page = "<html><body>\
        <a class=\"bookTitle\" href=\"/book/show/1-a\">A</a>\
        <a class=\"authorName\">First</a>\
        <a class=\"bookTitle\">B</a>\
        <a class=\"authorName\">Second</a>\
        </body></html>";
    match search_books(page) {
        Err(ScraperError::ParseError(message)) => {
            assert_eq!(message, "Failed to extract link from search result")
        }
        other => panic!("unexpected: {:?}", other),
    }
    let unpaired = "<html><body>\
        <a class=\"bookTitle\" href=\"/book/show/1-a\">A</a>\
        <a class=\"authorName\">First</a>\
        <a class=\"bookTitle\">B</a>\
        </body></html>";
    assert_eq!(search_books(unpaired).unwrap(), vec![result("A", "First", "1")]);
}

#[test]
fn refused_selector_is_a_parse_error() {
    let found = vec![("A".to_owned(), Some("/book/show/1".to_owned()))];
    match pair_results(Err("bad selector".to_owned()), Ok(found.clone())) {
        Err(ScraperError::ParseError(message)) => assert_eq!(message, "bad selector"),
        other => panic!("unexpected: {:?}", other),
    }
    match pair_results(Ok(found.clone()), Err("worse".to_owned())) {
        Err(ScraperError::ParseError(message)) => assert_eq!(message, "worse"),
        other => panic!("unexpected: {:?}", other),
    }
    match pair_results(Err("first".to_owned()), Err("second".to_owned())) {
        Err(ScraperError::ParseError(message)) => assert_eq!(message, "first"),
        other => panic!("unexpected: {:?}", other),
    }
    assert_eq!(
        pair_results(Ok(found.clone()), Ok(found)).unwrap(),
        vec![result("A", "A", "1")]
    );
}

#[test]
fn fetch_id_from_title_test() {
    let book_title = "The Last Magician";
    let page = search_page(&[
        ("/book/show/77-magic", "Real Magic", "Someone"),
        ("/book/show/30312855-the-last-magician?from_search=true&rank=1", "The Last Magician (The Last Magician, #1)", "Lisa Maxwell"),
    ]);
    assert_eq!(
        fetch_id_from_title(&page, book_title).unwrap(),
        Some("30312855".to_owned())
    );
}

#[test]
fn fetch_id_from_title_not_found_test() {
    let book_title = "thistitledoesnotexist";
    let page = search_page(&[("/book/show/77-magic", "Real Magic", "Someone")]);
    assert_eq!(fetch_id_from_title(&page, book_title).unwrap(), None);
    assert_eq!(fetch_id_from_title(&search_page(&[]), book_title).unwrap(), None);
}

#[test]
fn fetch_id_from_title_and_author_test() {
    let book_title = "Fire";
    let book_author = "Kristin Cashore";
    let page = search_page(&[
        ("/book/show/6148028-catching-fire", "Catching Fire (The Hunger Games, #2)", "Suzanne Collins"),
        ("/book/show/6137154-fire?from_search=true", "Fire (Graceling Realm, #2)", "Kristin Cashore"),
    ]);
    assert_eq!(
        fetch_id_from_title_and_author(&page, book_title, book_author).unwrap(),
        Some("6137154".to_owned())
    );
}

#[test]
fn fetch_id_from_title_and_author_not_found_test() {
    let book_title = "thistitledoesnotexist";
    let book_author = "noauthor";
    let page = search_page(&[
        ("/book/show/6137154-fire?from_search=true", "Fire (Graceling Realm, #2)", "Kristin Cashore"),
    ]);
    assert_eq!(
        fetch_id_from_title_and_author(&page, book_title, book_author).unwrap(),
        None
    );
}

#[test]
fn fetch_id_from_isbn_test() {
    let page = data_page(
        r#"{"props":{"pageProps":{"params":{"book_id":"57945316-babel"}}},"page":"/book/show/[book_id]"}"#,
    );
    assert_eq!(
        fetch_id_from_isbn(&page).unwrap(),
        Some("57945316".to_owned())
    );
}

#[test]
fn isbn_page_without_data_is_a_scrape_error() {
    match fetch_id_from_isbn("<html><body><h1>No results.</h1></body></html>") {
        Err(ScraperError::ScrapeError(message)) => {
            assert_eq!(message, "Failed to scrape book metadata")
        }
        other => panic!("unexpected: {:?}", other),
    }
}

#[test]
fn isbn_page_without_identifier_is_a_parse_error() {
    for json in [
        r#"{"props":{"pageProps":{"params":{}}}}"#,
        r#"{"props":{"pageProps":{"params":{"book_id":57945316}}}}"#,
        r#"{"props":[]}"#,
        r#"null"#,
    ] {
        match fetch_id_from_isbn(&data_page(json)) {
            Err(ScraperError::ParseError(message)) => {
                assert_eq!(message, "Failed to extract Goodreads ID from ISBN search results")
            }
            other => panic!("unexpected: {:?}", other),
        }
    }
}

#[test]
fn isbn_page_with_malformed_data_is_a_serialize_error() {
    match fetch_id_from_isbn(&data_page("{\"props\":")) {
        Err(ScraperError::SerializeError(_)) => {}
        other => panic!("unexpected: {:?}", other),
    }
}

#[test]
fn isbn_identifier_may_be_empty() {
    let page = data_page(r#"{"props":{"pageProps":{"params":{"book_id":"babel"}}}}"#);
    assert_eq!(fetch_id_from_isbn(&page).unwrap(), Some(String::new()));
}
