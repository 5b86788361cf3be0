//! Finding the catalog's identifier of a book from a title, a title and an
//! author, or an ISBN.

use vstd::prelude::*;
use vstd::utf8::encode_utf8;
use crate::html::{found_views, outcome_view, select, selection, Found, FoundView};
use crate::json::{Json, JsonView};
use crate::scraper::errors::{Failure, ScraperError};
use crate::scraper::metadata_fetcher::{extract_book_metadata, page_document};
use crate::text::{
    after_first, before_first, chars_of, contains, counts_as_alphanumeric, has_substring,
    head_before, lowercase, occurs_at, run_len, scan, slice_of, string_of, tail_after, text_view,
    CharClass,
};

verus! {

/// A book that a search found: its title, its author, its identifier.
pub type SearchResult = (String, String, String);

/// The same, as a mathematical value.
pub type SearchResultView = (Seq<char>, Seq<char>, Seq<char>);

/// The views of `results`.
pub open spec fn result_views(results: Seq<SearchResult>) -> Seq<SearchResultView> {
    results.map_values(|result: SearchResult| (result.0@, result.1@, result.2@))
}

/// The test that keeps the letters and the numbers of a text.
pub open spec fn alphanumeric() -> spec_fn(char) -> bool {
    |c: char| counts_as_alphanumeric(c)
}

/// The form in which two texts are compared: the letters and numbers of `s`,
/// in lower case.
pub open spec fn folded(s: Seq<char>) -> Seq<char> {
    lowercase(s.filter(alphanumeric()))
}

/// Whether `a` and `b` match: one of them, folded, holds the other, folded,
/// as a part.
pub open spec fn fuzzy_equals(a: Seq<char>, b: Seq<char>) -> bool {
    contains(folded(a), folded(b)) || contains(folded(b), folded(a))
}

/// Matching looks at the folded forms only, so neither case nor punctuation
/// can change its outcome; every text matches itself; and two texts match
/// whichever of them is named first.
pub proof fn lemma_fuzzy_equals(a: Seq<char>, b: Seq<char>, c: Seq<char>)
    ensures
        folded(a) == folded(c) ==> fuzzy_equals(a, b) == fuzzy_equals(c, b),
        fuzzy_equals(a, a),
        fuzzy_equals(a, b) == fuzzy_equals(b, a),
{
    assert(folded(a).subrange(0, folded(a).len() as int) == folded(a));
    assert(occurs_at(folded(a), folded(a), 0));
}

/// What follows the `count`-th `mark` of `s`; nothing where `s` holds fewer.
pub open spec fn after_marks(s: Seq<char>, mark: char, count: nat) -> Seq<char>
    decreases count,
{
    if count == 0 {
        s
    } else {
        match after_first(s, mark) {
            Some(rest) => after_marks(rest, mark, (count - 1) as nat),
            None => Seq::empty(),
        }
    }
}

/// The digits that `s` begins with.
pub open spec fn leading_digits(s: Seq<char>) -> Seq<char> {
    s.take(run_len(s, CharClass::Digit) as int)
}

/// The identifier in the address `url` of a book: of what follows the third
/// slash, up to the first question mark, the digits at the start.
pub open spec fn goodreads_id_of(url: Seq<char>) -> Seq<char> {
    leading_digits(before_first(after_marks(url, '/', 3), '?'))
}

/// The folded form of `s`.
fn fold(s: &str) -> (out: Vec<char>)
    ensures
        out@ == folded(s@),
{
    let chars = chars_of(s);
    let mut kept: Vec<char> = Vec::new();
    let mut i: usize = 0;
    assert(chars@.take(0).filter(alphanumeric()) =~= Seq::empty()) by {
        reveal(Seq::filter);
    }
    while i < chars.len()
        invariant
            i <= chars.len(),
            kept@ == chars@.take(i as int).filter(alphanumeric()),
        decreases chars.len() - i,
    {
        proof {
            assert(chars@.take(i + 1) == chars@.take(i as int).push(chars@[i as int]));
            chars@.take(i as int).lemma_filter_push(chars@[i as int], alphanumeric());
        }
        if chars[i].is_alphanumeric() {
            kept.push(chars[i]);
        }
        i += 1;
    }
    assert(chars@.take(chars.len() as int) == chars@);
    chars_of(string_of(&kept).as_str().to_lowercase().as_str())
}

/// Whether `str1` and `str2` match, whatever their case and punctuation.
pub fn matches(str1: &str, str2: &str) -> (b: bool)
    ensures
        b == fuzzy_equals(str1@, str2@),
{
    let first = fold(str1);
    let second = fold(str2);
    has_substring(&first, &second) || has_substring(&second, &first)
}

/// The identifier in the address `url` of a book.
pub fn extract_goodreads_id(url: &str) -> (id: String)
    ensures
        id@ == goodreads_id_of(url@),
{
    let mut rest = chars_of(url);
    let mut left: usize = 3;
    while left > 0
        invariant
            after_marks(url@, '/', 3) == after_marks(rest@, '/', left as nat),
        decreases left,
    {
        match tail_after(&rest, '/') {
            Some(tail) => {
                rest = tail;
            },
            None => {
                assert(leading_digits(before_first(Seq::<char>::empty(), '?')) =~= Seq::<
                    char,
                >::empty());
                return String::new();
            },
        }
        left -= 1;
    }
    let path = head_before(&rest, '?');
    assert(path@.skip(0) == path@);
    let end = scan(&path, 0, CharClass::Digit);
    assert(path@.take(end as int) == path@.subrange(0, end as int));
    string_of(&slice_of(&path, 0, end))
}

/// The identifier of the first of `results` whose title matches `title` and,
/// where an author is asked for, whose author matches `author`.
pub open spec fn first_match(
    results: Seq<SearchResultView>,
    title: Seq<char>,
    author: Option<Seq<char>>,
) -> Option<Seq<char>>
    decreases results.len(),
{
    if results.len() == 0 {
        None
    } else if fuzzy_equals(results[0].0, title) && (author matches Some(name) ==> fuzzy_equals(
        results[0].1,
        name,
    )) {
        Some(results[0].2)
    } else {
        first_match(results.skip(1), title, author)
    }
}

/// What `first_match` finds is the identifier of a result that matches and
/// that no matching result precedes; it finds nothing only where no result
/// matches.
pub proof fn lemma_first_match(
    results: Seq<SearchResultView>,
    title: Seq<char>,
    author: Option<Seq<char>>,
)
    ensures
        match first_match(results, title, author) {
            Some(id) => exists|i: int|
                0 <= i < results.len() && id == results[i].2 && #[trigger] is_match(
                    results[i],
                    title,
                    author,
                ) && forall|j: int| 0 <= j < i ==> !is_match(#[trigger] results[j], title, author),
            None => forall|i: int|
                0 <= i < results.len() ==> !is_match(#[trigger] results[i], title, author),
        },
    decreases results.len(),
{
    if results.len() > 0 && !is_match(results[0], title, author) {
        let rest = results.skip(1);
        lemma_first_match(rest, title, author);
        match first_match(rest, title, author) {
            Some(id) => {
                let i = choose|i: int|
                    0 <= i < rest.len() && id == rest[i].2 && #[trigger] is_match(
                        rest[i],
                        title,
                        author,
                    ) && forall|j: int| 0 <= j < i ==> !is_match(#[trigger] rest[j], title, author);
                assert(results[i + 1] == rest[i]);
                assert forall|j: int| 0 <= j < i + 1 implies !is_match(
                    #[trigger] results[j],
                    title,
                    author,
                ) by {
                    if j > 0 {
                        assert(results[j] == rest[j - 1]);
                    }
                }
                assert(is_match(results[i + 1], title, author));
            },
            None => {
                assert forall|i: int| 0 <= i < results.len() implies !is_match(
                    #[trigger] results[i],
                    title,
                    author,
                ) by {
                    if i > 0 {
                        assert(results[i] == rest[i - 1]);
                    }
                }
            },
        }
    } else if results.len() > 0 {
        assert(is_match(results[0], title, author));
    }
}

/// Whether `result` is the book that is looked for.
pub open spec fn is_match(result: SearchResultView, title: Seq<char>, author: Option<Seq<char>>) -> bool {
    fuzzy_equals(result.0, title) && (author matches Some(name) ==> fuzzy_equals(result.1, name))
}

/// The identifier of the first of `results` that matches.
fn select_match(results: &Vec<SearchResult>, title: &str, author: Option<&str>) -> (id: Option<
    String,
>)
    ensures
        text_view(id) == first_match(
            result_views(results@),
            title@,
            match author {
                Some(name) => Some(name@),
                None => None,
            },
        ),
{
    let ghost wanted = match author {
        Some(name) => Some(name@),
        None => None,
    };
    let ghost all = result_views(results@);
    let mut i: usize = 0;
    assert(all.skip(0) == all);
    while i < results.len()
        invariant
            i <= results.len(),
            all == result_views(results@),
            wanted == match author {
                Some(name) => Some(name@),
                None => None,
            },
            first_match(all, title@, wanted) == first_match(all.skip(i as int), title@, wanted),
        decreases results.len() - i,
    {
        proof {
            assert(all.skip(i as int)[0] == all[i as int]);
            assert(all.skip(i as int).skip(1) == all.skip(i + 1));
        }
        let by_author = match author {
            Some(name) => matches(results[i].1.as_str(), name),
            None => true,
        };
        if matches(results[i].0.as_str(), title) && by_author {
            return Some(results[i].2.clone());
        }
        i += 1;
    }
    None
}

/// The identifier of the first of `results` whose title matches `title`.
pub fn select_by_title(results: &Vec<SearchResult>, title: &str) -> (id: Option<String>)
    ensures
        text_view(id) == first_match(result_views(results@), title@, None),
{
    select_match(results, title, None)
}

/// The identifier of the first of `results` whose title matches `title` and
/// whose author matches `author`.
pub fn select_by_title_and_author(results: &Vec<SearchResult>, title: &str, author: &str) -> (id:
    Option<String>)
    ensures
        text_view(id) == first_match(result_views(results@), title@, Some(author@)),
{
    select_match(results, title, Some(author))
}

/// Whether `byte` stands for itself in an address: a letter or digit of
/// ASCII, or one of `-`, `.`, `_` and `~`.
pub open spec fn is_unreserved(byte: u8) -> bool {
    ||| 0x30 <= byte <= 0x39
    ||| 0x41 <= byte <= 0x5A
    ||| 0x61 <= byte <= 0x7A
    ||| byte == 0x2D
    ||| byte == 0x2E
    ||| byte == 0x5F
    ||| byte == 0x7E
}

/// The hexadecimal digit of `value`, in upper case.
pub open spec fn hex_digit(value: int) -> char {
    if value < 10 {
        ('0' as int + value) as char
    } else {
        ('A' as int + value - 10) as char
    }
}

/// How `byte` is written in an address: as itself where it is unreserved,
/// else as `%` and its two hexadecimal digits.
pub open spec fn encoded_byte(byte: u8) -> Seq<char> {
    if is_unreserved(byte) {
        seq![byte as char]
    } else {
        seq!['%', hex_digit(byte as int / 16), hex_digit(byte as int % 16)]
    }
}

/// The percent-encoding of `text`: each byte of its UTF-8 form, encoded.
pub open spec fn percent_encoded(text: Seq<char>) -> Seq<char> {
    encode_utf8(text).map_values(|byte: u8| encoded_byte(byte)).flatten()
}

/// `urlencoding::encode`: the percent-encoding of `text`.
#[verifier::external_body]
fn encode(text: &str) -> (out: String)
    ensures
        out@ == percent_encoded(text@),
{
    urlencoding::encode(text).into_owned()
}

/// The address of the catalog's search for `query`.
pub fn search_url(query: &str) -> (url: String)
    ensures
        url@ == "https://www.goodreads.com/search?q="@ + percent_encoded(query@),
{
    let mut url = "https://www.goodreads.com/search?q=".to_owned();
    url.append(encode(query).as_str());
    url
}

/// The address of the catalog's page of the book with the identifier `id`.
pub fn book_url(id: &str) -> (url: String)
    ensures
        url@ == "https://www.goodreads.com/book/show/"@ + id@,
{
    let mut url = "https://www.goodreads.com/book/show/".to_owned();
    url.append(id);
    url
}

/// The query for a title and an author together: the two with a space
/// between them.
pub fn title_and_author_query(title: &str, author: &str) -> (query: String)
    ensures
        query@ == title@ + " "@ + author@,
{
    let mut query = title.to_owned();
    query.append(" ");
    query.append(author);
    query
}

/// Whether the answer to a request for a book's page shows that the book is
/// there: `status` is the status of the answer, where one came. A status
/// from 200 to 299 shows it; any other status, and no answer, do not.
pub fn verify_id_exists(status: Option<u16>) -> (exists: bool)
    ensures
        exists == (status matches Some(code) && 200 <= code <= 299),
{
    match status {
        Some(code) => 200 <= code && code <= 299,
        None => false,
    }
}

/// The selector of the links that carry a title in the search's answer.
pub open spec fn title_selector() -> Seq<char> {
    "a[class=\"bookTitle\"]"@
}

/// The selector of the links that carry an author in the search's answer.
pub open spec fn author_selector() -> Seq<char> {
    "a[class=\"authorName\"]"@
}

/// The smaller of two lengths.
pub open spec fn shorter(a: nat, b: nat) -> nat {
    if a <= b {
        a
    } else {
        b
    }
}

/// The books that the title links and the author links of a search's answer
/// stand for: the `i`-th title goes with the `i`-th author, as far as both
/// lists reach, and the identifier comes out of the title link's address. A
/// title link without an address is a `Parse` failure.
pub open spec fn paired(titles: Seq<FoundView>, authors: Seq<FoundView>) -> Result<
    Seq<SearchResultView>,
    Failure,
> {
    let count = shorter(titles.len(), authors.len());
    if forall|i: int| 0 <= i < count ==> (#[trigger] titles[i]).1.is_some() {
        Ok(
            Seq::new(
                count,
                |i: int| (titles[i].0, authors[i].0, goodreads_id_of(titles[i].1.unwrap())),
            ),
        )
    } else {
        Err(Failure::Parse("Failed to extract link from search result"@))
    }
}

/// The books that two selections stand for, the first of title links and the
/// second of author links. A refused selector is a `Parse` failure with its
/// message, that of the first selection before that of the second.
pub open spec fn results_of(
    titles: Result<Seq<FoundView>, Seq<char>>,
    authors: Result<Seq<FoundView>, Seq<char>>,
) -> Result<Seq<SearchResultView>, Failure> {
    match titles {
        Ok(titles) => match authors {
            Ok(authors) => paired(titles, authors),
            Err(message) => Err(Failure::Parse(message)),
        },
        Err(message) => Err(Failure::Parse(message)),
    }
}

/// The books in the search's answer `html`.
pub open spec fn search_results(html: Seq<char>) -> Result<Seq<SearchResultView>, Failure> {
    results_of(
        selection(html, title_selector(), "href"@),
        selection(html, author_selector(), "href"@),
    )
}

/// The view of the outcome of reading a search's answer.
pub open spec fn results_view(results: Result<Vec<SearchResult>, ScraperError>) -> Result<
    Seq<SearchResultView>,
    Failure,
> {
    match results {
        Ok(results) => Ok(result_views(results@)),
        Err(error) => Err(error@),
    }
}

/// The books that two selections stand for.
pub fn pair_results(titles: Result<Vec<Found>, String>, authors: Result<Vec<Found>, String>) -> (results:
    Result<Vec<SearchResult>, ScraperError>)
    ensures
        results_view(results) == results_of(outcome_view(titles), outcome_view(authors)),
{
    let ghost outcome = results_of(outcome_view(titles), outcome_view(authors));
    let title_links = match titles {
        Ok(found) => found,
        Err(message) => {
            return Err(ScraperError::ParseError(message));
        },
    };
    let author_links = match authors {
        Ok(found) => found,
        Err(message) => {
            return Err(ScraperError::ParseError(message));
        },
    };
    let count: usize = if title_links.len() <= author_links.len() {
        title_links.len()
    } else {
        author_links.len()
    };
    let ghost title_views = found_views(title_links@);
    let ghost author_views = found_views(author_links@);
    assert(outcome == paired(title_views, author_views));
    let mut results: Vec<SearchResult> = Vec::new();
    let mut i: usize = 0;
    while i < count
        invariant
            i <= count,
            count == shorter(title_links@.len(), author_links@.len()),
            title_views == found_views(title_links@),
            author_views == found_views(author_links@),
            outcome == paired(title_views, author_views),
            outcome == results_of(outcome_view(titles), outcome_view(authors)),
            forall|k: int| 0 <= k < i ==> (#[trigger] title_views[k]).1.is_some(),
            result_views(results@) =~= Seq::new(
                i as nat,
                |k: int|
                    (
                        title_views[k].0,
                        author_views[k].0,
                        goodreads_id_of(title_views[k].1.unwrap()),
                    ),
            ),
        decreases count - i,
    {
        match &title_links[i].1 {
            Some(link) => {
                let result = (
                    title_links[i].0.clone(),
                    author_links[i].0.clone(),
                    extract_goodreads_id(link.as_str()),
                );
                proof {
                    assert(result_views(results@.push(result)) =~= result_views(results@).push(
                        (result.0@, result.1@, result.2@),
                    ));
                }
                results.push(result);
            },
            None => {
                proof {
                    assert(title_views[i as int] == (
                        title_links@[i as int].0@,
                        text_view(title_links@[i as int].1),
                    ));
                    assert(title_views[i as int].1.is_none());
                    assert(paired(title_views, author_views).is_err());
                }
                return Err(ScraperError::parse("Failed to extract link from search result"));
            },
        }
        i += 1;
    }
    Ok(results)
}

/// The books in the search's answer `html`.
pub fn search_books(html: &str) -> (results: Result<Vec<SearchResult>, ScraperError>)
    ensures
        results_view(results) == search_results(html@),
{
    let titles = select(html, "a[class=\"bookTitle\"]", "href");
    let authors = select(html, "a[class=\"authorName\"]", "href");
    pair_results(titles, authors)
}

/// The identifier of a book in the document that the answer to a search for
/// its ISBN embeds: the digits at the start of the string under `props`,
/// `pageProps`, `params`, `book_id`. A document without that string is a
/// `Parse` failure.
pub open spec fn isbn_id_of(root: JsonView) -> Result<Seq<char>, Failure> {
    match root.member("props"@).member("pageProps"@).member("params"@).member("book_id"@).text() {
        Some(id) => Ok(leading_digits(id)),
        None => Err(Failure::Parse("Failed to extract Goodreads ID from ISBN search results"@)),
    }
}

/// The identifier of the book in the answer `html` to a search for its ISBN.
pub open spec fn isbn_result(html: Seq<char>) -> Result<Option<Seq<char>>, Failure> {
    match page_document(html) {
        Ok(root) => match isbn_id_of(root) {
            Ok(id) => Ok(Some(id)),
            Err(failure) => Err(failure),
        },
        Err(failure) => Err(failure),
    }
}

/// The view of an identifier that was looked for.
pub open spec fn id_view(id: Result<Option<String>, ScraperError>) -> Result<
    Option<Seq<char>>,
    Failure,
> {
    match id {
        Ok(id) => Ok(text_view(id)),
        Err(error) => Err(error@),
    }
}

/// The identifier of a book in the document `root` that the answer to a
/// search for its ISBN embeds.
pub fn isbn_id(root: &Json) -> (id: Result<String, ScraperError>)
    ensures
        match id {
            Ok(id) => isbn_id_of(root@) == Ok::<Seq<char>, Failure>(id@),
            Err(error) => isbn_id_of(root@) == Err::<Seq<char>, Failure>(error@),
        },
{
    let props = root.get("props");
    let page = match props {
        Some(props) => props.get("pageProps"),
        None => None,
    };
    let params = match page {
        Some(page) => page.get("params"),
        None => None,
    };
    let book_id = match params {
        Some(params) => params.get("book_id"),
        None => None,
    };
    let raw = match book_id {
        Some(book_id) => book_id.as_str(),
        None => None,
    };
    match raw {
        Some(raw) => {
            let chars = chars_of(raw);
            assert(chars@.skip(0) == chars@);
            let end = scan(&chars, 0, CharClass::Digit);
            assert(chars@.take(end as int) == chars@.subrange(0, end as int));
            Ok(string_of(&slice_of(&chars, 0, end)))
        },
        None => Err(
            ScraperError::parse("Failed to extract Goodreads ID from ISBN search results"),
        ),
    }
}

/// The identifier of the book in the answer `html` to a search for its ISBN.
pub fn fetch_id_from_isbn(html: &str) -> (id: Result<Option<String>, ScraperError>)
    ensures
        id_view(id) == isbn_result(html@),
{
    match extract_book_metadata(html) {
        Ok(root) => match isbn_id(&root) {
            Ok(id) => Ok(Some(id)),
            Err(error) => Err(error),
        },
        Err(error) => Err(error),
    }
}

/// The identifier of the first book in the search's answer `html` whose
/// title matches `title`.
pub fn fetch_id_from_title(html: &str, title: &str) -> (id: Result<Option<String>, ScraperError>)
    ensures
        id_view(id) == match search_results(html@) {
            Ok(results) => Ok::<Option<Seq<char>>, Failure>(first_match(results, title@, None)),
            Err(failure) => Err(failure),
        },
{
    match search_books(html) {
        Ok(results) => Ok(select_by_title(&results, title)),
        Err(error) => Err(error),
    }
}

/// The identifier of the first book in the search's answer `html` whose
/// title matches `title` and whose author matches `author`.
pub fn fetch_id_from_title_and_author(html: &str, title: &str, author: &str) -> (id: Result<
    Option<String>,
    ScraperError,
>)
    ensures
        id_view(id) == match search_results(html@) {
            Ok(results) => Ok::<Option<Seq<char>>, Failure>(
                first_match(results, title@, Some(author@)),
            ),
            Err(failure) => Err(failure),
        },
{
    match search_books(html) {
        Ok(results) => Ok(select_by_title_and_author(&results, title, author)),
        Err(error) => Err(error),
    }
}

} // verus!
