use promethea_core::scraper::sorting::{get_name_sort, get_title_sort};

#[test]
fn test_firstname_lastname() {
    let names = [
        String::from("Brandon Sanderson"),
        String::from("Robert Jordan"),
        String::from("Tad Williams"),
    ];

    let results: Vec<String> = names.iter().map(|name| get_name_sort(name)).collect();

    let expected = vec![
        String::from("Sanderson, Brandon"),
        String::from("Jordan, Robert"),
        String::from("Williams, Tad"),
    ];

    assert_eq!(results, expected);
}

#[test]
fn test_firstname_middlename_lastname() {
    let names = [
        String::from("Guy Gavriel Kay"),
        String::from("Orson Scott Card"),
        String::from("Justin Lee Anderson"),
    ];

    let expected = vec![
        String::from("Kay, Guy Gavriel"),
        String::from("Card, Orson Scott"),
        String::from("Anderson, Justin Lee"),
    ];

    let results: Vec<String> = names.iter().map(|name| get_name_sort(name)).collect();

    assert_eq!(expected, results);
}

#[test]
fn test_firstname_m_lastname() {
    let names = [
        String::from("Michael J. Sullivan"),
        String::from("Arthur C. Clarke"),
        String::from("Philip K. Dick"),
        String::from("Ursula K. Le Guin"),
    ];

    let expected = vec![
        String::from("Sullivan, Michael J."),
        String::from("Clarke, Arthur C."),
        String::from("Dick, Philip K."),
        String::from("Guin, Ursula K. Le"),
    ];

    let results: Vec<String> = names.iter().map(|name| get_name_sort(name)).collect();

    assert_eq!(expected, results);
}

#[test]
fn test_f_m_lastname() {
    let names = [
        String::from("R. R. Virdi"),
        String::from("S. A. Chakraborty"),
        String::from("M. L. Wang"),
    ];

    let expected = vec![
        String::from("Virdi, R. R."),
        String::from("Chakraborty, S. A."),
        String::from("Wang, M. L."),
    ];

    let results: Vec<String> = names.iter().map(|name| get_name_sort(name)).collect();

    assert_eq!(expected, results);
}

#[test]
fn test_firstname_m_m_lastname() {
    let names = [
        String::from("James S. A. Corey"),
        String::from("George R. R. Martin"),
    ];

    let expected = vec![
        String::from("Corey, James S. A."),
        String::from("Martin, George R. R."),
    ];

    let results: Vec<String> = names.iter().map(|name| get_name_sort(name)).collect();

    assert_eq!(expected, results);
}

#[test]
fn test_f_middlename_lastname() {
    let names = [
        String::from("R. Scott Bakker"),
        String::from("F. Scott Fitzgerald"),
    ];

    let expected = vec![
        String::from("Bakker, R. Scott"),
        String::from("Fitzgerald, F. Scott"),
    ];

    let results: Vec<String> = names.iter().map(|name| get_name_sort(name)).collect();

    assert_eq!(expected, results);
}

#[test]
fn test_f_m_m_lastname() {
    let name = "J. R. R. Tolkien";

    let expected = String::from("Tolkien, J. R. R.");
    let result = get_name_sort(name);

    assert_eq!(expected, result);
}

#[test]
fn test_singlename() {
    let names = [String::from("Baoshu"), String::from("Madonna")];

    let expected = vec![String::from("Baoshu"), String::from("Madonna")];

    let results: Vec<String> = names.iter().map(|name| get_name_sort(name)).collect();

    assert_eq!(expected, results);
}

#[test]
fn test_titles() {
    let titles = [
        String::from("A Game of Thrones"),
        String::from("An Echo of Things to Come"),
        String::from("The Hobbit"),
        String::from("Neverwhere"),
        String::from("I Am Not A Serial Killer"),
        String::from("Mr Monster"),
        String::from("The Hero of Ages"),
        String::from("The Great Hunt"),
    ];

    let expected = vec![
        String::from("Game of Thrones, A"),
        String::from("Echo of Things to Come, An"),
        String::from("Hobbit, The"),
        String::from("Neverwhere"),
        String::from("I Am Not A Serial Killer"),
        String::from("Mr Monster"),
        String::from("Hero of Ages, The"),
        String::from("Great Hunt, The"),
    ];

    let results: Vec<String> = titles.iter().map(|title| get_title_sort(title)).collect();

    assert_eq!(expected, results);
}

#[test]
fn name_without_tokens_has_empty_key() {
    assert_eq!(get_name_sort(""), "");
    assert_eq!(get_name_sort("  \t\u{3000} "), "");
}

#[test]
fn single_token_is_its_own_key_once_trimmed() {
    assert_eq!(get_name_sort("  Madonna\n"), "Madonna");
}

#[test]
fn name_tokens_are_joined_by_single_spaces() {
    assert_eq!(get_name_sort(" Ursula \t K.   Le\u{a0}Guin "), "Guin, Ursula K. Le");
}

#[test]
fn article_is_matched_as_a_whole_token_and_by_case() {
    assert_eq!(get_title_sort("Theory of Everything"), "Theory of Everything");
    assert_eq!(get_title_sort("the hobbit"), "the hobbit");
    assert_eq!(get_title_sort("AN Echo"), "AN Echo");
    assert_eq!(get_title_sort("Another Day"), "Another Day");
}

#[test]
fn only_the_leading_article_is_moved() {
    assert_eq!(get_title_sort("The Theory of The Thing"), "Theory of The Thing, The");
    assert_eq!(get_title_sort("A Tale of A City"), "Tale of A City, A");
}

#[test]
fn title_keeps_its_inner_spacing() {
    assert_eq!(get_title_sort("  The  Great   Hunt "), "Great   Hunt, The");
    assert_eq!(get_title_sort("The"), ", The");
    assert_eq!(get_title_sort(""), "");
    assert_eq!(get_title_sort("   "), "   ");
}
