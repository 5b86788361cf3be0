use promethea_core::numbers::{decimal_text, float_literal};
use promethea_core::text::{
    chars_of, has_substring, head_before, string_of, tail_after, tokens_of, trimmed, white_space,
    without_prefix,
};

fn chars(s: &str) -> Vec<char> {
    s.chars().collect()
}

#[test]
fn white_space_is_the_unicode_property() {
    let mut code: u32 = 0;
    while code <= 0x10FFFF {
        if let Some(c) = char::from_u32(code) {
            assert_eq!(white_space(c), c.is_whitespace(), "U+{:04X}", code);
        }
        code += 1;
    }
}

#[test]
fn chars_and_strings_convert_both_ways() {
    assert_eq!(chars_of("héllo wörld"), chars("héllo wörld"));
    assert_eq!(string_of(&chars("Graceling Realm")), "Graceling Realm");
    assert_eq!(string_of(&chars_of("")), "");
}

#[test]
fn trimming_takes_white_space_off_both_ends_only() {
    assert_eq!(trimmed(&chars(" \t a  b \u{a0}\n")), chars("a  b"));
    assert_eq!(trimmed(&chars("    ")), chars(""));
    assert_eq!(trimmed(&chars("abc")), chars("abc"));
}

#[test]
fn tokens_are_the_runs_between_white_space() {
    assert_eq!(
        tokens_of(&chars("  Ursula K.\tLe   Guin ")),
        vec![chars("Ursula"), chars("K."), chars("Le"), chars("Guin")]
    );
    assert_eq!(tokens_of(&chars(" \n ")), Vec::<Vec<char>>::new());
}

#[test]
fn a_text_is_cut_at_the_first_stop() {
    assert_eq!(head_before(&chars("a:b:c"), ':'), chars("a"));
    assert_eq!(tail_after(&chars("a:b:c"), ':'), Some(chars("b:c")));
    assert_eq!(head_before(&chars("abc"), ':'), chars("abc"));
    assert_eq!(tail_after(&chars("abc"), ':'), None);
    assert_eq!(tail_after(&chars("abc:"), ':'), Some(chars("")));
}

#[test]
fn a_prefix_is_taken_off_only_where_it_stands() {
    assert_eq!(without_prefix(&chars("series/12-x"), &chars("series/")), Some(chars("12-x")));
    assert_eq!(without_prefix(&chars("a series/12"), &chars("series/")), None);
    assert_eq!(without_prefix(&chars("se"), &chars("series/")), None);
}

#[test]
fn substrings_are_found_anywhere() {
    assert!(has_substring(&chars("jrrtolkien"), &chars("tolkien")));
    assert!(has_substring(&chars("jrrtolkien"), &chars("")));
    assert!(has_substring(&chars("jrrtolkien"), &chars("jrr")));
    assert!(!has_substring(&chars("thehobbit"), &chars("hobbit2")));
    assert!(!has_substring(&chars("ab"), &chars("abc")));
}

#[test]
fn decimal_text_spells_integers() {
    for n in [0i64, 7, 10, 15872, -1, -90210, i64::MAX, i64::MIN, 1_000_000_007] {
        assert_eq!(string_of(&decimal_text(n)), n.to_string());
    }
    assert_eq!(string_of(&decimal_text(619712)), "619712");
}

#[test]
fn float_literals_are_what_parses_as_a_float() {
    let texts = [
        "5", "1.5", "0.5", ".5", "5.", "+1", "-1", "1e5", "1E5", "1e+5", "1e-5", "1.5e3", "inf",
        "-inf", "+Infinity", "NaN", "nan", "INF", "", ".", "+", "-", "e5", "1e", "1e+", "1.2.3",
        "1 ", " 1", "1,5", "0x10", "infinit", "nano", "1_000", "٣", "1e5x", "..", "+.e1", "5.e2",
        "１", "--1", "1f",
    ];
    for text in texts {
        assert_eq!(
            float_literal(&chars(text)),
            text.parse::<f32>().is_ok(),
            "{:?}",
            text
        );
    }
}
