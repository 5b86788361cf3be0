//! Numbers as text: the decimal spelling of an integer, and the spellings
//! that stand for a floating-point number.

use vstd::prelude::*;
use crate::text::{run_len, scan, CharClass};

verus! {

/// The character of the decimal digit `d`.
pub open spec fn digit_char(d: int) -> char {
    ('0' as int + d) as char
}

/// The decimal spelling of `n`, without leading zeros.
pub open spec fn decimal_digits(n: nat) -> Seq<char>
    decreases n,
{
    if n < 10 {
        seq![digit_char(n as int)]
    } else {
        decimal_digits(n / 10).push(digit_char((n % 10) as int))
    }
}

/// The decimal spelling of `n`, with `-` before a negative number.
pub open spec fn decimal(n: int) -> Seq<char> {
    if n < 0 {
        seq!['-'] + decimal_digits((-n) as nat)
    } else {
        decimal_digits(n as nat)
    }
}

/// The decimal spelling of `n`.
pub fn decimal_text(n: i64) -> (out: Vec<char>)
    ensures
        out@ == decimal(n as int),
{
    let start: u64 = if n < 0 {
        ((-(n + 1)) as u64) + 1
    } else {
        n as u64
    };
    let mut left: u64 = start;
    let mut low: Vec<char> = Vec::new();
    loop
        invariant_except_break
            decimal_digits(start as nat) == decimal_digits(left as nat) + low@.reverse(),
        ensures
            decimal_digits(start as nat) == low@.reverse(),
        decreases left,
    {
        let digit: u8 = (left % 10) as u8;
        let c: char = (48u8 + digit) as char;
        proof {
            assert(c == digit_char((left % 10) as int));
            assert(low@.push(c).reverse() =~= seq![c] + low@.reverse());
            if left >= 10 {
                assert(decimal_digits(left as nat) + low@.reverse() =~= decimal_digits(
                    (left / 10) as nat,
                ) + (seq![c] + low@.reverse()));
            } else {
                assert(decimal_digits(left as nat) + low@.reverse() =~= seq![c] + low@.reverse());
            }
        }
        low.push(c);
        if left < 10 {
            break ;
        }
        left = left / 10;
    }
    let mut out: Vec<char> = Vec::new();
    if n < 0 {
        out.push('-');
    }
    let ghost sign = out@;
    let mut i: usize = low.len();
    while i > 0
        invariant
            i <= low.len(),
            out@ == sign + low@.reverse().take(low.len() - i),
        decreases i,
    {
        i -= 1;
        proof {
            let turned = low@.reverse();
            assert(turned[low.len() - 1 - i] == low@[i as int]);
            assert(turned.take(low.len() - i) =~= turned.take(low.len() - 1 - i).push(low@[i as int]));
        }
        out.push(low[i]);
    }
    proof {
        assert(low@.reverse().take(low.len() as int) =~= low@.reverse());
        assert(sign =~= if n < 0 { seq!['-'] } else { Seq::<char>::empty() });
        assert(Seq::<char>::empty() + low@.reverse() =~= low@.reverse());
    }
    out
}

/// `s` without a sign `+` or `-` at its start.
pub open spec fn unsigned(s: Seq<char>) -> Seq<char> {
    if s.len() > 0 && (s[0] == '+' || s[0] == '-') {
        s.skip(1)
    } else {
        s
    }
}

/// Whether `a` and `b` are the same letter of the Latin alphabet, `b` being
/// lower case, whatever the case of `a`.
pub open spec fn is_letter(a: char, b: char) -> bool {
    a == b || a as u32 + 32 == b as u32
}

/// Whether `s` spells `word`, a word of lower-case Latin letters, in any mix
/// of cases.
pub open spec fn spells(s: Seq<char>, word: Seq<char>) -> bool {
    &&& s.len() == word.len()
    &&& forall|i: int| 0 <= i < s.len() ==> is_letter(#[trigger] s[i], word[i])
}

/// Whether `s` is an exponent: `e` or `E`, an optional sign, and one digit or
/// more.
pub open spec fn is_exponent(s: Seq<char>) -> bool {
    let digits = unsigned(s.skip(1));
    &&& s.len() > 0
    &&& (s[0] == 'e' || s[0] == 'E')
    &&& digits.len() > 0
    &&& run_len(digits, CharClass::Digit) == digits.len()
}

/// Whether `s` is an unsigned decimal number: digits with at most one point
/// among them, at least one digit in all, and an optional exponent.
pub open spec fn is_decimal_number(s: Seq<char>) -> bool {
    let whole = run_len(s, CharClass::Digit);
    let after_whole = s.skip(whole as int);
    let pointed = after_whole.len() > 0 && after_whole[0] == '.';
    let fraction_text = if pointed {
        after_whole.skip(1)
    } else {
        after_whole
    };
    let fraction = if pointed {
        run_len(fraction_text, CharClass::Digit)
    } else {
        0
    };
    let rest = fraction_text.skip(fraction as int);
    &&& whole + fraction > 0
    &&& (rest.len() == 0 || is_exponent(rest))
}

/// Whether `s` spells a floating-point number: an optional sign, and then
/// `inf`, `infinity` or `nan` in any mix of cases, or a decimal number.
pub open spec fn is_float_literal(s: Seq<char>) -> bool {
    let body = unsigned(s);
    ||| spells(body, seq!['i', 'n', 'f'])
    ||| spells(body, seq!['i', 'n', 'f', 'i', 'n', 'i', 't', 'y'])
    ||| spells(body, seq!['n', 'a', 'n'])
    ||| is_decimal_number(body)
}

/// Whether `text[from..]` spells `word`.
fn spells_from(text: &Vec<char>, from: usize, word: &Vec<char>) -> (b: bool)
    requires
        from <= text.len(),
    ensures
        b == spells(text@.skip(from as int), word@),
{
    if text.len() - from != word.len() {
        return false;
    }
    let ghost tail = text@.skip(from as int);
    let mut i: usize = 0;
    while i < word.len()
        invariant
            i <= word.len(),
            from + word.len() == text.len(),
            tail == text@.skip(from as int),
            forall|k: int| 0 <= k < i ==> is_letter(#[trigger] tail[k], word@[k]),
        decreases word.len() - i,
    {
        let a: char = text[from + i];
        let b: char = word[i];
        assert(tail[i as int] == a);
        let upper: u32 = a as u32;
        let lower: u32 = b as u32;
        if !(a == b || (lower >= 32 && lower - 32 == upper)) {
            return false;
        }
        i += 1;
    }
    true
}

/// Where the text after an optional sign at `from` begins.
fn skip_sign(text: &Vec<char>, from: usize) -> (at: usize)
    requires
        from <= text.len(),
    ensures
        from <= at <= text.len(),
        text@.skip(at as int) == unsigned(text@.skip(from as int)),
{
    if from < text.len() && (text[from] == '+' || text[from] == '-') {
        assert(text@.skip(from as int).skip(1) == text@.skip(from + 1));
        from + 1
    } else {
        from
    }
}

/// Whether `text[from..]` is an exponent.
fn exponent_from(text: &Vec<char>, from: usize) -> (b: bool)
    requires
        from <= text.len(),
    ensures
        b == is_exponent(text@.skip(from as int)),
{
    if from == text.len() {
        return false;
    }
    let ghost rest = text@.skip(from as int);
    assert(rest[0] == text@[from as int]);
    assert(rest.skip(1) == text@.skip(from + 1));
    if !(text[from] == 'e' || text[from] == 'E') {
        return false;
    }
    let digits_start = skip_sign(text, from + 1);
    let digits_end = scan(text, digits_start, CharClass::Digit);
    digits_start < text.len() && digits_end == text.len()
}

/// Whether `text[from..]` is an unsigned decimal number.
fn decimal_number_from(text: &Vec<char>, from: usize) -> (b: bool)
    requires
        from <= text.len(),
    ensures
        b == is_decimal_number(text@.skip(from as int)),
{
    let ghost body = text@.skip(from as int);
    let whole_end = scan(text, from, CharClass::Digit);
    let ghost after_whole = body.skip(whole_end - from);
    assert(after_whole == text@.skip(whole_end as int));
    if whole_end < text.len() && text[whole_end] == '.' {
        assert(after_whole[0] == text@[whole_end as int]);
        assert(after_whole.skip(1) == text@.skip(whole_end + 1));
        let fraction_end = scan(text, whole_end + 1, CharClass::Digit);
        assert(text@.skip(whole_end + 1).skip(fraction_end - (whole_end + 1)) == text@.skip(
            fraction_end as int,
        ));
        if fraction_end - from == 1 {
            return false;
        }
        fraction_end == text.len() || exponent_from(text, fraction_end)
    } else {
        if whole_end < text.len() {
            assert(after_whole[0] == text@[whole_end as int]);
        }
        assert(after_whole.skip(0) == after_whole);
        if whole_end == from {
            return false;
        }
        whole_end == text.len() || exponent_from(text, whole_end)
    }
}

/// Whether `text` spells a floating-point number.
pub fn float_literal(text: &Vec<char>) -> (b: bool)
    ensures
        b == is_float_literal(text@),
{
    assert(text@.skip(0) == text@);
    let start = skip_sign(text, 0);
    let inf: Vec<char> = vec!['i', 'n', 'f'];
    let infinity: Vec<char> = vec!['i', 'n', 'f', 'i', 'n', 'i', 't', 'y'];
    let nan: Vec<char> = vec!['n', 'a', 'n'];
    assert(inf@ =~= seq!['i', 'n', 'f']);
    assert(infinity@ =~= seq!['i', 'n', 'f', 'i', 'n', 'i', 't', 'y']);
    assert(nan@ =~= seq!['n', 'a', 'n']);
    spells_from(text, start, &inf) || spells_from(text, start, &infinity) || spells_from(
        text,
        start,
        &nan,
    ) || decimal_number_from(text, start)
}

} // verus!
