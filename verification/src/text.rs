//! Text as sequences of characters: classes of characters, runs, trimming,
//! tokens and substrings.
//!
//! Every function here has its meaning stated over `Seq<char>`; the executable
//! versions work on `Vec<char>` and are converted at the library's edge.

use vstd::prelude::*;

verus! {

/// `String::push` puts the character at the end of the string.
pub assume_specification[ String::push ](s: &mut String, c: char)
    ensures
        final(s)@ == old(s)@.push(c),
;

/// Whether `c` has the Unicode property White_Space.
pub open spec fn is_white_space(c: char) -> bool {
    let n = c as u32;
    ||| 0x09 <= n <= 0x0D
    ||| n == 0x20
    ||| n == 0x85
    ||| n == 0xA0
    ||| n == 0x1680
    ||| 0x2000 <= n <= 0x200A
    ||| n == 0x2028
    ||| n == 0x2029
    ||| n == 0x202F
    ||| n == 0x205F
    ||| n == 0x3000
}

/// Whether `c` is one of the ten decimal digits `0` to `9`.
pub open spec fn is_digit(c: char) -> bool {
    '0' <= c <= '9'
}

/// A set of characters that a run of text can be made of.
#[derive(Clone, Copy)]
pub enum CharClass {
    /// The characters with the property White_Space.
    WhiteSpace,
    /// The characters without it.
    Word,
    /// The decimal digits.
    Digit,
    /// Every character but the one given.
    Except(char),
}

impl CharClass {
    /// Whether `c` belongs to the class.
    pub open spec fn has(self, c: char) -> bool {
        match self {
            CharClass::WhiteSpace => is_white_space(c),
            CharClass::Word => !is_white_space(c),
            CharClass::Digit => is_digit(c),
            CharClass::Except(stop) => c != stop,
        }
    }

    /// Tests whether `c` belongs to the class.
    pub fn holds(&self, c: char) -> (b: bool)
        ensures
            b == self.has(c),
    {
        match self {
            CharClass::WhiteSpace => white_space(c),
            CharClass::Word => !white_space(c),
            CharClass::Digit => '0' <= c && c <= '9',
            CharClass::Except(stop) => c != *stop,
        }
    }
}

/// Tests whether `c` has the property White_Space.
pub fn white_space(c: char) -> (b: bool)
    ensures
        b == is_white_space(c),
{
    let n: u32 = c as u32;
    (0x09 <= n && n <= 0x0D) || n == 0x20 || n == 0x85 || n == 0xA0 || n == 0x1680 || (0x2000 <= n
        && n <= 0x200A) || n == 0x2028 || n == 0x2029 || n == 0x202F || n == 0x205F || n == 0x3000
}

/// The length of the longest prefix of `s` made of characters of `class`.
pub open spec fn run_len(s: Seq<char>, class: CharClass) -> nat
    decreases s.len(),
{
    if s.len() > 0 && class.has(s[0]) {
        1 + run_len(s.skip(1), class)
    } else {
        0
    }
}

/// The length of the longest suffix of `s` made of characters of `class`.
pub open spec fn trailing_run_len(s: Seq<char>, class: CharClass) -> nat
    decreases s.len(),
{
    if s.len() > 0 && class.has(s.last()) {
        1 + trailing_run_len(s.drop_last(), class)
    } else {
        0
    }
}

/// A run stays inside the text, holds only characters of the class, and ends
/// at the first character outside it.
pub proof fn lemma_run_len(s: Seq<char>, class: CharClass)
    ensures
        run_len(s, class) <= s.len(),
        forall|i: int| 0 <= i < run_len(s, class) ==> class.has(#[trigger] s[i]),
        run_len(s, class) < s.len() ==> !class.has(s[run_len(s, class) as int]),
    decreases s.len(),
{
    if s.len() > 0 && class.has(s[0]) {
        let rest = s.skip(1);
        lemma_run_len(rest, class);
        assert forall|i: int| 0 <= i < run_len(s, class) implies class.has(#[trigger] s[i]) by {
            if i > 0 {
                assert(s[i] == rest[i - 1]);
            }
        }
        if run_len(s, class) < s.len() {
            assert(s[run_len(s, class) as int] == rest[run_len(rest, class) as int]);
        }
    }
}

/// The three properties of `lemma_run_len` single out the run's length.
pub proof fn lemma_run_len_is(s: Seq<char>, class: CharClass, n: int)
    requires
        0 <= n <= s.len(),
        forall|i: int| 0 <= i < n ==> class.has(#[trigger] s[i]),
        n < s.len() ==> !class.has(s[n]),
    ensures
        run_len(s, class) == n,
    decreases s.len(),
{
    if n > 0 {
        let rest = s.skip(1);
        assert(class.has(s[0]));
        assert forall|i: int| 0 <= i < n - 1 implies class.has(#[trigger] rest[i]) by {
            assert(rest[i] == s[i + 1]);
        }
        lemma_run_len_is(rest, class, n - 1);
    }
}

/// The same three properties single out the length of the run at the end of
/// the text.
pub proof fn lemma_trailing_run_len_is(s: Seq<char>, class: CharClass, n: int)
    requires
        0 <= n <= s.len(),
        forall|i: int| s.len() - n <= i < s.len() ==> class.has(#[trigger] s[i]),
        n < s.len() ==> !class.has(s[s.len() - n - 1]),
    ensures
        trailing_run_len(s, class) == n,
    decreases s.len(),
{
    if n > 0 {
        let rest = s.drop_last();
        assert(class.has(s[s.len() - 1]));
        assert forall|i: int| rest.len() - (n - 1) <= i < rest.len() implies class.has(
            #[trigger] rest[i],
        ) by {
            assert(rest[i] == s[i]);
        }
        lemma_trailing_run_len_is(rest, class, n - 1);
    }
}

/// `s` without the white space at its start.
pub open spec fn trim_start(s: Seq<char>) -> Seq<char> {
    s.skip(run_len(s, CharClass::WhiteSpace) as int)
}

/// `s` without the white space at its end.
pub open spec fn trim_end(s: Seq<char>) -> Seq<char> {
    s.take(s.len() - trailing_run_len(s, CharClass::WhiteSpace))
}

/// `s` without the white space at both ends.
pub open spec fn trim(s: Seq<char>) -> Seq<char> {
    trim_end(trim_start(s))
}

/// The maximal runs of characters of `s` that are not white space, in order.
pub open spec fn tokens(s: Seq<char>) -> Seq<Seq<char>>
    decreases s.len(),
{
    let rest = trim_start(s);
    let n = run_len(rest, CharClass::Word);
    if n == 0 {
        Seq::empty()
    } else {
        proof {
            lemma_run_len(s, CharClass::WhiteSpace);
            lemma_run_len(rest, CharClass::Word);
        }
        seq![rest.take(n as int)] + tokens(rest.skip(n as int))
    }
}

/// The `parts` written one after another with `sep` between neighbours.
pub open spec fn join(parts: Seq<Seq<char>>, sep: Seq<char>) -> Seq<char>
    decreases parts.len(),
{
    if parts.len() == 0 {
        Seq::empty()
    } else if parts.len() == 1 {
        parts[0]
    } else {
        join(parts.drop_last(), sep) + sep + parts.last()
    }
}

/// Whether `needle` stands in `hay` at position `at`.
pub open spec fn occurs_at(hay: Seq<char>, needle: Seq<char>, at: int) -> bool {
    &&& 0 <= at
    &&& at + needle.len() <= hay.len()
    &&& hay.subrange(at, at + needle.len()) == needle
}

/// Whether `needle` stands somewhere in `hay`.
pub open spec fn contains(hay: Seq<char>, needle: Seq<char>) -> bool {
    exists|at: int| occurs_at(hay, needle, at)
}

/// Whether `s` begins with `prefix`.
pub open spec fn starts_with(s: Seq<char>, prefix: Seq<char>) -> bool {
    occurs_at(s, prefix, 0)
}

/// The part of `s` before the first `stop`, or all of `s` where there is none.
pub open spec fn before_first(s: Seq<char>, stop: char) -> Seq<char> {
    s.take(run_len(s, CharClass::Except(stop)) as int)
}

/// The part of `s` after the first `stop`, where there is one.
pub open spec fn after_first(s: Seq<char>, stop: char) -> Option<Seq<char>> {
    let at = run_len(s, CharClass::Except(stop));
    if at < s.len() {
        Some(s.skip(at as int + 1))
    } else {
        None
    }
}

/// `s` without `prefix` at its start, and `s` itself where it does not begin
/// with `prefix`.
pub open spec fn strip_prefix(s: Seq<char>, prefix: Seq<char>) -> Seq<char> {
    if starts_with(s, prefix) {
        s.skip(prefix.len() as int)
    } else {
        s
    }
}

/// `s` with every run of two or more white-space characters replaced by one
/// space; a white-space character that stands alone stays as it is.
pub open spec fn collapse_white_space(s: Seq<char>) -> Seq<char>
    decreases s.len(),
{
    let run = run_len(s, CharClass::WhiteSpace);
    if s.len() == 0 {
        s
    } else if run >= 2 {
        proof {
            lemma_run_len(s, CharClass::WhiteSpace);
        }
        seq![' '] + collapse_white_space(s.skip(run as int))
    } else {
        seq![s[0]] + collapse_white_space(s.skip(1))
    }
}

/// The lower-case form of a text, as Unicode defines it without regard to
/// any language.
pub uninterp spec fn lowercase(s: Seq<char>) -> Seq<char>;

/// Whether Unicode counts `c` among the letters and the numbers.
pub uninterp spec fn counts_as_alphanumeric(c: char) -> bool;

/// `str::to_lowercase` gives the lower-case form of the text.
pub assume_specification[ str::to_lowercase ](s: &str) -> (lower: String)
    ensures
        lower@ == lowercase(s@),
;

/// `char::is_alphanumeric` tells whether the character counts among the
/// letters and the numbers.
pub assume_specification[ char::is_alphanumeric ](c: char) -> (b: bool)
    ensures
        b == counts_as_alphanumeric(c),
;

/// The view of a text that may be missing.
pub open spec fn text_view(text: Option<String>) -> Option<Seq<char>> {
    match text {
        Some(text) => Some(text@),
        None => None,
    }
}

/// The views of the texts of `parts`.
pub open spec fn views(parts: Seq<Vec<char>>) -> Seq<Seq<char>> {
    parts.map_values(|part: Vec<char>| part@)
}

/// The characters of `s`, in order.
pub fn chars_of(s: &str) -> (chars: Vec<char>)
    ensures
        chars@ == s@,
{
    let mut chars: Vec<char> = Vec::new();
    for c in it: s.chars()
        invariant
            chars@ == it.seq().take(it.index()),
            it.seq() == s@,
    {
        chars.push(c);
    }
    chars
}

/// The string made of `chars`, in order.
pub fn string_of(chars: &Vec<char>) -> (s: String)
    ensures
        s@ == chars@,
{
    let mut s = String::new();
    let mut i: usize = 0;
    while i < chars.len()
        invariant
            i <= chars.len(),
            s@ == chars@.take(i as int),
        decreases chars.len() - i,
    {
        s.push(chars[i]);
        i += 1;
    }
    s
}

/// The characters of `text` from `from` up to `to`.
pub fn slice_of(text: &Vec<char>, from: usize, to: usize) -> (part: Vec<char>)
    requires
        from <= to <= text.len(),
    ensures
        part@ == text@.subrange(from as int, to as int),
{
    let mut part: Vec<char> = Vec::new();
    let mut i: usize = from;
    while i < to
        invariant
            from <= i <= to <= text.len(),
            part@ == text@.subrange(from as int, i as int),
        decreases to - i,
    {
        part.push(text[i]);
        i += 1;
    }
    part
}

/// Appends the characters of `more` to `text`.
pub fn append(text: &mut Vec<char>, more: &Vec<char>)
    ensures
        final(text)@ == old(text)@ + more@,
{
    let mut i: usize = 0;
    while i < more.len()
        invariant
            i <= more.len(),
            text@ == old(text)@ + more@.take(i as int),
        decreases more.len() - i,
    {
        text.push(more[i]);
        i += 1;
    }
}

/// The end of the run of `class` that starts at `from`.
pub fn scan(text: &Vec<char>, from: usize, class: CharClass) -> (end: usize)
    requires
        from <= text.len(),
    ensures
        from <= end <= text.len(),
        end == from + run_len(text@.skip(from as int), class),
{
    let mut end: usize = from;
    while end < text.len() && class.holds(text[end])
        invariant
            from <= end <= text.len(),
            forall|i: int| from <= i < end ==> class.has(#[trigger] text@[i]),
        decreases text.len() - end,
    {
        end += 1;
    }
    proof {
        let rest = text@.skip(from as int);
        assert forall|i: int| 0 <= i < end - from implies class.has(#[trigger] rest[i]) by {
            assert(rest[i] == text@[from + i]);
        }
        lemma_run_len_is(rest, class, end - from);
    }
    end
}

/// The start of the run of `class` that ends at `to`, within `text[from..to]`.
pub fn scan_back(text: &Vec<char>, from: usize, to: usize, class: CharClass) -> (start: usize)
    requires
        from <= to <= text.len(),
    ensures
        from <= start <= to,
        start == to - trailing_run_len(text@.subrange(from as int, to as int), class),
{
    let mut start: usize = to;
    while start > from && class.holds(text[start - 1])
        invariant
            from <= start <= to <= text.len(),
            forall|i: int| start <= i < to ==> class.has(#[trigger] text@[i]),
        decreases start,
    {
        start -= 1;
    }
    proof {
        let part = text@.subrange(from as int, to as int);
        assert forall|i: int| part.len() - (to - start) <= i < part.len() implies class.has(
            #[trigger] part[i],
        ) by {
            assert(part[i] == text@[from + i]);
        }
        lemma_trailing_run_len_is(part, class, to - start);
    }
    start
}

/// The part of `text` before the first `stop`.
pub fn head_before(text: &Vec<char>, stop: char) -> (head: Vec<char>)
    ensures
        head@ == before_first(text@, stop),
{
    assert(text@.skip(0) == text@);
    let end = scan(text, 0, CharClass::Except(stop));
    assert(text@.take(end as int) == text@.subrange(0, end as int));
    slice_of(text, 0, end)
}

/// The part of `text` after the first `stop`, where there is one.
pub fn tail_after(text: &Vec<char>, stop: char) -> (tail: Option<Vec<char>>)
    ensures
        match tail {
            Some(tail) => after_first(text@, stop) == Some(tail@),
            None => after_first(text@, stop).is_none(),
        },
{
    assert(text@.skip(0) == text@);
    let end = scan(text, 0, CharClass::Except(stop));
    if end < text.len() {
        assert(text@.skip(end + 1) == text@.subrange(end + 1, text.len() as int));
        Some(slice_of(text, end + 1, text.len()))
    } else {
        None
    }
}

/// `text` without `prefix` at its start, where it begins with `prefix`.
pub fn without_prefix(text: &Vec<char>, prefix: &Vec<char>) -> (rest: Option<Vec<char>>)
    ensures
        match rest {
            Some(rest) => starts_with(text@, prefix@) && rest@ == text@.skip(prefix@.len() as int),
            None => !starts_with(text@, prefix@),
        },
{
    if found_at(text, prefix, 0) {
        assert(text@.skip(prefix@.len() as int) == text@.subrange(
            prefix@.len() as int,
            text.len() as int,
        ));
        Some(slice_of(text, prefix.len(), text.len()))
    } else {
        None
    }
}

/// The bounds of `text[from..to]` without the white space at its ends.
pub fn trim_bounds(text: &Vec<char>, from: usize, to: usize) -> (bounds: (usize, usize))
    requires
        from <= to <= text.len(),
    ensures
        from <= bounds.0 <= bounds.1 <= to,
        text@.subrange(bounds.0 as int, bounds.1 as int) == trim(
            text@.subrange(from as int, to as int),
        ),
{
    let ghost part = text@.subrange(from as int, to as int);
    let mut start: usize = from;
    while start < to && white_space(text[start])
        invariant
            from <= start <= to <= text.len(),
            forall|i: int| from <= i < start ==> is_white_space(#[trigger] text@[i]),
        decreases to - start,
    {
        start += 1;
    }
    proof {
        assert forall|i: int| 0 <= i < start - from implies CharClass::WhiteSpace.has(
            #[trigger] part[i],
        ) by {
            assert(part[i] == text@[from + i]);
        }
        lemma_run_len_is(part, CharClass::WhiteSpace, start - from);
        assert(trim_start(part) == text@.subrange(start as int, to as int));
    }
    let end = scan_back(text, start, to, CharClass::WhiteSpace);
    proof {
        let rest = text@.subrange(start as int, to as int);
        assert(rest.take(end - start) == text@.subrange(start as int, end as int));
    }
    (start, end)
}

/// `text` without the white space at its ends.
pub fn trimmed(text: &Vec<char>) -> (out: Vec<char>)
    ensures
        out@ == trim(text@),
{
    let (start, end) = trim_bounds(text, 0, text.len());
    assert(text@.subrange(0, text.len() as int) == text@);
    slice_of(text, start, end)
}

/// The tokens of `text`.
pub fn tokens_of(text: &Vec<char>) -> (found: Vec<Vec<char>>)
    ensures
        views(found@) == tokens(text@),
{
    let mut found: Vec<Vec<char>> = Vec::new();
    let mut at: usize = 0;
    assert(text@.skip(0) == text@);
    assert(views(found@) + tokens(text@) == tokens(text@));
    loop
        invariant
            at <= text.len(),
            tokens(text@) == views(found@) + tokens(text@.skip(at as int)),
        ensures
            views(found@) == tokens(text@),
        decreases text.len() - at,
    {
        let start = scan(text, at, CharClass::WhiteSpace);
        let end = scan(text, start, CharClass::Word);
        proof {
            let here = text@.skip(at as int);
            let rest = trim_start(here);
            assert(rest == text@.skip(start as int));
            assert(rest.take(end - start) == text@.subrange(start as int, end as int));
            assert(rest.skip(end - start) == text@.skip(end as int));
        }
        if end == start {
            break ;
        }
        let token = slice_of(text, start, end);
        proof {
            assert(views(found@.push(token)) == views(found@).push(token@));
        }
        found.push(token);
        at = end;
    }
    found
}

/// The `parts` joined by `sep`.
pub fn joined(parts: &Vec<Vec<char>>, count: usize, sep: &Vec<char>) -> (out: Vec<char>)
    requires
        count <= parts.len(),
    ensures
        out@ == join(views(parts@).take(count as int), sep@),
{
    let mut out: Vec<char> = Vec::new();
    let mut i: usize = 0;
    while i < count
        invariant
            i <= count <= parts.len(),
            out@ == join(views(parts@).take(i as int), sep@),
        decreases count - i,
    {
        proof {
            let before = views(parts@).take(i as int);
            let after = views(parts@).take(i + 1);
            assert(after.drop_last() == before);
            assert(after.last() == parts@[i as int]@);
        }
        if i > 0 {
            append(&mut out, sep);
        }
        append(&mut out, &parts[i]);
        i += 1;
    }
    out
}

/// Whether `needle` stands in `hay` at `at`.
pub fn found_at(hay: &Vec<char>, needle: &Vec<char>, at: usize) -> (b: bool)
    ensures
        b == occurs_at(hay@, needle@, at as int),
{
    if needle.len() > hay.len() || at > hay.len() - needle.len() {
        return false;
    }
    let mut i: usize = 0;
    while i < needle.len()
        invariant
            i <= needle.len(),
            at + needle.len() <= hay.len(),
            forall|k: int| 0 <= k < i ==> hay@[at + k] == needle@[k],
        decreases needle.len() - i,
    {
        if hay[at + i] != needle[i] {
            proof {
                let part = hay@.subrange(at as int, at + needle.len());
                assert(part[i as int] == hay@[at + i]);
            }
            return false;
        }
        i += 1;
    }
    assert(hay@.subrange(at as int, at + needle.len()) =~= needle@);
    true
}

/// Whether `needle` stands somewhere in `hay`.
pub fn has_substring(hay: &Vec<char>, needle: &Vec<char>) -> (b: bool)
    ensures
        b == contains(hay@, needle@),
{
    if needle.len() > hay.len() {
        return false;
    }
    let last: usize = hay.len() - needle.len();
    let mut at: usize = 0;
    loop
        invariant
            at <= last,
            last == hay.len() - needle.len(),
            forall|k: int| 0 <= k < at ==> !occurs_at(hay@, needle@, k),
        decreases last - at,
    {
        if found_at(hay, needle, at) {
            return true;
        }
        if at == last {
            return false;
        }
        at += 1;
    }
}

} // verus!
