//! Sort keys for the names of people and for titles.

use vstd::prelude::*;
use crate::text::{
    append, chars_of, join, joined, lemma_run_len, lemma_trailing_run_len_is, run_len, scan,
    slice_of, string_of, tokens, tokens_of, trim, trim_bounds, trim_start, views, CharClass,
};

verus! {

/// What stands between the leading part of a sort key and the rest: `", "`.
pub open spec fn separator() -> Seq<char> {
    seq![',', ' ']
}

/// The sort key of a person's name: nothing for a name without tokens, the
/// token itself for a name of one token, and otherwise the last token, the
/// separator, and the other tokens joined by single spaces.
pub open spec fn name_sort_key(name: Seq<char>) -> Seq<char> {
    let parts = tokens(name);
    if parts.len() == 0 {
        Seq::empty()
    } else if parts.len() == 1 {
        parts[0]
    } else {
        parts.last() + separator() + join(parts.drop_last(), seq![' '])
    }
}

/// Whether `token` is one of the articles `A`, `An` and `The`, in this very
/// spelling.
pub open spec fn is_article(token: Seq<char>) -> bool {
    ||| token == seq!['A']
    ||| token == seq!['A', 'n']
    ||| token == seq!['T', 'h', 'e']
}

/// What follows the first token of `title`.
pub open spec fn after_first_token(title: Seq<char>) -> Seq<char> {
    let rest = trim_start(title);
    rest.skip(run_len(rest, CharClass::Word) as int)
}

/// The sort key of a title: where its first token is an article, what follows
/// that token, trimmed, then the separator and the article; otherwise the
/// title as it stands.
pub open spec fn title_sort_key(title: Seq<char>) -> Seq<char> {
    let parts = tokens(title);
    if parts.len() > 0 && is_article(parts[0]) {
        trim(after_first_token(title)) + separator() + parts[0]
    } else {
        title
    }
}

/// The tokens of a text are none exactly when the text is white space
/// throughout.
pub proof fn lemma_no_tokens(s: Seq<char>)
    ensures
        tokens(s).len() == 0 <==> run_len(s, CharClass::WhiteSpace) == s.len(),
{
    let lead = run_len(s, CharClass::WhiteSpace);
    let rest = trim_start(s);
    lemma_run_len(s, CharClass::WhiteSpace);
    lemma_run_len(rest, CharClass::Word);
    if lead < s.len() {
        assert(rest[0] == s[lead as int]);
        assert(run_len(rest, CharClass::Word) > 0);
    } else {
        assert(rest.len() == 0);
    }
}

/// A name of at most one token has its trimmed text as sort key. So a name of
/// at most one token that neither begins nor ends with white space is its own
/// sort key, and the empty name has the empty key.
pub proof fn lemma_short_name_sort_key(name: Seq<char>)
    requires
        tokens(name).len() <= 1,
    ensures
        name_sort_key(name) == trim(name),
        trim(name) == name ==> name_sort_key(name) == name,
        name.len() == 0 ==> name_sort_key(name).len() == 0,
{
    let rest = trim_start(name);
    let n = run_len(rest, CharClass::Word);
    lemma_run_len(name, CharClass::WhiteSpace);
    lemma_run_len(rest, CharClass::Word);
    lemma_no_tokens(name);
    if n == 0 {
        assert(rest.len() == 0);
        assert(trim(name) =~= Seq::<char>::empty());
    } else {
        let tail = rest.skip(n as int);
        assert(tokens(name) == seq![rest.take(n as int)] + tokens(tail));
        assert(tokens(tail).len() == 0);
        lemma_no_tokens(tail);
        lemma_run_len(tail, CharClass::WhiteSpace);
        assert forall|i: int| rest.len() - tail.len() <= i < rest.len() implies CharClass::WhiteSpace.has(
            #[trigger] rest[i],
        ) by {
            assert(rest[i] == tail[i - n]);
        }
        lemma_trailing_run_len_is(rest, CharClass::WhiteSpace, tail.len() as int);
        assert(trim(name) == rest.take(n as int));
        assert(tokens(name)[0] == rest.take(n as int));
    }
}

/// A title whose first token is no article, and a title without tokens, is
/// its own sort key.
pub proof fn lemma_title_without_article(title: Seq<char>)
    requires
        tokens(title).len() == 0 || !is_article(tokens(title)[0]),
    ensures
        title_sort_key(title) == title,
{
}

/// The sort key of a title is empty only where the title is.
pub proof fn lemma_title_sort_key_is_not_empty(title: Seq<char>)
    ensures
        title_sort_key(title).len() == 0 <==> title.len() == 0,
{
    if title.len() == 0 {
        lemma_run_len(title, CharClass::WhiteSpace);
        lemma_run_len(trim_start(title), CharClass::Word);
    }
}

/// The sort key of the name `author_name`. A name of at most one token has
/// its trimmed text as key; a longer name has its last token, the separator,
/// and its other tokens joined by single spaces.
pub fn get_name_sort(author_name: &str) -> (key: String)
    ensures
        key@ == name_sort_key(author_name@),
        tokens(author_name@).len() <= 1 ==> key@ == trim(author_name@),
        tokens(author_name@).len() >= 2 ==> key@ == tokens(author_name@).last() + separator()
            + join(tokens(author_name@).drop_last(), seq![' ']),
{
    proof {
        if tokens(author_name@).len() <= 1 {
            lemma_short_name_sort_key(author_name@);
        }
    }
    let chars = chars_of(author_name);
    let parts = tokens_of(&chars);
    let count: usize = parts.len();
    if count == 0 {
        String::new()
    } else if count == 1 {
        assert(views(parts@)[0] == parts@[0]@);
        string_of(&parts[0])
    } else {
        let mut key: Vec<char> = slice_of(&parts[count - 1], 0, parts[count - 1].len());
        let space: Vec<char> = vec![' '];
        let comma: Vec<char> = vec![',', ' '];
        assert(space@ =~= seq![' ']);
        assert(comma@ =~= separator());
        let rest = joined(&parts, count - 1, &space);
        proof {
            let last = parts@[count - 1];
            assert(last@.subrange(0, last@.len() as int) == last@);
            assert(views(parts@).last() == last@);
            assert(views(parts@).take(count - 1) == views(parts@).drop_last());
        }
        append(&mut key, &comma);
        append(&mut key, &rest);
        string_of(&key)
    }
}

/// The sort key of the title `title`. A title whose first token is an article
/// has what follows that token, trimmed, then the separator and the article;
/// any other title is its own key.
pub fn get_title_sort(title: &str) -> (key: String)
    ensures
        key@ == title_sort_key(title@),
        tokens(title@).len() > 0 && is_article(tokens(title@)[0]) ==> key@ == trim(
            after_first_token(title@),
        ) + separator() + tokens(title@)[0],
        tokens(title@).len() == 0 || !is_article(tokens(title@)[0]) ==> key@ == title@,
{
    let chars = chars_of(title);
    assert(chars@.skip(0) == chars@);
    let start = scan(&chars, 0, CharClass::WhiteSpace);
    let end = scan(&chars, start, CharClass::Word);
    let ghost rest = trim_start(chars@);
    let ghost first = chars@.subrange(start as int, end as int);
    proof {
        assert(rest == chars@.skip(start as int));
        assert(rest.take(end - start) == first);
        assert(rest.skip(end - start) == chars@.skip(end as int));
        assert(chars@.skip(end as int) == chars@.subrange(end as int, chars@.len() as int));
        if end > start {
            assert(tokens(chars@)[0] == first);
        }
    }
    let short = end - start == 1 && chars[start] == 'A';
    let medium = end - start == 2 && chars[start] == 'A' && chars[start + 1] == 'n';
    let long = end - start == 3 && chars[start] == 'T' && chars[start + 1] == 'h' && chars[start
        + 2] == 'e';
    proof {
        if end > start {
            assert(short <==> first =~= seq!['A']);
            assert(medium <==> first =~= seq!['A', 'n']);
            assert(long <==> first =~= seq!['T', 'h', 'e']);
        }
    }
    if short || medium || long {
        let (from, to) = trim_bounds(&chars, end, chars.len());
        let mut key = slice_of(&chars, from, to);
        let article = slice_of(&chars, start, end);
        let comma: Vec<char> = vec![',', ' '];
        assert(comma@ =~= separator());
        append(&mut key, &comma);
        append(&mut key, &article);
        string_of(&key)
    } else {
        title.to_owned()
    }
}

} // verus!
