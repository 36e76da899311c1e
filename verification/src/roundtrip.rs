//! The text of an expression reads back as the expression.

use crate::expression::Sexp;
use crate::parse::{in_front, items_at, parse_at, parse_spec, Halt, ParseError};
use crate::render::{render_items, render_spec};
use crate::token::{is_delimiter, lemma_ident_end_at, lex_from, lex_spec, Lexeme};
use vstd::prelude::*;

verus! {

/// Whether `name` can stand as an identifier in text: it has a character,
/// and none of them is a delimiter.
pub open spec fn is_name(name: Seq<char>) -> bool {
    &&& name.len() > 0
    &&& forall|i: int| 0 <= i < name.len() ==> !is_delimiter(#[trigger] name[i])
}

/// Whether the name of every atom in `e` can stand as an identifier.
pub open spec fn printable(e: Sexp) -> bool
    decreases e,
{
    match e {
        Sexp::Atom(name) => is_name(name),
        Sexp::List(items) => forall|i: int|
            0 <= i < items.len() ==> printable(#[trigger] items[i]),
    }
}

/// The tokens that the text of `e` is made of.
pub open spec fn tokens_of(e: Sexp) -> Seq<Lexeme>
    decreases e, 0nat,
{
    match e {
        Sexp::Atom(name) => seq![Lexeme::Ident(name)],
        Sexp::List(items) => seq![Lexeme::OpenParen] + tokens_of_items(items, items.len())
            + seq![Lexeme::CloseParen],
    }
}

/// The tokens of the first `n` of `items`, one run after the other.
pub open spec fn tokens_of_items(items: Seq<Sexp>, n: nat) -> Seq<Lexeme>
    decreases items, n,
{
    if n == 0 || n > items.len() {
        Seq::empty()
    } else {
        tokens_of_items(items, (n - 1) as nat) + tokens_of(items[n - 1])
    }
}

/// Whether `part` stands in `whole` from place `at` on.
pub open spec fn has_at<A>(whole: Seq<A>, at: int, part: Seq<A>) -> bool {
    &&& 0 <= at
    &&& at + part.len() <= whole.len()
    &&& forall|k: int| 0 <= k < part.len() ==> whole[at + k] == #[trigger] part[k]
}

/// Where two runs stand one after the other, each of them stands at its
/// place.
proof fn lemma_has_at_split<A>(whole: Seq<A>, at: int, a: Seq<A>, b: Seq<A>)
    requires
        has_at(whole, at, a + b),
    ensures
        has_at(whole, at, a),
        has_at(whole, at + a.len(), b),
{
    let both = a + b;
    assert forall|k: int| 0 <= k < a.len() implies whole[at + k] == #[trigger] a[k] by {
        assert(both[k] == a[k]);
    }
    assert forall|k: int| 0 <= k < b.len() implies whole[at + a.len() + k] == #[trigger] b[k] by {
        assert(both[a.len() + k] == b[k]);
    }
}

/// The tokens of an expression start with one that is no `)`.
proof fn lemma_tokens_start(e: Sexp)
    ensures
        tokens_of(e).len() > 0,
        !(tokens_of(e)[0] is CloseParen),
{
}

/// The text of a printable expression, where it stands in a text before a
/// delimiter or at its end, is lexed into the tokens of the expression.
proof fn lemma_lex_render(s: Seq<char>, at: nat, e: Sexp)
    requires
        printable(e),
        has_at(s, at as int, render_spec(e)),
        at + render_spec(e).len() < s.len() ==> is_delimiter(s[(at + render_spec(e).len()) as int]),
    ensures
        lex_from(s, at) == tokens_of(e) + lex_from(s, at + render_spec(e).len()),
    decreases e, 0nat,
{
    let text = render_spec(e);
    let end = at + text.len();
    match e {
        Sexp::Atom(name) => {
            assert forall|k: int| at <= k < end implies !is_delimiter(#[trigger] s[k]) by {
                assert(s[at + (k - at)] == name[k - at]);
            }
            lemma_ident_end_at(s, at, end);
            assert(s.subrange(at as int, end as int) =~= name);
        },
        Sexp::List(items) => {
            let inner = render_items(items, items.len());
            let open = seq!['('];
            let close = seq![')'];
            lemma_has_at_split(s, at as int, open + inner, close);
            lemma_has_at_split(s, at as int, open, inner);
            assert(s[at as int] == open[0]);
            assert(s[(at + 1 + inner.len()) as int] == close[0]);
            lemma_lex_render_items(s, at + 1, items, items.len());
        },
    }
}

/// The same for the first `n` items of a list.
proof fn lemma_lex_render_items(s: Seq<char>, at: nat, items: Seq<Sexp>, n: nat)
    requires
        n <= items.len(),
        forall|i: int| 0 <= i < items.len() ==> printable(#[trigger] items[i]),
        has_at(s, at as int, render_items(items, n)),
        at + render_items(items, n).len() < s.len() ==> is_delimiter(
            s[(at + render_items(items, n).len()) as int],
        ),
    ensures
        lex_from(s, at) == tokens_of_items(items, n) + lex_from(
            s,
            at + render_items(items, n).len(),
        ),
    decreases items, n,
{
    if n == 0 {
    } else if n == 1 {
        lemma_lex_render(s, at, items[0]);
        assert(tokens_of_items(items, 0) =~= Seq::empty());
    } else {
        let before = render_items(items, (n - 1) as nat);
        let last = render_spec(items[n - 1]);
        let space = seq![' '];
        lemma_has_at_split(s, at as int, before + space, last);
        lemma_has_at_split(s, at as int, before, space);
        let gap = at + before.len();
        assert(s[gap as int] == space[0]);
        lemma_lex_render_items(s, at, items, (n - 1) as nat);
        lemma_lex_render(s, gap + 1, items[n - 1]);
    }
}

/// The tokens of the first `k` items stand where those of the first `n`
/// stand, for `k` at most `n`.
proof fn lemma_tokens_prefix(tokens: Seq<Lexeme>, base: int, items: Seq<Sexp>, k: nat, n: nat)
    requires
        k <= n <= items.len(),
        has_at(tokens, base, tokens_of_items(items, n)),
    ensures
        has_at(tokens, base, tokens_of_items(items, k)),
        tokens_of_items(items, k).len() <= tokens_of_items(items, n).len(),
    decreases n - k,
{
    if k < n {
        lemma_has_at_split(
            tokens,
            base,
            tokens_of_items(items, (n - 1) as nat),
            tokens_of(items[n - 1]),
        );
        lemma_tokens_prefix(tokens, base, items, k, (n - 1) as nat);
    }
}

/// The tokens of an expression, where they stand among tokens, are read as
/// the expression.
proof fn lemma_parse_tokens(tokens: Seq<Lexeme>, start: nat, e: Sexp)
    requires
        has_at(tokens, start as int, tokens_of(e)),
    ensures
        parse_at(tokens, start) == Ok::<(Sexp, nat), Halt>((e, start + tokens_of(e).len())),
    decreases e, 0nat,
{
    lemma_tokens_start(e);
    match e {
        Sexp::Atom(name) => {},
        Sexp::List(items) => {
            let inner = tokens_of_items(items, items.len());
            let open = seq![Lexeme::OpenParen];
            let close = seq![Lexeme::CloseParen];
            lemma_has_at_split(tokens, start as int, open + inner, close);
            lemma_has_at_split(tokens, start as int, open, inner);
            assert(tokens[start as int + 1 + inner.len() + 0] == close[0]);
            lemma_parse_items(tokens, start + 1, items, 0);
            assert(items.subrange(0, items.len() as int) =~= items);
        },
    }
}

/// The same for the items of a list from the `i`th on, up to the `)` that
/// closes the list.
proof fn lemma_parse_items(tokens: Seq<Lexeme>, base: nat, items: Seq<Sexp>, i: nat)
    requires
        i <= items.len(),
        has_at(tokens, base as int, tokens_of_items(items, items.len())),
        base + tokens_of_items(items, items.len()).len() < tokens.len(),
        tokens[(base + tokens_of_items(items, items.len()).len()) as int] is CloseParen,
    ensures
        items_at(tokens, base + tokens_of_items(items, i).len()) == Ok::<(Seq<Sexp>, nat), Halt>(
            (
                items.subrange(i as int, items.len() as int),
                base + tokens_of_items(items, items.len()).len() + 1,
            ),
        ),
    decreases items, items.len() - i,
{
    let n = items.len();
    if i == n {
        assert(items.subrange(i as int, n as int) =~= Seq::empty());
    } else {
        let here = base + tokens_of_items(items, i).len();
        let item = items[i as int];
        lemma_tokens_prefix(tokens, base as int, items, i + 1, n);
        lemma_has_at_split(tokens, base as int, tokens_of_items(items, i), tokens_of(item));
        lemma_tokens_start(item);
        lemma_parse_tokens(tokens, here, item);
        lemma_parse_items(tokens, base, items, i + 1);
        assert(seq![item] + items.subrange(i as int + 1, n as int) =~= items.subrange(
            i as int,
            n as int,
        ));
    }
}

/// The tokens of a printable expression's text are the tokens of the
/// expression.
pub proof fn lemma_lex_of_text(e: Sexp)
    requires
        printable(e),
    ensures
        lex_spec(render_spec(e)) == tokens_of(e),
{
    let text = render_spec(e);
    lemma_lex_render(text, 0, e);
}

/// The tokens of an expression are read as the expression.
pub proof fn lemma_parse_of_tokens(e: Sexp)
    ensures
        parse_spec(tokens_of(e)) == Some(Ok::<Sexp, ParseError>(e)),
{
    lemma_parse_tokens(tokens_of(e), 0, e);
}

/// The text of an expression in which every atom's name can stand as an
/// identifier, lexed and parsed, gives the expression back.
pub proof fn theorem_round_trip(e: Sexp)
    requires
        printable(e),
    ensures
        parse_spec(lex_spec(render_spec(e))) == Some(Ok::<Sexp, ParseError>(e)),
{
    lemma_lex_of_text(e);
    lemma_parse_of_tokens(e);
}

} // verus!
