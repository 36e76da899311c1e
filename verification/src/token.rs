//! Tokens and the lexer that produces them from source text.

use vstd::prelude::*;

verus! {

/// One lexical unit of source text.
#[derive(Debug, PartialEq)]
pub enum Token {
    /// A run of characters that are neither blank nor punctuation.
    Ident(String),
    /// `(`
    OpenParen,
    /// `)`
    CloseParen,
    /// `'`
    Quote,
}

/// The mathematical value of a [`Token`].
pub enum Lexeme {
    Ident(Seq<char>),
    OpenParen,
    CloseParen,
    Quote,
}

impl View for Token {
    type V = Lexeme;

    open spec fn view(&self) -> Lexeme {
        match self {
            Token::Ident(name) => Lexeme::Ident(name@),
            Token::OpenParen => Lexeme::OpenParen,
            Token::CloseParen => Lexeme::CloseParen,
            Token::Quote => Lexeme::Quote,
        }
    }
}

impl Clone for Token {
    fn clone(&self) -> (copy: Token)
        ensures
            copy@ == self@,
    {
        match self {
            Token::Ident(name) => Token::Ident(name.clone()),
            Token::OpenParen => Token::OpenParen,
            Token::CloseParen => Token::CloseParen,
            Token::Quote => Token::Quote,
        }
    }
}

/// The values of a run of tokens, one by one.
pub open spec fn lexemes_of(tokens: Seq<Token>) -> Seq<Lexeme> {
    Seq::new(tokens.len(), |i: int| tokens[i]@)
}

/// Whether `c` is white space.
pub open spec fn is_blank(c: char) -> bool {
    c == ' ' || c == '\t' || c == '\r' || c == '\n'
}

/// Whether `c` ends a run of identifier characters: white space, a
/// parenthesis, the quote character, or the start of a comment.
pub open spec fn is_delimiter(c: char) -> bool {
    c == ';' || c == '(' || c == ')' || c == '\'' || is_blank(c)
}

/// Where the text goes on behind a comment that holds place `i`: behind the
/// next line feed, or at the end of the text.
pub open spec fn comment_end(s: Seq<char>, i: nat) -> nat
    decreases s.len() - i,
{
    if i >= s.len() {
        s.len()
    } else if s[i as int] == '\n' {
        i + 1
    } else {
        comment_end(s, i + 1)
    }
}

/// The end of the longest run of identifier characters that starts at place
/// `i`: the place of the next delimiter, or the end of the text.
pub open spec fn ident_end(s: Seq<char>, i: nat) -> nat
    decreases s.len() - i,
{
    if i >= s.len() {
        s.len()
    } else if is_delimiter(s[i as int]) {
        i
    } else {
        ident_end(s, i + 1)
    }
}

/// A comment that holds place `i` ends at or behind `i`, within the text.
pub proof fn lemma_comment_end_bounds(s: Seq<char>, i: nat)
    requires
        i <= s.len(),
    ensures
        i <= comment_end(s, i) <= s.len(),
    decreases s.len() - i,
{
    if i < s.len() && s[i as int] != '\n' {
        lemma_comment_end_bounds(s, i + 1);
    }
}

/// A run of identifier characters from place `i` ends at or behind `i`,
/// within the text, and behind `i` where `i` holds an identifier character.
pub proof fn lemma_ident_end_bounds(s: Seq<char>, i: nat)
    requires
        i <= s.len(),
    ensures
        i <= ident_end(s, i) <= s.len(),
        i < s.len() && !is_delimiter(s[i as int]) ==> i < ident_end(s, i),
    decreases s.len() - i,
{
    if i < s.len() && !is_delimiter(s[i as int]) {
        lemma_ident_end_bounds(s, i + 1);
    }
}

/// The tokens of the text `s` from place `i` on. A `;` starts a comment
/// that runs to the end of its line; white space separates; each of `(`,
/// `)` and `'` is a token; every longest run of other characters is an
/// identifier.
pub open spec fn lex_from(s: Seq<char>, i: nat) -> Seq<Lexeme>
    decreases s.len() - i,
{
    if i >= s.len() {
        Seq::empty()
    } else {
        let c = s[i as int];
        if c == ';' {
            proof {
                lemma_comment_end_bounds(s, i + 1);
            }
            lex_from(s, comment_end(s, i + 1))
        } else if c == '(' {
            seq![Lexeme::OpenParen] + lex_from(s, i + 1)
        } else if c == ')' {
            seq![Lexeme::CloseParen] + lex_from(s, i + 1)
        } else if c == '\'' {
            seq![Lexeme::Quote] + lex_from(s, i + 1)
        } else if is_blank(c) {
            lex_from(s, i + 1)
        } else {
            proof {
                lemma_ident_end_bounds(s, i);
            }
            let end = ident_end(s, i);
            seq![Lexeme::Ident(s.subrange(i as int, end as int))] + lex_from(s, end)
        }
    }
}

/// The tokens of the text `s`.
pub open spec fn lex_spec(s: Seq<char>) -> Seq<Lexeme> {
    lex_from(s, 0)
}

/// The number of parentheses that the first `n` of `tokens` leave open;
/// `None` where one of them closes a parenthesis that none has opened.
pub open spec fn open_count(tokens: Seq<Lexeme>, n: nat) -> Option<nat>
    decreases n,
{
    if n == 0 {
        Some(0)
    } else {
        let k = (n - 1) as nat;
        match open_count(tokens, k) {
            None => None,
            Some(depth) => match tokens[k as int] {
                Lexeme::OpenParen => Some(depth + 1),
                Lexeme::CloseParen => if depth == 0 {
                    None
                } else {
                    Some((depth - 1) as nat)
                },
                _ => Some(depth),
            },
        }
    }
}

/// An identifier that starts at `start` and has no delimiter before `i`
/// ends at `i` where `i` holds a delimiter or is the end of the text.
pub proof fn lemma_ident_end_at(s: Seq<char>, start: nat, i: nat)
    requires
        start <= i <= s.len(),
        forall|k: int| start <= k < i ==> !is_delimiter(#[trigger] s[k]),
        i < s.len() ==> is_delimiter(s[i as int]),
    ensures
        ident_end(s, start) == i,
    decreases i - start,
{
    if start < i {
        lemma_ident_end_at(s, start + 1, i);
    }
}

impl Token {
    /// The tokens of the text `s`.
    pub fn lex(s: &str) -> (tokens: Vec<Token>)
        ensures
            lexemes_of(tokens@) == lex_spec(s@),
    {
        let mut tokens: Vec<Token> = Vec::new();
        let mut in_comment = false;
        let mut in_ident = false;
        let mut ident = String::new();
        let ghost text = s@;
        let ghost mut start: nat = 0;

        for c in it: s.chars()
            invariant
                it.seq() == text,
                start <= it.index(),
                !in_ident ==> start == it.index() && ident@.len() == 0,
                in_ident ==> start < it.index(),
                in_comment ==> !in_ident,
                ident@ == text.subrange(start as int, it.index()),
                forall|k: int| start <= k < it.index() ==> !is_delimiter(#[trigger] text[k]),
                !in_comment ==> lex_spec(text) == lexemes_of(tokens@) + lex_from(text, start),
                in_comment ==> lex_spec(text) == lexemes_of(tokens@) + lex_from(
                    text,
                    comment_end(text, it.index() as nat),
                ),
        {
            let ghost i = it.index() as nat;
            if in_comment {
                if c == '\n' {
                    in_comment = false;
                }
                proof {
                    start = i + 1;
                }
            } else if c == ';' || c == '(' || c == ')' || c == '\'' || c == ' ' || c == '\t'
                || c == '\r' || c == '\n' {
                if in_ident {
                    proof {
                        lemma_ident_end_at(text, start, i);
                    }
                    tokens.push(Token::Ident(ident));
                    ident = String::new();
                    in_ident = false;
                }
                assert(lex_spec(text) == lexemes_of(tokens@) + lex_from(text, i));
                if c == ';' {
                    in_comment = true;
                } else if c == '(' {
                    tokens.push(Token::OpenParen);
                } else if c == ')' {
                    tokens.push(Token::CloseParen);
                } else if c == '\'' {
                    tokens.push(Token::Quote);
                }
                proof {
                    start = i + 1;
                }
            } else {
                in_ident = true;
                ident.push(c);
            }
        }

        if in_ident {
            proof {
                lemma_ident_end_at(text, start, text.len());
                let ghost before = lexemes_of(tokens@);
                assert(before + (seq![Lexeme::Ident(ident@)] + lex_from(text, text.len()))
                    =~= before.push(Lexeme::Ident(ident@)));
            }
            tokens.push(Token::Ident(ident));
        }
        tokens
    }

    /// The number of parentheses that `tokens` leave open; `None` where one
    /// of them closes a parenthesis that none has opened.
    pub fn count_parens(tokens: &[Token]) -> (open: Option<usize>)
        ensures
            match open {
                Some(depth) => open_count(lexemes_of(tokens@), tokens@.len()) == Some(depth as nat),
                None => open_count(lexemes_of(tokens@), tokens@.len()) is None,
            },
    {
        let mut depth: usize = 0;
        let mut i: usize = 0;
        while i < tokens.len()
            invariant
                i <= tokens@.len(),
                depth <= i,
                open_count(lexemes_of(tokens@), i as nat) == Some(depth as nat),
            decreases tokens@.len() - i,
        {
            match &tokens[i] {
                Token::OpenParen => {
                    depth += 1;
                },
                Token::CloseParen => {
                    if depth == 0 {
                        proof {
                            lemma_open_count_stays_none(
                                lexemes_of(tokens@),
                                (i + 1) as nat,
                                tokens@.len(),
                            );
                        }
                        return None;
                    }
                    depth -= 1;
                },
                _ => {},
            }
            i += 1;
        }
        Some(depth)
    }
}

/// Once a parenthesis was closed that none had opened, no later token mends
/// it.
pub proof fn lemma_open_count_stays_none(tokens: Seq<Lexeme>, m: nat, n: nat)
    requires
        m <= n,
        open_count(tokens, m) is None,
    ensures
        open_count(tokens, n) is None,
    decreases n,
{
    if m < n {
        lemma_open_count_stays_none(tokens, m, (n - 1) as nat);
    }
}

} // verus!
