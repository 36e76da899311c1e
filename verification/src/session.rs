//! An interactive session: lines of text come in one by one, and an
//! expression is handed out as soon as its last parenthesis is closed.

use crate::eval::eval;
use crate::expression::{Expression, Sexp};
use crate::message::{message_spec, parse_message_spec};
use crate::parse::{parsed, ParseError};
use crate::render::render_spec;
use crate::semantics::{result_of, terminates};
use crate::strings::same_text;
use crate::text::{digit, digit_char};
use crate::token::{lex_spec, lexemes_of, open_count, Lexeme, Token};
use vstd::prelude::*;
use vstd::string::StringExecFns;

verus! {

/// What a session holds between two lines.
pub struct Session {
    tokens: Vec<Token>,
    open: usize,
}

/// The mathematical value of a [`Session`].
pub struct SessionView {
    /// The tokens of the lines read since the last expression was handed
    /// out.
    pub tokens: Seq<Lexeme>,
    /// The number of parentheses that these tokens leave open.
    pub open: nat,
}

/// What is to be done after a line.
#[derive(Debug, PartialEq)]
pub enum Step {
    /// The line asks for the end of the session.
    Exit,
    /// Nothing yet: the input is empty so far, or a parenthesis is open.
    Continue,
    /// A `)` closes a parenthesis that none has opened. The tokens read so
    /// far are dropped.
    Unbalanced,
    /// The input is complete: these are its tokens.
    Ready(Vec<Token>),
}

/// The mathematical value of a [`Step`].
pub enum StepView {
    Exit,
    Continue,
    Unbalanced,
    Ready(Seq<Lexeme>),
}

impl View for Step {
    type V = StepView;

    open spec fn view(&self) -> StepView {
        match self {
            Step::Exit => StepView::Exit,
            Step::Continue => StepView::Continue,
            Step::Unbalanced => StepView::Unbalanced,
            Step::Ready(tokens) => StepView::Ready(lexemes_of(tokens@)),
        }
    }
}

/// The session that has read nothing.
pub open spec fn fresh() -> SessionView {
    SessionView { tokens: Seq::empty(), open: 0 }
}

/// The session after the line `line`, and what is to be done. The line
/// `; exit` ends the session. Any other line is lexed as one line of text
/// and its tokens are added to those read before.
pub open spec fn feed_spec(before: SessionView, line: Seq<char>) -> (SessionView, StepView) {
    if line == "; exit"@ {
        (before, StepView::Exit)
    } else {
        let tokens = before.tokens + lex_spec(line + "\n"@);
        match open_count(tokens, tokens.len()) {
            None => (fresh(), StepView::Unbalanced),
            Some(open) => if open > 0 {
                (SessionView { tokens, open }, StepView::Continue)
            } else if tokens.len() == 0 {
                (fresh(), StepView::Continue)
            } else {
                (fresh(), StepView::Ready(tokens))
            },
        }
    }
}

/// The prompt for a session with `open` parentheses open: `>>> : ` with
/// none, the number in three digits up to 999, `99+ : ` beyond.
pub open spec fn prompt_spec(open: nat) -> Seq<char> {
    if open == 0 {
        ">>> : "@
    } else if open > 999 {
        "99+ : "@
    } else {
        seq![digit(open / 100), digit(open / 10 % 10), digit(open % 10)] + " : "@
    }
}

/// The line that answers an input that was read as `read`: the text of its
/// value behind `ok`, or its failure in words behind `err`.
pub open spec fn answer_spec(read: Result<Sexp, ParseError>, ok: Seq<char>, err: Seq<char>) -> Seq<
    char,
> {
    match read {
        Ok(e) => match result_of(e, Seq::empty()) {
            Ok(value) => ok + render_spec(value),
            Err(failure) => err + message_spec(failure),
        },
        Err(error) => err + parse_message_spec(error),
    }
}

/// Evaluates what was read, if an expression was, and gives the line that
/// answers the input.
///
/// The evaluation must come to an end.
pub fn answer(read: Result<Expression, ParseError>, ok: &str, err: &str) -> (line: String)
    requires
        read matches Ok(e) ==> terminates(e@, Seq::empty()),
    ensures
        line@ == answer_spec(parsed(read), ok@, err@),
{
    match read {
        Ok(e) => match eval(e) {
            Ok(value) => {
                let mut line = ok.to_owned();
                value.render_into(&mut line);
                line
            },
            Err(failure) => {
                let mut line = err.to_owned();
                line.append(failure.message().as_str());
                line
            },
        },
        Err(error) => {
            let mut line = err.to_owned();
            line.append(error.message().as_str());
            line
        },
    }
}

impl View for Session {
    type V = SessionView;

    closed spec fn view(&self) -> SessionView {
        SessionView { tokens: lexemes_of(self.tokens@), open: self.open as nat }
    }
}

impl Session {
    /// The session that has read nothing.
    pub fn new() -> (session: Session)
        ensures
            session@ == fresh(),
    {
        let session = Session { tokens: Vec::new(), open: 0 };
        assert(lexemes_of(session.tokens@) =~= Seq::empty());
        session
    }

    /// The number of parentheses that are open.
    pub fn open(&self) -> (open: usize)
        ensures
            open == self@.open,
    {
        self.open
    }

    /// The prompt to show before the next line.
    pub fn prompt(&self) -> (text: String)
        ensures
            text@ == prompt_spec(self@.open),
    {
        let mut text = String::new();
        if self.open == 0 {
            text.append(">>> : ");
        } else if self.open > 999 {
            text.append("99+ : ");
        } else {
            text.push(digit_char(self.open / 100));
            text.push(digit_char(self.open / 10 % 10));
            text.push(digit_char(self.open % 10));
            text.append(" : ");
        }
        text
    }

    /// Takes the line `line`, without its line feed, and says what is to be
    /// done.
    pub fn feed(&mut self, line: &str) -> (step: Step)
        ensures
            (final(self)@, step@) == feed_spec(old(self)@, line@),
    {
        if same_text(line, "; exit") {
            return Step::Exit;
        }
        let mut input = line.to_owned();
        input.append("\n");
        let mut read = Token::lex(input.as_str());
        let ghost all = old(self)@.tokens + lex_spec(line@ + "\n"@);
        assert(lexemes_of(self.tokens@ + read@) =~= all);
        self.tokens.append(&mut read);
        match Token::count_parens(self.tokens.as_slice()) {
            None => {
                self.tokens = Vec::new();
                self.open = 0;
                assert(lexemes_of(self.tokens@) =~= Seq::empty());
                Step::Unbalanced
            },
            Some(open) => {
                self.open = open;
                if open > 0 {
                    Step::Continue
                } else if self.tokens.len() == 0 {
                    assert(lexemes_of(self.tokens@) =~= Seq::empty());
                    Step::Continue
                } else {
                    let mut ready: Vec<Token> = Vec::new();
                    std::mem::swap(&mut ready, &mut self.tokens);
                    assert(lexemes_of(self.tokens@) =~= Seq::empty());
                    Step::Ready(ready)
                }
            },
        }
    }
}

} // verus!
