use lisp_interpreter::token::Token;

#[test]
fn lexing() {
    let input = "(label fac (lambda (n)   ; here we pretend that a number sytem exists
            (cond                             ;
                ((num-eq zero n) (zero))      ; we also pretend that a num-eq function exists, and a zero value
                ('t (num-mul                  ; also the num-mul function
                    n                         ;
                    (fac                      ;
                        (num-sub n one))))))) ; also a one value, and num-sub";

    let expected = vec![
        Token::OpenParen,
        Token::Ident("label".to_owned()),
        Token::Ident("fac".to_owned()),
        Token::OpenParen,
        Token::Ident("lambda".to_owned()),
        Token::OpenParen,
        Token::Ident("n".to_owned()),
        Token::CloseParen,
        Token::OpenParen,
        Token::Ident("cond".to_owned()),
        Token::OpenParen,
        Token::OpenParen,
        Token::Ident("num-eq".to_owned()),
        Token::Ident("zero".to_owned()),
        Token::Ident("n".to_owned()),
        Token::CloseParen,
        Token::OpenParen,
        Token::Ident("zero".to_owned()),
        Token::CloseParen,
        Token::CloseParen,
        Token::OpenParen,
        Token::Quote,
        Token::Ident("t".to_owned()),
        Token::OpenParen,
        Token::Ident("num-mul".to_owned()),
        Token::Ident("n".to_owned()),
        Token::OpenParen,
        Token::Ident("fac".to_owned()),
        Token::OpenParen,
        Token::Ident("num-sub".to_owned()),
        Token::Ident("n".to_owned()),
        Token::Ident("one".to_owned()),
        Token::CloseParen,
        Token::CloseParen,
        Token::CloseParen,
        Token::CloseParen,
        Token::CloseParen,
        Token::CloseParen,
        Token::CloseParen,
    ];

    let actual = Token::lex(input);

    assert_eq!(expected, actual);
}
