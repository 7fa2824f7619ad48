use misri::lexer::Lexer;
use misri::lexer::SyntaxError;
use misri::lexer::Token;

#[test]
fn lexer_test_int() {
    let mut lexer = Lexer::from(String::from("114 514 1919 810")).unwrap();
    assert_eq!(lexer.peek(), Token::TokInt(114));
    assert_eq!(lexer.peek(), Token::TokInt(114));

    assert_eq!(lexer.consume().unwrap(), Token::TokInt(114));
    assert_eq!(lexer.consume().unwrap(), Token::TokInt(514));
    assert_eq!(lexer.consume().unwrap(), Token::TokInt(1919));
    assert_eq!(lexer.consume().unwrap(), Token::TokInt(810));

    assert_eq!(lexer.peek(), Token::TokEOF);
    assert_eq!(lexer.peek(), Token::TokEOF);
    assert_eq!(lexer.consume().unwrap(), Token::TokEOF);
    assert_eq!(lexer.consume().unwrap(), Token::TokEOF);
}

#[test]
fn test_iden() {
    let mut lexer = Lexer::from(String::from("x y z a_1 __b23")).unwrap();
    assert_eq!(lexer.peek(), Token::TokIden(String::from("x")));
    assert_eq!(lexer.peek(), Token::TokIden(String::from("x")));

    assert_eq!(lexer.consume().unwrap(), Token::TokIden(String::from("x")));
    assert_eq!(lexer.consume().unwrap(), Token::TokIden(String::from("y")));
    assert_eq!(lexer.consume().unwrap(), Token::TokIden(String::from("z")));
    assert_eq!(
        lexer.consume().unwrap(),
        Token::TokIden(String::from("a_1"))
    );
    assert_eq!(
        lexer.consume().unwrap(),
        Token::TokIden(String::from("__b23"))
    );

    assert_eq!(lexer.peek(), Token::TokEOF);
    assert_eq!(lexer.peek(), Token::TokEOF);
    assert_eq!(lexer.consume().unwrap(), Token::TokEOF);
    assert_eq!(lexer.consume().unwrap(), Token::TokEOF);
}

fn tokens(text: &str) -> Vec<Token> {
    let mut lexer = Lexer::from(String::from(text)).unwrap();
    let mut out = Vec::new();
    loop {
        let token = lexer.consume().unwrap();
        if token == Token::TokEOF {
            return out;
        }
        out.push(token);
    }
}

#[test]
fn keywords_and_names() {
    assert_eq!(
        tokens("FUNCTION LABEL IF GOTO RETURN DEC ARG CALL PARAM READ WRITE"),
        vec![
            Token::TokFunc,
            Token::TokLabel,
            Token::TokIf,
            Token::TokGoto,
            Token::TokReturn,
            Token::TokDec,
            Token::TokArg,
            Token::TokCall,
            Token::TokParam,
            Token::TokRead,
            Token::TokWrite,
        ]
    );
    assert_eq!(
        tokens("function IFx _IF READ1"),
        vec![
            Token::TokIden(String::from("function")),
            Token::TokIden(String::from("IFx")),
            Token::TokIden(String::from("_IF")),
            Token::TokIden(String::from("READ1")),
        ]
    );
}

#[test]
fn signs() {
    assert_eq!(
        tokens("# + - * / & == != < <= > >= : :="),
        vec![
            Token::TokSharp,
            Token::TokAdd,
            Token::TokSub,
            Token::TokStar,
            Token::TokDiv,
            Token::TokAmp,
            Token::TokEQ,
            Token::TokNE,
            Token::TokLT,
            Token::TokLE,
            Token::TokGT,
            Token::TokGE,
            Token::TokColon,
            Token::TokAssign,
        ]
    );
    assert_eq!(
        tokens("x:=#1+y<=z"),
        vec![
            Token::TokIden(String::from("x")),
            Token::TokAssign,
            Token::TokSharp,
            Token::TokInt(1),
            Token::TokAdd,
            Token::TokIden(String::from("y")),
            Token::TokLE,
            Token::TokIden(String::from("z")),
        ]
    );
}

#[test]
fn blanks_separate_tokens() {
    assert_eq!(tokens(""), vec![]);
    assert_eq!(tokens(" \t\r\n "), vec![]);
    assert_eq!(
        tokens("\n12\tab\r\n"),
        vec![Token::TokInt(12), Token::TokIden(String::from("ab"))]
    );
    assert_eq!(
        tokens("12ab"),
        vec![Token::TokInt(12), Token::TokIden(String::from("ab"))]
    );
}

#[test]
fn numbers_up_to_the_largest() {
    assert_eq!(
        tokens("0 007 9223372036854775807"),
        vec![
            Token::TokInt(0),
            Token::TokInt(7),
            Token::TokInt(9223372036854775807)
        ]
    );
    assert!(matches!(
        Lexer::from(String::from("9223372036854775808")),
        Err(SyntaxError::BadNumber)
    ));
    let mut lexer = Lexer::from(String::from("x 99999999999999999999 y")).unwrap();
    assert_eq!(lexer.consume(), Err(SyntaxError::BadNumber));
    assert_eq!(lexer.peek(), Token::TokIden(String::from("x")));
    assert_eq!(lexer.consume(), Ok(Token::TokIden(String::from("x"))));
    assert_eq!(lexer.consume(), Ok(Token::TokIden(String::from("y"))));
}

#[test]
fn characters_that_start_no_token() {
    assert!(matches!(
        Lexer::from(String::from("?")),
        Err(SyntaxError::BadChar)
    ));
    assert!(matches!(
        Lexer::from(String::from("= x")),
        Err(SyntaxError::BadChar)
    ));
    assert!(matches!(
        Lexer::from(String::from("!")),
        Err(SyntaxError::BadChar)
    ));
    let mut lexer = Lexer::from(String::from("a $ b")).unwrap();
    assert_eq!(lexer.consume(), Err(SyntaxError::BadChar));
    assert_eq!(lexer.consume(), Err(SyntaxError::BadChar));
    assert_eq!(lexer.peek(), Token::TokIden(String::from("a")));
    let mut lexer = Lexer::from(String::from("a =b")).unwrap();
    assert_eq!(lexer.consume(), Err(SyntaxError::BadChar));
    assert_eq!(lexer.consume(), Ok(Token::TokIden(String::from("a"))));
    assert_eq!(lexer.consume(), Ok(Token::TokIden(String::from("b"))));
}

#[test]
fn names_stop_at_letters_of_other_alphabets() {
    let mut lexer = Lexer::from(String::from("ab\u{e9}")).unwrap();
    assert_eq!(lexer.peek(), Token::TokIden(String::from("ab")));
    assert_eq!(lexer.consume(), Err(SyntaxError::BadChar));
}
