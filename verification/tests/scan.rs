use lexer::scanner::Scanner;
use lexer::scanner::tokenize;
use lexer::token::Token;
use lexer::token::Token::{
    ASSIGN, ASTERISK, BANG, COMMA, ELSE, EOF, EQ, FALSE, FN, GEQ, GT, IDENT, IF, ILLEGAL,
    INTEGER, LBRACE, LEQ, LET, LPAREN, LT, MINUS, NEQ, PLUS, RBRACE, RETURN, RPAREN,
    SEMICOLON, SLASH, TRUE,
};

fn scan_all(src: &str) -> Vec<(Token, String)> {
    tokenize(src.as_bytes().to_vec())
        .into_iter()
        .map(|(t, lit)| (t, String::from_utf8(lit).unwrap()))
        .collect()
}

#[test]
fn test_scan() {
    let src = "let five = 5;
let ten = 10;

let add = fn(x, y) {
  x + y;
};

let result = add(five, ten);

!-/*5;
5 < 10> 5;

if (5 < 10) {
  return true;
} else {
  return false;
}

10 == 10;
10 != 9;
9 <= 9;
10 >= 10;
";

    let tests = [
        // let five = 5;
        (LET, "let"),
        (IDENT, "five"),
        (ASSIGN, "="),
        (INTEGER, "5"),
        (SEMICOLON, ";"),
        // let ten = 10;
        (LET, "let"),
        (IDENT, "ten"),
        (ASSIGN, "="),
        (INTEGER, "10"),
        (SEMICOLON, ";"),
        // let add = fn(x, y) {
        //   x + y;
        // };
        (LET, "let"),
        (IDENT, "add"),
        (ASSIGN, "="),
        (FN, "fn"),
        (LPAREN, "("),
        (IDENT, "x"),
        (COMMA, ","),
        (IDENT, "y"),
        (RPAREN, ")"),
        (LBRACE, "{"),
        (IDENT, "x"),
        (PLUS, "+"),
        (IDENT, "y"),
        (SEMICOLON, ";"),
        (RBRACE, "}"),
        (SEMICOLON, ";"),
        // let result = add(five, ten);
        (LET, "let"),
        (IDENT, "result"),
        (ASSIGN, "="),
        (IDENT, "add"),
        (LPAREN, "("),
        (IDENT, "five"),
        (COMMA, ","),
        (IDENT, "ten"),
        (RPAREN, ")"),
        (SEMICOLON, ";"),
        // !-/*5;
        (BANG, "!"),
        (MINUS, "-"),
        (SLASH, "/"),
        (ASTERISK, "*"),
        (INTEGER, "5"),
        (SEMICOLON, ";"),
        // 5 < 10> 5;
        (INTEGER, "5"),
        (LT, "<"),
        (INTEGER, "10"),
        (GT, ">"),
        (INTEGER, "5"),
        (SEMICOLON, ";"),
        // if (5 < 10) {
        //   return true;
        // } else {
        //   return false;
        // }
        (IF, "if"),
        (LPAREN, "("),
        (INTEGER, "5"),
        (LT, "<"),
        (INTEGER, "10"),
        (RPAREN, ")"),
        (LBRACE, "{"),
        (RETURN, "return"),
        (TRUE, "true"),
        (SEMICOLON, ";"),
        (RBRACE, "}"),
        (ELSE, "else"),
        (LBRACE, "{"),
        (RETURN, "return"),
        (FALSE, "false"),
        (SEMICOLON, ";"),
        (RBRACE, "}"),
        // 10 == 10;
        (INTEGER, "10"),
        (EQ, "=="),
        (INTEGER, "10"),
        (SEMICOLON, ";"),
        // 10 != 9;
        (INTEGER, "10"),
        (NEQ, "!="),
        (INTEGER, "9"),
        (SEMICOLON, ";"),
        // 9 <= 9;
        (INTEGER, "9"),
        (LEQ, "<="),
        (INTEGER, "9"),
        (SEMICOLON, ";"),
        // 10 >= 10;
        (INTEGER, "10"),
        (GEQ, ">="),
        (INTEGER, "10"),
        (SEMICOLON, ";"),
        // end of file
        (EOF, ""),
    ];

    let mut scanner = Scanner::new(src.as_bytes().to_vec());

    for (i, t) in tests.iter().enumerate() {
        let (tok, lit) = scanner.scan();
        let lit = String::from_utf8(lit).unwrap();
        assert_eq!(
            *t,
            (tok, lit.as_str()),
            "[{}/{}] test failed.",
            i + 1,
            tests.len()
        );
    }
}

#[test]
fn whitespace_only_is_eof_at_once() {
    let mut scanner = Scanner::new(b"  \t\r\n \t".to_vec());
    let (tok, lit) = scanner.scan();
    assert_eq!(tok, EOF);
    assert_eq!(lit, b"".to_vec());
}

#[test]
fn ident_run_is_maximal() {
    let all = scan_all("foo_bar1 truest fnx");
    assert_eq!(
        all,
        vec![
            (IDENT, "foo_bar1".to_string()),
            (IDENT, "truest".to_string()),
            (IDENT, "fnx".to_string()),
        ]
    );
}

#[test]
fn keywords_are_recognized() {
    let all = scan_all("fn let return if else true false");
    assert_eq!(
        all,
        vec![
            (FN, "fn".to_string()),
            (LET, "let".to_string()),
            (RETURN, "return".to_string()),
            (IF, "if".to_string()),
            (ELSE, "else".to_string()),
            (TRUE, "true".to_string()),
            (FALSE, "false".to_string()),
        ]
    );
}

#[test]
fn integer_run_is_maximal() {
    let mut scanner = Scanner::new(b"1234567".to_vec());
    let (tok, lit) = scanner.scan();
    assert_eq!(tok, INTEGER);
    assert_eq!(lit, b"1234567".to_vec());
}

#[test]
fn leading_digit_never_starts_an_ident() {
    // the digit guard routes "5foo" into an integer, then an identifier
    let all = scan_all("5foo");
    assert_eq!(
        all,
        vec![(INTEGER, "5".to_string()), (IDENT, "foo".to_string())]
    );
}

#[test]
fn eof_repeats_forever() {
    let mut scanner = Scanner::new(b"let".to_vec());
    let (tok, _) = scanner.scan();
    assert_eq!(tok, LET);
    for _ in 0..5 {
        let (tok, lit) = scanner.scan();
        assert_eq!(tok, EOF);
        assert_eq!(lit, b"".to_vec());
    }
}

#[test]
fn lookahead_takes_two_bytes_as_one_token() {
    assert_eq!(scan_all("=="), vec![(EQ, "==".to_string())]);
    assert_eq!(scan_all("="), vec![(ASSIGN, "=".to_string())]);
    assert_eq!(scan_all("!="), vec![(NEQ, "!=".to_string())]);
    assert_eq!(scan_all("!"), vec![(BANG, "!".to_string())]);
    assert_eq!(scan_all("<="), vec![(LEQ, "<=".to_string())]);
    assert_eq!(scan_all("<"), vec![(LT, "<".to_string())]);
    assert_eq!(scan_all(">="), vec![(GEQ, ">=".to_string())]);
    assert_eq!(scan_all(">"), vec![(GT, ">".to_string())]);
    // the switch consumes the second byte only when it is `=`
    assert_eq!(
        scan_all("=5"),
        vec![(ASSIGN, "=".to_string()), (INTEGER, "5".to_string())]
    );
}

#[test]
fn switch_consumes_only_on_match() {
    let mut scanner = Scanner::new(b"==".to_vec());
    let tok = scanner.switch(ASSIGN, b'=', EQ);
    assert_eq!(tok, EQ);

    let mut scanner = Scanner::new(b"=5".to_vec());
    let tok = scanner.switch(ASSIGN, b'=', EQ);
    assert_eq!(tok, ASSIGN);
}

#[test]
fn token_count_matches_scan_calls() {
    let src = "let five = 5;";
    let tokens = tokenize(src.as_bytes().to_vec());

    let mut scanner = Scanner::new(src.as_bytes().to_vec());
    let mut count = 0;
    loop {
        let (tok, _) = scanner.scan();
        if tok == EOF {
            break;
        }
        count += 1;
    }
    assert_eq!(tokens.len(), count);
    assert_eq!(count, 5);
}

#[test]
fn scenario_let_statement() {
    assert_eq!(
        scan_all("let five = 5;"),
        vec![
            (LET, "let".to_string()),
            (IDENT, "five".to_string()),
            (ASSIGN, "=".to_string()),
            (INTEGER, "5".to_string()),
            (SEMICOLON, ";".to_string()),
        ]
    );
}

#[test]
fn scenario_equality() {
    assert_eq!(
        scan_all("10 == 10;"),
        vec![
            (INTEGER, "10".to_string()),
            (EQ, "==".to_string()),
            (INTEGER, "10".to_string()),
            (SEMICOLON, ";".to_string()),
        ]
    );
}

#[test]
fn scenario_leq() {
    assert_eq!(
        scan_all("9 <= 9;"),
        vec![
            (INTEGER, "9".to_string()),
            (LEQ, "<=".to_string()),
            (INTEGER, "9".to_string()),
            (SEMICOLON, ";".to_string()),
        ]
    );
}

#[test]
fn scenario_illegal_byte() {
    let mut scanner = Scanner::new(b"@".to_vec());
    let (tok, lit) = scanner.scan();
    assert_eq!(tok, ILLEGAL);
    assert_eq!(lit, b"@".to_vec());
    let (tok, lit) = scanner.scan();
    assert_eq!(tok, EOF);
    assert_eq!(lit, b"".to_vec());
}

#[test]
fn scenario_empty_input() {
    let mut scanner = Scanner::new(Vec::new());
    let (tok, lit) = scanner.scan();
    assert_eq!(tok, EOF);
    assert_eq!(lit, b"".to_vec());
    assert_eq!(tokenize(Vec::new()), Vec::new());
}

#[test]
fn nul_byte_acts_as_end_of_input() {
    // a 0 byte short-circuits to the sentinel without being consumed
    let mut scanner = Scanner::new(b"ab\x005".to_vec());
    let (tok, lit) = scanner.scan();
    assert_eq!(tok, IDENT);
    assert_eq!(lit, b"ab".to_vec());
    let (tok, lit) = scanner.scan();
    assert_eq!(tok, EOF);
    assert_eq!(lit, b"".to_vec());
    let (tok, _) = scanner.scan();
    assert_eq!(tok, EOF);
}
