use lexer::lexer::keyword_or_ident;
use lexer::{Lexer, TokenType};

/// All tokens of `input`, up to and with the first `Eof`.
fn tokens(input: &str) -> Vec<TokenType> {
    let mut lexer = Lexer::new(String::from(input));
    let mut found = Vec::new();
    loop {
        let token = lexer.next_token();
        let done = token == TokenType::Eof;
        found.push(token);
        if done {
            return found;
        }
    }
}

fn name(word: &str) -> TokenType {
    TokenType::Ident(String::from(word))
}

fn number(digits: &str) -> TokenType {
    TokenType::Int(String::from(digits))
}

#[test]
fn test_lexer() {
    let mut lexer = Lexer::new(String::from("1234567890"));
    let next_token = lexer.next_token();
    assert_eq!(TokenType::Int(String::from("1234567890")), next_token);
    let next_token = lexer.next_token();
    assert_eq!(TokenType::Eof, next_token);
}

#[test]
fn digits_are_one_number() {
    assert_eq!(tokens("0"), vec![number("0"), TokenType::Eof]);
    assert_eq!(tokens("007"), vec![number("007"), TokenType::Eof]);
    assert_eq!(
        tokens("340282366920938463463374607431768211456"),
        vec![number("340282366920938463463374607431768211456"), TokenType::Eof]
    );
}

#[test]
fn empty_input_is_at_its_end() {
    assert_eq!(tokens(""), vec![TokenType::Eof]);
}

#[test]
fn keywords_are_no_names() {
    assert_eq!(tokens("fn"), vec![TokenType::Function, TokenType::Eof]);
    assert_eq!(tokens("let"), vec![TokenType::Let, TokenType::Eof]);
    assert_eq!(tokens("if"), vec![TokenType::If, TokenType::Eof]);
    assert_eq!(tokens("else"), vec![TokenType::Else, TokenType::Eof]);
    assert_eq!(tokens("return"), vec![TokenType::Return, TokenType::Eof]);
    assert_eq!(tokens("true"), vec![TokenType::True, TokenType::Eof]);
    assert_eq!(tokens("false"), vec![TokenType::False, TokenType::Eof]);
}

#[test]
fn other_words_are_names() {
    assert_eq!(tokens("five"), vec![name("five"), TokenType::Eof]);
    assert_eq!(tokens("_"), vec![name("_"), TokenType::Eof]);
    assert_eq!(tokens("foo_bar"), vec![name("foo_bar"), TokenType::Eof]);
    assert_eq!(tokens("Let"), vec![name("Let"), TokenType::Eof]);
    assert_eq!(tokens("FN"), vec![name("FN"), TokenType::Eof]);
    assert_eq!(tokens("lets"), vec![name("lets"), TokenType::Eof]);
    assert_eq!(tokens("f"), vec![name("f"), TokenType::Eof]);
    assert_eq!(tokens("returned"), vec![name("returned"), TokenType::Eof]);
    assert_eq!(tokens("az_AZ"), vec![name("az_AZ"), TokenType::Eof]);
}

#[test]
fn keyword_table() {
    assert_eq!(keyword_or_ident(String::from("fn")), TokenType::Function);
    assert_eq!(keyword_or_ident(String::from("let")), TokenType::Let);
    assert_eq!(keyword_or_ident(String::from("if")), TokenType::If);
    assert_eq!(keyword_or_ident(String::from("else")), TokenType::Else);
    assert_eq!(keyword_or_ident(String::from("return")), TokenType::Return);
    assert_eq!(keyword_or_ident(String::from("true")), TokenType::True);
    assert_eq!(keyword_or_ident(String::from("false")), TokenType::False);
    assert_eq!(keyword_or_ident(String::from("truth")), name("truth"));
    assert_eq!(keyword_or_ident(String::from("")), name(""));
}

#[test]
fn a_digit_ends_a_word() {
    assert_eq!(tokens("a1"), vec![name("a"), number("1"), TokenType::Eof]);
    assert_eq!(tokens("x2y"), vec![name("x"), number("2"), name("y"), TokenType::Eof]);
    assert_eq!(tokens("1a"), vec![number("1"), name("a"), TokenType::Eof]);
    assert_eq!(tokens("let5"), vec![TokenType::Let, number("5"), TokenType::Eof]);
}

#[test]
fn equal_and_not_equal_are_one_token() {
    assert_eq!(tokens("=="), vec![TokenType::Equal, TokenType::Eof]);
    assert_eq!(tokens("!="), vec![TokenType::NotEqual, TokenType::Eof]);
    assert_eq!(tokens("="), vec![TokenType::Assign, TokenType::Eof]);
    assert_eq!(tokens("!"), vec![TokenType::Bang, TokenType::Eof]);
    assert_eq!(tokens("=!"), vec![TokenType::Assign, TokenType::Bang, TokenType::Eof]);
    assert_eq!(tokens("==="), vec![TokenType::Equal, TokenType::Assign, TokenType::Eof]);
    assert_eq!(tokens("!=="), vec![TokenType::NotEqual, TokenType::Assign, TokenType::Eof]);
    assert_eq!(tokens("!!="), vec![TokenType::Bang, TokenType::NotEqual, TokenType::Eof]);
    assert_eq!(tokens("= ="), vec![TokenType::Assign, TokenType::Assign, TokenType::Eof]);
    assert_eq!(tokens("! ="), vec![TokenType::Bang, TokenType::Assign, TokenType::Eof]);
}

#[test]
fn less_and_greater_are_never_merged() {
    assert_eq!(tokens("<="), vec![TokenType::LessThan, TokenType::Assign, TokenType::Eof]);
    assert_eq!(tokens(">="), vec![TokenType::GreaterThan, TokenType::Assign, TokenType::Eof]);
    assert_eq!(tokens("<=="), vec![TokenType::LessThan, TokenType::Equal, TokenType::Eof]);
    assert_eq!(tokens("<"), vec![TokenType::LessThan, TokenType::Eof]);
    assert_eq!(tokens(">"), vec![TokenType::GreaterThan, TokenType::Eof]);
    assert_eq!(tokens("<>"), vec![TokenType::LessThan, TokenType::GreaterThan, TokenType::Eof]);
}

#[test]
fn every_delimiter_and_operator() {
    assert_eq!(
        tokens("{}(),;+-*/<>!="),
        vec![
            TokenType::LSquirly,
            TokenType::RSquirly,
            TokenType::Lparen,
            TokenType::Rparen,
            TokenType::Comma,
            TokenType::Semicolon,
            TokenType::Plus,
            TokenType::Dash,
            TokenType::Asterisk,
            TokenType::ForwardSlash,
            TokenType::LessThan,
            TokenType::GreaterThan,
            TokenType::NotEqual,
            TokenType::Eof,
        ]
    );
    assert_eq!(tokens("--"), vec![TokenType::Dash, TokenType::Dash, TokenType::Eof]);
}

#[test]
fn end_of_input_repeats() {
    let mut lexer = Lexer::new(String::from("x"));
    assert_eq!(lexer.next_token(), name("x"));
    for _ in 0..100 {
        assert_eq!(lexer.next_token(), TokenType::Eof);
    }
    let mut empty = Lexer::new(String::new());
    for _ in 0..100 {
        assert_eq!(empty.next_token(), TokenType::Eof);
    }
    let mut blank = Lexer::new(String::from(" \n"));
    for _ in 0..100 {
        assert_eq!(blank.next_token(), TokenType::Eof);
    }
}

#[test]
fn blanks_are_skipped() {
    let plain = tokens("let x=5;");
    assert_eq!(
        plain,
        vec![
            TokenType::Let,
            name("x"),
            TokenType::Assign,
            number("5"),
            TokenType::Semicolon,
            TokenType::Eof
        ]
    );
    assert_eq!(tokens("let x = 5 ;"), plain);
    assert_eq!(tokens("  let\tx\n=\r\n5\t\t;   "), plain);
    assert_eq!(tokens("\r\n\t let \t\n\r x\n\n\n=      5;\n"), plain);
    assert_eq!(tokens(" \t\r\n"), vec![TokenType::Eof]);
}

#[test]
fn other_control_bytes_are_no_blanks() {
    assert_eq!(tokens("\x0c"), vec![TokenType::Illegal, TokenType::Eof]);
    assert_eq!(tokens("\x0b"), vec![TokenType::Illegal, TokenType::Eof]);
    assert_eq!(tokens("a\x0cb"), vec![name("a"), TokenType::Illegal, name("b"), TokenType::Eof]);
}

#[test]
fn scenario_let_statement() {
    assert_eq!(
        tokens("let five = 5;"),
        vec![
            TokenType::Let,
            name("five"),
            TokenType::Assign,
            number("5"),
            TokenType::Semicolon,
            TokenType::Eof,
        ]
    );
}

#[test]
fn scenario_if_else() {
    assert_eq!(
        tokens("if (5 < 10) { return true; } else { return false; }"),
        vec![
            TokenType::If,
            TokenType::Lparen,
            number("5"),
            TokenType::LessThan,
            number("10"),
            TokenType::Rparen,
            TokenType::LSquirly,
            TokenType::Return,
            TokenType::True,
            TokenType::Semicolon,
            TokenType::RSquirly,
            TokenType::Else,
            TokenType::LSquirly,
            TokenType::Return,
            TokenType::False,
            TokenType::Semicolon,
            TokenType::RSquirly,
            TokenType::Eof,
        ]
    );
}

#[test]
fn scenario_comparisons() {
    assert_eq!(
        tokens("10 == 10; 10 != 9;"),
        vec![
            number("10"),
            TokenType::Equal,
            number("10"),
            TokenType::Semicolon,
            number("10"),
            TokenType::NotEqual,
            number("9"),
            TokenType::Semicolon,
            TokenType::Eof,
        ]
    );
}

#[test]
fn scenario_function_literal() {
    assert_eq!(
        tokens("let add = fn(x, y) { x + y; };"),
        vec![
            TokenType::Let,
            name("add"),
            TokenType::Assign,
            TokenType::Function,
            TokenType::Lparen,
            name("x"),
            TokenType::Comma,
            name("y"),
            TokenType::Rparen,
            TokenType::LSquirly,
            name("x"),
            TokenType::Plus,
            name("y"),
            TokenType::Semicolon,
            TokenType::RSquirly,
            TokenType::Semicolon,
            TokenType::Eof,
        ]
    );
}

#[test]
fn scenario_illegal_byte() {
    assert_eq!(tokens("@"), vec![TokenType::Illegal, TokenType::Eof]);
    assert_eq!(
        tokens("let a = #5;"),
        vec![
            TokenType::Let,
            name("a"),
            TokenType::Assign,
            TokenType::Illegal,
            number("5"),
            TokenType::Semicolon,
            TokenType::Eof,
        ]
    );
    assert_eq!(
        tokens("@@ $"),
        vec![TokenType::Illegal, TokenType::Illegal, TokenType::Illegal, TokenType::Eof]
    );
    for unknown in ["\"", "#", "$", "%", "&", "'", ".", ":", "?", "@", "[", "\\", "]", "^", "`", "|", "~", "\x7f", "\x01"] {
        assert_eq!(tokens(unknown), vec![TokenType::Illegal, TokenType::Eof]);
    }
}

#[test]
fn bytes_beyond_ascii_are_illegal_one_by_one() {
    assert_eq!(tokens("é"), vec![TokenType::Illegal, TokenType::Illegal, TokenType::Eof]);
    assert_eq!(
        tokens("a€b"),
        vec![
            name("a"),
            TokenType::Illegal,
            TokenType::Illegal,
            TokenType::Illegal,
            name("b"),
            TokenType::Eof,
        ]
    );
}

#[test]
fn a_zero_byte_reads_as_the_end_and_is_passed() {
    let mut lexer = Lexer::new(String::from("a\0b"));
    assert_eq!(lexer.next_token(), name("a"));
    assert_eq!(lexer.next_token(), TokenType::Eof);
    assert_eq!(lexer.next_token(), name("b"));
    assert_eq!(lexer.next_token(), TokenType::Eof);
    assert_eq!(lexer.next_token(), TokenType::Eof);
}

#[test]
fn read_char_passes_one_byte() {
    let mut lexer = Lexer::new(String::from("ab cd"));
    lexer.read_char();
    assert_eq!(lexer.next_token(), name("b"));
    lexer.read_char();
    lexer.read_char();
    assert_eq!(lexer.next_token(), name("d"));
    lexer.read_char();
    lexer.read_char();
    assert_eq!(lexer.next_token(), TokenType::Eof);
}

#[test]
fn read_char_between_two_bytes_of_an_operator() {
    let mut lexer = Lexer::new(String::from("!=="));
    lexer.read_char();
    assert_eq!(lexer.next_token(), TokenType::Equal);
    assert_eq!(lexer.next_token(), TokenType::Eof);
}

#[test]
fn long_input_comes_to_its_end() {
    let mut source = String::new();
    for _ in 0..1000 {
        source.push_str("@ x 1 ");
    }
    let found = tokens(&source);
    assert_eq!(found.len(), 3001);
    assert_eq!(found[0], TokenType::Illegal);
    assert_eq!(found[1], name("x"));
    assert_eq!(found[2], number("1"));
    assert_eq!(found[3000], TokenType::Eof);
}
