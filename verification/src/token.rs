//! The tokens that the scanner hands out.

use vstd::prelude::*;
use vstd::string::StringExecFns;

verus! {

/// One token of the source text.
///
/// `Ident` carries the name that was read and `Int` the digits of a literal,
/// as text: the scanner delimits a number and never computes its value.
/// `Illegal` stands for a byte that belongs to no token, and `Eof` for the
/// end of the input.
#[derive(Debug)]
pub enum TokenType {
    Ident(String),
    Int(String),
    Illegal,
    Eof,
    Assign,
    Bang,
    Dash,
    ForwardSlash,
    Asterisk,
    Equal,
    NotEqual,
    LessThan,
    GreaterThan,
    Plus,
    Comma,
    Semicolon,
    Lparen,
    Rparen,
    LSquirly,
    RSquirly,
    Function,
    Let,
    If,
    Else,
    Return,
    True,
    False,
}

/// What a token is, with the text it carries as a sequence of characters.
pub enum Token {
    Ident(Seq<char>),
    Int(Seq<char>),
    Illegal,
    Eof,
    Assign,
    Bang,
    Dash,
    ForwardSlash,
    Asterisk,
    Equal,
    NotEqual,
    LessThan,
    GreaterThan,
    Plus,
    Comma,
    Semicolon,
    Lparen,
    Rparen,
    LSquirly,
    RSquirly,
    Function,
    Let,
    If,
    Else,
    Return,
    True,
    False,
}

impl View for TokenType {
    type V = Token;

    open spec fn view(&self) -> Token {
        match self {
            TokenType::Ident(name) => Token::Ident(name@),
            TokenType::Int(digits) => Token::Int(digits@),
            TokenType::Illegal => Token::Illegal,
            TokenType::Eof => Token::Eof,
            TokenType::Assign => Token::Assign,
            TokenType::Bang => Token::Bang,
            TokenType::Dash => Token::Dash,
            TokenType::ForwardSlash => Token::ForwardSlash,
            TokenType::Asterisk => Token::Asterisk,
            TokenType::Equal => Token::Equal,
            TokenType::NotEqual => Token::NotEqual,
            TokenType::LessThan => Token::LessThan,
            TokenType::GreaterThan => Token::GreaterThan,
            TokenType::Plus => Token::Plus,
            TokenType::Comma => Token::Comma,
            TokenType::Semicolon => Token::Semicolon,
            TokenType::Lparen => Token::Lparen,
            TokenType::Rparen => Token::Rparen,
            TokenType::LSquirly => Token::LSquirly,
            TokenType::RSquirly => Token::RSquirly,
            TokenType::Function => Token::Function,
            TokenType::Let => Token::Let,
            TokenType::If => Token::If,
            TokenType::Else => Token::Else,
            TokenType::Return => Token::Return,
            TokenType::True => Token::True,
            TokenType::False => Token::False,
        }
    }
}

/// Two tokens are equal where they are of the same kind and carry the same
/// text.
impl PartialEq for TokenType {
    fn eq(&self, other: &TokenType) -> (same: bool) {
        match (self, other) {
            (TokenType::Ident(mine), TokenType::Ident(theirs)) => *mine == *theirs,
            (TokenType::Int(mine), TokenType::Int(theirs)) => *mine == *theirs,
            (TokenType::Illegal, TokenType::Illegal) => true,
            (TokenType::Eof, TokenType::Eof) => true,
            (TokenType::Assign, TokenType::Assign) => true,
            (TokenType::Bang, TokenType::Bang) => true,
            (TokenType::Dash, TokenType::Dash) => true,
            (TokenType::ForwardSlash, TokenType::ForwardSlash) => true,
            (TokenType::Asterisk, TokenType::Asterisk) => true,
            (TokenType::Equal, TokenType::Equal) => true,
            (TokenType::NotEqual, TokenType::NotEqual) => true,
            (TokenType::LessThan, TokenType::LessThan) => true,
            (TokenType::GreaterThan, TokenType::GreaterThan) => true,
            (TokenType::Plus, TokenType::Plus) => true,
            (TokenType::Comma, TokenType::Comma) => true,
            (TokenType::Semicolon, TokenType::Semicolon) => true,
            (TokenType::Lparen, TokenType::Lparen) => true,
            (TokenType::Rparen, TokenType::Rparen) => true,
            (TokenType::LSquirly, TokenType::LSquirly) => true,
            (TokenType::RSquirly, TokenType::RSquirly) => true,
            (TokenType::Function, TokenType::Function) => true,
            (TokenType::Let, TokenType::Let) => true,
            (TokenType::If, TokenType::If) => true,
            (TokenType::Else, TokenType::Else) => true,
            (TokenType::Return, TokenType::Return) => true,
            (TokenType::True, TokenType::True) => true,
            (TokenType::False, TokenType::False) => true,
            _ => false,
        }
    }
}

impl vstd::std_specs::cmp::PartialEqSpecImpl for TokenType {
    open spec fn obeys_eq_spec() -> bool {
        true
    }

    open spec fn eq_spec(&self, other: &TokenType) -> bool {
        self@ == other@
    }
}

impl Token {
    /// The token as it is shown in diagnostics: the name of its kind, followed
    /// for a name or a number by the carried text in parentheses.
    pub open spec fn display(self) -> Seq<char> {
        match self {
            Token::Ident(name) => "Identifier("@ + name + ")"@,
            Token::Int(digits) => "Integer("@ + digits + ")"@,
            Token::Illegal => "Illegal"@,
            Token::Eof => "EndOfInput"@,
            Token::Assign => "Assign"@,
            Token::Bang => "Bang"@,
            Token::Dash => "Minus"@,
            Token::ForwardSlash => "Slash"@,
            Token::Asterisk => "Asterisk"@,
            Token::Equal => "Equal"@,
            Token::NotEqual => "NotEqual"@,
            Token::LessThan => "LessThan"@,
            Token::GreaterThan => "GreaterThan"@,
            Token::Plus => "Plus"@,
            Token::Comma => "Comma"@,
            Token::Semicolon => "Semicolon"@,
            Token::Lparen => "LParen"@,
            Token::Rparen => "RParen"@,
            Token::LSquirly => "LBrace"@,
            Token::RSquirly => "RBrace"@,
            Token::Function => "Function"@,
            Token::Let => "Let"@,
            Token::If => "If"@,
            Token::Else => "Else"@,
            Token::Return => "Return"@,
            Token::True => "True"@,
            Token::False => "False"@,
        }
    }
}

/// A kind's name with the carried text in parentheses behind it.
fn with_text(kind: &str, text: &String) -> (shown: String)
    ensures
        shown@ == kind@ + "("@ + text@ + ")"@,
{
    let mut shown = String::from_str(kind);
    shown.append("(");
    shown.append(text.as_str());
    shown.append(")");
    shown
}

impl TokenType {
    /// The token in readable form, for diagnostics.
    pub fn to_string(&self) -> (shown: String)
        ensures
            shown@ == self@.display(),
    {
        match self {
            TokenType::Ident(name) => {
                let shown = with_text("Identifier", name);
                proof {
                    reveal_strlit("Identifier");
                    reveal_strlit("Identifier(");
                    reveal_strlit("(");
                    assert(shown@ =~= "Identifier("@ + name@ + ")"@);
                }
                shown
            },
            TokenType::Int(digits) => {
                let shown = with_text("Integer", digits);
                proof {
                    reveal_strlit("Integer");
                    reveal_strlit("Integer(");
                    reveal_strlit("(");
                    assert(shown@ =~= "Integer("@ + digits@ + ")"@);
                }
                shown
            },
            TokenType::Illegal => String::from_str("Illegal"),
            TokenType::Eof => String::from_str("EndOfInput"),
            TokenType::Assign => String::from_str("Assign"),
            TokenType::Bang => String::from_str("Bang"),
            TokenType::Dash => String::from_str("Minus"),
            TokenType::ForwardSlash => String::from_str("Slash"),
            TokenType::Asterisk => String::from_str("Asterisk"),
            TokenType::Equal => String::from_str("Equal"),
            TokenType::NotEqual => String::from_str("NotEqual"),
            TokenType::LessThan => String::from_str("LessThan"),
            TokenType::GreaterThan => String::from_str("GreaterThan"),
            TokenType::Plus => String::from_str("Plus"),
            TokenType::Comma => String::from_str("Comma"),
            TokenType::Semicolon => String::from_str("Semicolon"),
            TokenType::Lparen => String::from_str("LParen"),
            TokenType::Rparen => String::from_str("RParen"),
            TokenType::LSquirly => String::from_str("LBrace"),
            TokenType::RSquirly => String::from_str("RBrace"),
            TokenType::Function => String::from_str("Function"),
            TokenType::Let => String::from_str("Let"),
            TokenType::If => String::from_str("If"),
            TokenType::Else => String::from_str("Else"),
            TokenType::Return => String::from_str("Return"),
            TokenType::True => String::from_str("True"),
            TokenType::False => String::from_str("False"),
        }
    }
}

} // verus!
