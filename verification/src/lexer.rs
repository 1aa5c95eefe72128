//! The scanner: a cursor over the bytes of a source text that hands out one
//! token for each request.

use crate::classes::{
    blank, digit, is_digit, is_letter, letter, ASTERISK, BANG, COMMA, DASH, END, EQUALS,
    GREATER_THAN, LEFT_BRACE, LEFT_PAREN, LESS_THAN, PLUS, RIGHT_BRACE, RIGHT_PAREN, SEMICOLON,
    SLASH,
};
use crate::grammar::{byte_at, number_end, scan, skip_blanks, word_end, word_token};
use crate::text::{all_ascii, ascii_text, decode_ascii};
use crate::token::{Token, TokenType};
use vstd::prelude::*;
use vstd::slice::slice_subrange;
use vstd::utf8::{encode_utf8, encode_utf8_decode_utf8};

verus! {

/// An index as the cursor holds it: the index itself, and the largest index
/// of the machine in place of any index beyond that.
pub open spec fn capped(i: int) -> int {
    if i <= usize::MAX {
        i
    } else {
        usize::MAX as int
    }
}

/// A scanner over one source text.
///
/// It owns the bytes of the text, which never change, and a cursor: the index
/// of the current byte, the index of the byte that is read next, and the
/// current byte itself, or the end mark where the cursor is behind the last
/// byte.
pub struct Lexer {
    input: Vec<u8>,
    position: usize,
    read_position: usize,
    ch: u8,
}

impl Lexer {
    /// The bytes of the source text.
    pub closed spec fn source(&self) -> Seq<u8> {
        self.input@
    }

    /// The index of the current byte.
    pub closed spec fn position(&self) -> int {
        self.position as int
    }

    /// The index of the byte that the next advance reads.
    pub closed spec fn read_position(&self) -> int {
        self.read_position as int
    }

    /// The current byte.
    pub closed spec fn current(&self) -> u8 {
        self.ch
    }

    /// The cursor is consistent: the current byte is the one at the current
    /// index, or the end mark behind the last byte, and the byte read next is
    /// the one that follows.
    pub open spec fn wf(&self) -> bool {
        &&& self.current() == byte_at(self.source(), self.position())
        &&& self.read_position() == capped(self.position() + 1)
    }

    /// The source is no longer than the largest index.
    pub proof fn lemma_source_fits(&self)
        ensures
            self.source().len() <= usize::MAX,
    {
        assert(self.input.len() == self.input@.len());
    }

    /// A scanner at the start of `input`, with the first byte of the text as
    /// its current byte.
    pub fn new(input: String) -> (lexer: Lexer)
        ensures
            lexer.wf(),
            lexer.source() == encode_utf8(input@),
            lexer.position() == 0,
    {
        let mut lexer = Lexer { input: input.into_bytes(), position: 0, read_position: 0, ch: END };
        lexer.read_char();
        lexer
    }

    /// Advances the cursor by one byte: the byte at the read index becomes
    /// the current byte, or the end mark where that index lies outside the
    /// source, and both indices move on by one. Behind the end of the source
    /// the cursor moves on as well, up to the largest index of the machine,
    /// where the read index stays.
    pub fn read_char(&mut self)
        ensures
            final(self).source() == old(self).source(),
            final(self).current() == byte_at(old(self).source(), old(self).read_position()),
            final(self).position() == old(self).read_position(),
            final(self).read_position() == capped(old(self).read_position() + 1),
            final(self).wf(),
    {
        if self.read_position < self.input.len() {
            self.ch = self.input[self.read_position];
        } else {
            self.ch = END;
        }
        self.position = self.read_position;
        if self.read_position < usize::MAX {
            self.read_position += 1;
        }
    }

    /// Reads the next token and moves the cursor behind it.
    ///
    /// Blanks before the token are passed over. At the end of the source the
    /// token is `Eof`, at every further request too. A byte that begins no
    /// token yields `Illegal` and is passed.
    pub fn next_token(&mut self) -> (tok: TokenType)
        requires
            old(self).wf(),
        ensures
            final(self).wf(),
            final(self).source() == old(self).source(),
            tok@ == scan(old(self).source(), old(self).position()).token,
            final(self).position() == capped(scan(old(self).source(), old(self).position()).next),
            old(self).position() >= old(self).source().len() ==> tok@ == Token::Eof
                && final(self).position() >= final(self).source().len(),
    {
        self.skip_whitespace();
        proof {
            self.lemma_source_fits();
        }
        let ch = self.ch;
        if letter(ch) {
            let ident = self.read_ident();
            return keyword_or_ident(ident);
        }
        if digit(ch) {
            return TokenType::Int(self.read_int());
        }
        let tok = match ch {
            LEFT_BRACE => TokenType::LSquirly,
            RIGHT_BRACE => TokenType::RSquirly,
            LEFT_PAREN => TokenType::Lparen,
            RIGHT_PAREN => TokenType::Rparen,
            COMMA => TokenType::Comma,
            SEMICOLON => TokenType::Semicolon,
            PLUS => TokenType::Plus,
            DASH => TokenType::Dash,
            BANG => {
                if self.peek() == EQUALS {
                    self.read_char();
                    TokenType::NotEqual
                } else {
                    TokenType::Bang
                }
            },
            GREATER_THAN => TokenType::GreaterThan,
            LESS_THAN => TokenType::LessThan,
            ASTERISK => TokenType::Asterisk,
            SLASH => TokenType::ForwardSlash,
            EQUALS => {
                if self.peek() == EQUALS {
                    self.read_char();
                    TokenType::Equal
                } else {
                    TokenType::Assign
                }
            },
            END => TokenType::Eof,
            _ => TokenType::Illegal,
        };
        self.read_char();
        tok
    }

    /// Moves the cursor to the first byte that is not blank.
    fn skip_whitespace(&mut self)
        requires
            old(self).wf(),
        ensures
            final(self).wf(),
            final(self).source() == old(self).source(),
            final(self).position() == skip_blanks(old(self).source(), old(self).position()),
    {
        while blank(self.ch)
            invariant
                self.wf(),
                self.source() == old(self).source(),
                skip_blanks(self.source(), self.position()) == skip_blanks(
                    old(self).source(),
                    old(self).position(),
                ),
            decreases self.source().len() - self.position(),
        {
            proof {
                self.lemma_source_fits();
            }
            self.read_char();
        }
    }

    /// The byte that the next advance would read, or the end mark.
    fn peek(&self) -> (b: u8)
        ensures
            b == byte_at(self.source(), self.read_position()),
    {
        if self.read_position >= self.input.len() {
            END
        } else {
            self.input[self.read_position]
        }
    }

    /// Reads the word at the cursor: the letters and underscores from the
    /// current byte on.
    fn read_ident(&mut self) -> (ident: String)
        requires
            old(self).wf(),
            is_letter(old(self).current()),
        ensures
            final(self).wf(),
            final(self).source() == old(self).source(),
            final(self).position() == word_end(old(self).source(), old(self).position()),
            ident@ == ascii_text(
                old(self).source().subrange(old(self).position(), final(self).position()),
            ),
    {
        let pos = self.position;
        while letter(self.ch)
            invariant
                self.wf(),
                self.source() == old(self).source(),
                pos == old(self).position(),
                pos <= self.position() <= self.source().len(),
                word_end(self.source(), self.position()) == word_end(self.source(), pos as int),
                forall|k: int| pos <= k < self.position() ==> is_letter(#[trigger] self.source()[k]),
            decreases self.source().len() - self.position(),
        {
            proof {
                self.lemma_source_fits();
            }
            self.read_char();
        }
        let span = slice_subrange(self.input.as_slice(), pos, self.position);
        assert(all_ascii(span@));
        decode_ascii(span)
    }

    /// Reads the digits at the cursor, as text.
    fn read_int(&mut self) -> (digits: String)
        requires
            old(self).wf(),
            is_digit(old(self).current()),
        ensures
            final(self).wf(),
            final(self).source() == old(self).source(),
            final(self).position() == number_end(old(self).source(), old(self).position()),
            digits@ == ascii_text(
                old(self).source().subrange(old(self).position(), final(self).position()),
            ),
    {
        let pos = self.position;
        while digit(self.ch)
            invariant
                self.wf(),
                self.source() == old(self).source(),
                pos == old(self).position(),
                pos <= self.position() <= self.source().len(),
                number_end(self.source(), self.position()) == number_end(self.source(), pos as int),
                forall|k: int| pos <= k < self.position() ==> is_digit(#[trigger] self.source()[k]),
            decreases self.source().len() - self.position(),
        {
            proof {
                self.lemma_source_fits();
            }
            self.read_char();
        }
        let span = slice_subrange(self.input.as_slice(), pos, self.position);
        assert(all_ascii(span@));
        decode_ascii(span)
    }
}

/// Tells whether two slices hold the same bytes.
fn same_bytes(a: &[u8], b: &[u8]) -> (same: bool)
    ensures
        same == (a@ == b@),
{
    if a.len() != b.len() {
        return false;
    }
    let mut i: usize = 0;
    while i < a.len()
        invariant
            a@.len() == b@.len(),
            i <= a@.len(),
            forall|k: int| 0 <= k < i ==> a@[k] == b@[k],
        decreases a@.len() - i,
    {
        if a[i] != b[i] {
            return false;
        }
        i += 1;
    }
    assert(a@ =~= b@);
    true
}

/// Tells whether a word is spelled as `spelling` is.
fn spells(word: &str, spelling: &str) -> (same: bool)
    ensures
        same == (word@ == spelling@),
{
    proof {
        encode_utf8_decode_utf8(word@);
        encode_utf8_decode_utf8(spelling@);
    }
    same_bytes(word.as_bytes(), spelling.as_bytes())
}

/// The token for a word that was read: a keyword, or a name that carries the
/// word.
pub fn keyword_or_ident(ident: String) -> (tok: TokenType)
    ensures
        tok@ == word_token(ident@),
{
    let word = ident.as_str();
    if spells(word, "fn") {
        TokenType::Function
    } else if spells(word, "let") {
        TokenType::Let
    } else if spells(word, "if") {
        TokenType::If
    } else if spells(word, "false") {
        TokenType::False
    } else if spells(word, "true") {
        TokenType::True
    } else if spells(word, "return") {
        TokenType::Return
    } else if spells(word, "else") {
        TokenType::Else
    } else {
        TokenType::Ident(ident)
    }
}

} // verus!
