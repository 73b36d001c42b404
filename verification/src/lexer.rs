//! The scanner: it owns a source text and a cursor, and yields one token per pull.

use vstd::prelude::*;
use vstd::slice::slice_to_vec;
use crate::grammar::{lemma_scan, run_end, scan, CharClass};
use crate::token::{chars_of, eof_token, Token, TokenType};

verus! {

/// The scanner's state: the source, the cursor, the read position one ahead of it,
/// and the character under the cursor. Past the last character there is no current
/// character, and the cursor stays at the end with the read position behind it.
#[derive(Debug)]
pub struct Lexer {
    input: Vec<char>,
    position: usize,
    read_position: usize,
    current_char: Option<char>,
}

/// What a scanner is in contracts: the source text and the position of the cursor.
pub struct LexerView {
    pub input: Seq<char>,
    pub position: int,
}

impl View for Lexer {
    type V = LexerView;

    closed spec fn view(&self) -> LexerView {
        LexerView { input: self.input@, position: self.position as int }
    }
}

impl Lexer {
    /// The state is consistent: the cursor is inside the source or at its end, the
    /// read position is one ahead of the cursor, and the current character is the one
    /// under the cursor, or none at the end. Only where the cursor is the largest
    /// index there is does the read position stand on it, for want of a next one.
    pub closed spec fn wf(&self) -> bool {
        &&& self.position <= self.input.len()
        &&& self.read_position == if self.position < usize::MAX {
            self.position + 1
        } else {
            self.position as int
        }
        &&& self.current_char == if self.position < self.input.len() {
            Some(self.input[self.position as int])
        } else {
            None
        }
    }

    /// A scanner over `input` with the cursor on its first character.
    pub fn new(input: String) -> (lexer: Lexer)
        ensures
            lexer.wf(),
            lexer@ == (LexerView { input: input@, position: 0 }),
    {
        let mut lexer = Lexer {
            input: chars_of(input.as_str()),
            position: 0,
            read_position: 0,
            current_char: None,
        };
        lexer.read_char();
        lexer
    }

    /// Pulls one token: skips the whitespace under the cursor, yields the token that
    /// stands behind it, and leaves the cursor just behind that token. A character
    /// that starts no token comes back as an `Illegal` token that holds it. At the
    /// end of the source the token is the end-of-input token, on every pull, and the
    /// cursor stays at the end; any other token moves the cursor on.
    pub fn next_token(&mut self) -> (token: Token)
        requires
            old(self).wf(),
        ensures
            final(self).wf(),
            final(self)@.input == old(self)@.input,
            (token@, final(self)@.position) == scan(old(self)@.input, old(self)@.position),
            0 <= old(self)@.position <= final(self)@.position <= old(self)@.input.len(),
            token.token_type != TokenType::EOF ==> old(self)@.position < final(self)@.position,
            token.token_type == TokenType::EOF ==> token@ == eof_token() && final(self)@.position
                == old(self)@.input.len(),
    {
        let ghost source = self@.input;
        proof {
            lemma_scan(source, self@.position);
        }
        self.skip_whitespances();
        let ghost start = self@.position;

        let token = match self.current_char {
            None => Token::eof(),
            Some(current_char) => match current_char {
                ',' => Token::from_char(TokenType::Comma, current_char),
                ';' => Token::from_char(TokenType::Semicolon, current_char),
                '(' => Token::from_char(TokenType::LParen, current_char),
                ')' => Token::from_char(TokenType::RParen, current_char),
                '{' => Token::from_char(TokenType::LBrace, current_char),
                '}' => Token::from_char(TokenType::RBrace, current_char),
                '+' => Token::from_char(TokenType::Plus, current_char),
                '-' => Token::from_char(TokenType::Minus, current_char),
                '=' => {
                    if self.peek_char() == Some('=') {
                        self.read_char();
                        proof {
                            reveal_strlit("==");
                            assert("=="@ =~= source.subrange(start, start + 2));
                        }
                        Token::from_string(TokenType::Eq, "==".to_owned())
                    } else {
                        Token::from_char(TokenType::Assign, current_char)
                    }
                },
                '!' => {
                    if self.peek_char() == Some('=') {
                        self.read_char();
                        proof {
                            reveal_strlit("!=");
                            assert("!="@ =~= source.subrange(start, start + 2));
                        }
                        Token::from_string(TokenType::Not_Eq, "!=".to_owned())
                    } else {
                        Token::from_char(TokenType::Bang, current_char)
                    }
                },
                '*' => Token::from_char(TokenType::Asterisk, current_char),
                '/' => Token::from_char(TokenType::Slash, current_char),
                '<' => Token::from_char(TokenType::LT, current_char),
                '>' => Token::from_char(TokenType::GT, current_char),
                _ => {
                    if is_letter(&current_char) {
                        let identifier = self.read_identifier();
                        return Token::new(Token::lookup_identifier(&identifier), identifier);
                    } else if is_digit(&current_char) {
                        return Token::new(TokenType::Int, self.read_number());
                    } else {
                        Token::from_char(TokenType::Illegal, current_char)
                    }
                },
            },
        };
        proof {
            if start < source.len() {
                assert(seq![source[start]] =~= source.subrange(start, start + 1));
            }
        }

        self.read_char();
        token
    }

    /// Advances by one character: the current character becomes the one at the read
    /// position, or none where the source ends there; the cursor moves to the read
    /// position, and the read position one on. Once the cursor is at the end and the
    /// read position behind it, both markers stay where they are.
    fn read_char(&mut self)
        requires
            old(self).position <= old(self).read_position <= old(self).position + 1,
            old(self).position <= old(self).input.len(),
        ensures
            final(self).wf(),
            final(self)@.input == old(self)@.input,
            final(self)@.position == if old(self).read_position <= old(self).input.len() {
                old(self).read_position
            } else {
                old(self).position
            },
    {
        if self.read_position >= self.input.len() {
            self.current_char = None;
        } else {
            self.current_char = Some(self.input[self.read_position]);
        }

        if self.read_position <= self.input.len() {
            self.position = self.read_position;
            if self.read_position < usize::MAX {
                self.read_position += 1;
            }
        }
    }

    /// Consumes the run of letters under the cursor and returns it. Digits do not
    /// belong to it.
    fn read_identifier(&mut self) -> (identifier: Vec<char>)
        requires
            old(self).wf(),
        ensures
            final(self).wf(),
            final(self)@.input == old(self)@.input,
            final(self)@.position == run_end(
                old(self)@.input,
                CharClass::Letter,
                old(self)@.position,
            ),
            identifier@ == old(self)@.input.subrange(old(self)@.position, final(self)@.position),
    {
        let initial_position: usize = self.position;
        self.skip_run(CharClass::Letter);
        slice_to_vec(&self.input[initial_position..self.position])
    }

    /// Consumes the run of digits under the cursor and returns it.
    fn read_number(&mut self) -> (number: Vec<char>)
        requires
            old(self).wf(),
        ensures
            final(self).wf(),
            final(self)@.input == old(self)@.input,
            final(self)@.position == run_end(
                old(self)@.input,
                CharClass::Digit,
                old(self)@.position,
            ),
            number@ == old(self)@.input.subrange(old(self)@.position, final(self)@.position),
    {
        let initial_position: usize = self.position;
        self.skip_run(CharClass::Digit);
        slice_to_vec(&self.input[initial_position..self.position])
    }

    /// Moves the cursor over spaces, tabs, carriage returns and line feeds.
    fn skip_whitespances(&mut self)
        requires
            old(self).wf(),
        ensures
            final(self).wf(),
            final(self)@.input == old(self)@.input,
            final(self)@.position == run_end(
                old(self)@.input,
                CharClass::Whitespace,
                old(self)@.position,
            ),
    {
        self.skip_run(CharClass::Whitespace);
    }

    /// Moves the cursor to the end of the run of characters of `class` it stands on.
    fn skip_run(&mut self, class: CharClass)
        requires
            old(self).wf(),
        ensures
            final(self).wf(),
            final(self)@.input == old(self)@.input,
            final(self)@.position == run_end(old(self)@.input, class, old(self)@.position),
            old(self)@.position <= final(self)@.position <= old(self)@.input.len(),
    {
        let ghost source = self@.input;
        let ghost start = self@.position;
        while self.current_is(class)
            invariant
                self.wf(),
                self@.input == source,
                start <= self@.position <= source.len(),
                run_end(source, class, self@.position) == run_end(source, class, start),
            decreases source.len() - self@.position,
        {
            self.read_char();
        }
    }

    /// Whether there is a current character and it belongs to `class`.
    fn current_is(&self, class: CharClass) -> (found: bool)
        requires
            self.wf(),
        ensures
            found == (self@.position < self@.input.len() && class.contains(
                self@.input[self@.position],
            )),
    {
        match self.current_char {
            None => false,
            Some(current_char) => match class {
                CharClass::Whitespace => current_char == ' ' || current_char == '\t'
                    || current_char == '\n' || current_char == '\r',
                CharClass::Letter => is_letter(&current_char),
                CharClass::Digit => is_digit(&current_char),
            },
        }
    }

    /// The character behind the current one, if there is one. The state stays as it is.
    fn peek_char(&self) -> (next: Option<char>)
        requires
            self.wf(),
        ensures
            next == if self@.position + 1 < self@.input.len() {
                Some(self@.input[self@.position + 1])
            } else {
                None
            },
    {
        if self.read_position >= self.input.len() {
            None
        } else {
            Some(self.input[self.read_position])
        }
    }
}

/// Whether `ch` can stand in an identifier.
pub fn is_letter(ch: &char) -> (letter: bool)
    ensures
        letter == CharClass::Letter.contains(*ch),
{
    ('a' <= *ch && *ch <= 'z') || ('A' <= *ch && *ch <= 'Z') || *ch == '_'
}

/// Whether `ch` can stand in an integer literal.
pub fn is_digit(ch: &char) -> (digit: bool)
    ensures
        digit == CharClass::Digit.contains(*ch),
{
    '0' <= *ch && *ch <= '9'
}

} // verus!
