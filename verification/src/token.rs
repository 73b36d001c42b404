//! The token model: the kinds of token, the token itself, and the keyword table.

use vstd::prelude::*;
use vstd::std_specs::cmp::PartialEqSpecImpl;

verus! {

/// The kind of a token.
#[allow(non_camel_case_types)]
#[derive(Clone, Copy, PartialEq, Eq, Debug, Structural)]
pub enum TokenType {
    Illegal,
    EOF,
    Identifier,
    Int,
    Comma,
    Semicolon,
    LParen,
    RParen,
    LBrace,
    RBrace,
    // Operations
    Assign,
    Plus,
    Minus,
    Bang,
    Asterisk,
    Slash,
    LT,
    GT,
    Eq,
    Not_Eq,
    // Keywords
    Function,
    Let,
    True,
    False,
    If,
    Else,
    Return,
}

/// A token: its kind and the text it was matched from.
#[derive(Debug)]
pub struct Token {
    pub token_type: TokenType,
    pub literal: Vec<char>,
}

/// What a token is in contracts: its kind and its text as a sequence of characters.
pub struct TokenView {
    pub token_type: TokenType,
    pub literal: Seq<char>,
}

impl View for Token {
    type V = TokenView;

    open spec fn view(&self) -> TokenView {
        TokenView { token_type: self.token_type, literal: self.literal@ }
    }
}

/// The text of the token that marks the end of the input: a single line feed.
pub open spec fn eof_literal() -> Seq<char> {
    seq!['\n']
}

/// The text of the bare illegal token: a single NUL.
pub open spec fn illegal_literal() -> Seq<char> {
    seq!['\0']
}

/// The end-of-input token.
pub open spec fn eof_token() -> TokenView {
    TokenView { token_type: TokenType::EOF, literal: eof_literal() }
}

/// The kind of a scanned run of letters: the keyword that the run spells, letter for
/// letter and in this case, or `Identifier` where it spells none.
pub open spec fn keyword_kind(word: Seq<char>) -> TokenType {
    if word == seq!['f', 'n'] {
        TokenType::Function
    } else if word == seq!['l', 'e', 't'] {
        TokenType::Let
    } else if word == seq!['t', 'r', 'u', 'e'] {
        TokenType::True
    } else if word == seq!['f', 'a', 'l', 's', 'e'] {
        TokenType::False
    } else if word == seq!['i', 'f'] {
        TokenType::If
    } else if word == seq!['e', 'l', 's', 'e'] {
        TokenType::Else
    } else if word == seq!['r', 'e', 't', 'u', 'r', 'n'] {
        TokenType::Return
    } else {
        TokenType::Identifier
    }
}

/// The characters of `text`, in order.
pub fn chars_of(text: &str) -> (chars: Vec<char>)
    ensures
        chars@ == text@,
{
    let mut chars: Vec<char> = Vec::new();
    for c in it: text.chars()
        invariant
            it.seq() == text@,
            chars@ == it.seq().take(it.index()),
    {
        chars.push(c);
    }
    chars
}

/// Whether `a` and `b` hold the same characters in the same order.
pub fn same_chars(a: &Vec<char>, b: &Vec<char>) -> (same: bool)
    ensures
        same == (a@ == b@),
{
    if a.len() != b.len() {
        return false;
    }
    let mut i: usize = 0;
    while i < a.len()
        invariant
            a.len() == b.len(),
            i <= a.len(),
            a@.take(i as int) == b@.take(i as int),
        decreases a.len() - i,
    {
        if a[i] != b[i] {
            return false;
        }
        i += 1;
        assert(a@.take(i as int) == a@.take(i - 1).push(a@[i - 1]));
        assert(b@.take(i as int) == b@.take(i - 1).push(b@[i - 1]));
    }
    assert(a@ == a@.take(i as int));
    assert(b@ == b@.take(i as int));
    true
}

impl Token {
    /// A token of the given kind whose text is the characters of `literal`.
    pub fn from_string(token_type: TokenType, literal: String) -> (token: Token)
        ensures
            token@ == (TokenView { token_type, literal: literal@ }),
    {
        Token::new(token_type, chars_of(literal.as_str()))
    }

    /// A token of the given kind whose text is the one character `literal`.
    pub fn from_char(token_type: TokenType, literal: char) -> (token: Token)
        ensures
            token@ == (TokenView { token_type, literal: seq![literal] }),
    {
        let token = Token::new(token_type, vec![literal]);
        assert(token.literal@ =~= seq![literal]);
        token
    }

    /// A token of the given kind and text.
    pub fn new(token_type: TokenType, literal: Vec<char>) -> (token: Token)
        ensures
            token.token_type == token_type,
            token.literal == literal,
    {
        Token { token_type, literal }
    }

    /// The bare illegal token, which stands for no character of a source.
    pub fn illegal() -> (token: Token)
        ensures
            token@ == (TokenView { token_type: TokenType::Illegal, literal: illegal_literal() }),
    {
        let token = Token::new(TokenType::Illegal, vec!['\0']);
        assert(token.literal@ =~= illegal_literal());
        token
    }

    /// The token that marks the end of the input.
    pub fn eof() -> (token: Token)
        ensures
            token@ == eof_token(),
    {
        let token = Token::new(TokenType::EOF, vec!['\n']);
        assert(token.literal@ =~= eof_literal());
        token
    }

    /// An identifier token with the text `literal`, whatever it spells.
    pub fn identifier(literal: Vec<char>) -> (token: Token)
        ensures
            token.token_type == TokenType::Identifier,
            token.literal == literal,
    {
        Token { token_type: TokenType::Identifier, literal }
    }

    /// The kind of a scanned word: that of the keyword it spells, else `Identifier`.
    pub fn lookup_identifier(identifier: &Vec<char>) -> (kind: TokenType)
        ensures
            kind == keyword_kind(identifier@),
    {
        let n: usize = identifier.len();
        if n == 2 && identifier[0] == 'f' && identifier[1] == 'n' {
            assert(identifier@ =~= seq!['f', 'n']);
            TokenType::Function
        } else if n == 3 && identifier[0] == 'l' && identifier[1] == 'e' && identifier[2] == 't' {
            assert(identifier@ =~= seq!['l', 'e', 't']);
            TokenType::Let
        } else if n == 4 && identifier[0] == 't' && identifier[1] == 'r' && identifier[2] == 'u'
            && identifier[3] == 'e' {
            assert(identifier@ =~= seq!['t', 'r', 'u', 'e']);
            TokenType::True
        } else if n == 5 && identifier[0] == 'f' && identifier[1] == 'a' && identifier[2] == 'l'
            && identifier[3] == 's' && identifier[4] == 'e' {
            assert(identifier@ =~= seq!['f', 'a', 'l', 's', 'e']);
            TokenType::False
        } else if n == 2 && identifier[0] == 'i' && identifier[1] == 'f' {
            assert(identifier@ =~= seq!['i', 'f']);
            TokenType::If
        } else if n == 4 && identifier[0] == 'e' && identifier[1] == 'l' && identifier[2] == 's'
            && identifier[3] == 'e' {
            assert(identifier@ =~= seq!['e', 'l', 's', 'e']);
            TokenType::Else
        } else if n == 6 && identifier[0] == 'r' && identifier[1] == 'e' && identifier[2] == 't'
            && identifier[3] == 'u' && identifier[4] == 'r' && identifier[5] == 'n' {
            assert(identifier@ =~= seq!['r', 'e', 't', 'u', 'r', 'n']);
            TokenType::Return
        } else {
            TokenType::Identifier
        }
    }
}

/// Two tokens are equal when their kinds and their texts are.
impl PartialEq for Token {
    fn eq(&self, other: &Token) -> (equal: bool) {
        self.token_type == other.token_type && same_chars(&self.literal, &other.literal)
    }
}

impl PartialEqSpecImpl for Token {
    open spec fn obeys_eq_spec() -> bool {
        true
    }

    open spec fn eq_spec(&self, other: &Token) -> bool {
        self@ == other@
    }
}

} // verus!
