//! The lexical grammar as mathematics: which token stands at a position of a source
//! text, where the next one starts, and what holds of every text.

use vstd::prelude::*;
use crate::token::{eof_token, keyword_kind, TokenType, TokenView};

verus! {

/// The classes of character that the scanner consumes in whole runs.
#[derive(Clone, Copy, Debug)]
pub enum CharClass {
    Whitespace,
    Letter,
    Digit,
}

impl CharClass {
    /// Whether `c` belongs to the class. All three classes are ASCII only: a letter
    /// is `a` to `z`, `A` to `Z` or an underscore, a digit is `0` to `9`.
    pub open spec fn contains(self, c: char) -> bool {
        match self {
            CharClass::Whitespace => c == ' ' || c == '\t' || c == '\n' || c == '\r',
            CharClass::Letter => ('a' <= c && c <= 'z') || ('A' <= c && c <= 'Z') || c == '_',
            CharClass::Digit => '0' <= c && c <= '9',
        }
    }
}

/// Where the longest run of characters of `class` that starts at `from` ends: the
/// first position at or after `from` that holds no character of `class`.
pub open spec fn run_end(source: Seq<char>, class: CharClass, from: int) -> int
    decreases source.len() - from,
{
    if 0 <= from < source.len() && class.contains(source[from]) {
        run_end(source, class, from + 1)
    } else {
        from
    }
}

/// The kind of the token that the single character `c` makes.
pub open spec fn symbol_kind(c: char) -> TokenType {
    if c == ',' {
        TokenType::Comma
    } else if c == ';' {
        TokenType::Semicolon
    } else if c == '(' {
        TokenType::LParen
    } else if c == ')' {
        TokenType::RParen
    } else if c == '{' {
        TokenType::LBrace
    } else if c == '}' {
        TokenType::RBrace
    } else if c == '=' {
        TokenType::Assign
    } else if c == '+' {
        TokenType::Plus
    } else if c == '-' {
        TokenType::Minus
    } else if c == '!' {
        TokenType::Bang
    } else if c == '*' {
        TokenType::Asterisk
    } else if c == '/' {
        TokenType::Slash
    } else if c == '<' {
        TokenType::LT
    } else if c == '>' {
        TokenType::GT
    } else {
        TokenType::Illegal
    }
}

/// Whether `==` or `!=` stands at `at`.
pub open spec fn two_char_operator_at(source: Seq<char>, at: int) -> bool {
    &&& 0 <= at
    &&& at + 1 < source.len()
    &&& (source[at] == '=' || source[at] == '!')
    &&& source[at + 1] == '='
}

/// The token that starts at `at`, and the position just behind it. Its text is the
/// part of the source it covers. At the end of the source stands the end-of-input
/// token, which covers nothing.
pub open spec fn token_at(source: Seq<char>, at: int) -> (TokenView, int) {
    if !(0 <= at < source.len()) {
        (eof_token(), at)
    } else if two_char_operator_at(source, at) {
        (
            TokenView {
                token_type: if source[at] == '=' {
                    TokenType::Eq
                } else {
                    TokenType::Not_Eq
                },
                literal: source.subrange(at, at + 2),
            },
            at + 2,
        )
    } else if CharClass::Letter.contains(source[at]) {
        let end = run_end(source, CharClass::Letter, at);
        let word = source.subrange(at, end);
        (TokenView { token_type: keyword_kind(word), literal: word }, end)
    } else if CharClass::Digit.contains(source[at]) {
        let end = run_end(source, CharClass::Digit, at);
        (TokenView { token_type: TokenType::Int, literal: source.subrange(at, end) }, end)
    } else {
        (
            TokenView {
                token_type: symbol_kind(source[at]),
                literal: source.subrange(at, at + 1),
            },
            at + 1,
        )
    }
}

/// What one pull yields with the cursor at `cursor`: the token behind the whitespace
/// that starts there, and the new cursor.
pub open spec fn scan(source: Seq<char>, cursor: int) -> (TokenView, int) {
    token_at(source, run_end(source, CharClass::Whitespace, cursor))
}

/// The tokens that repeated pulls yield from `cursor` on, up to the end-of-input
/// token and without it.
pub open spec fn tokens_from(source: Seq<char>, cursor: int) -> Seq<TokenView>
    decreases source.len() - cursor,
    via tokens_from_decreases
{
    let (token, next) = scan(source, cursor);
    if token.token_type == TokenType::EOF {
        Seq::empty()
    } else {
        seq![token] + tokens_from(source, next)
    }
}

#[via_fn]
proof fn tokens_from_decreases(source: Seq<char>, cursor: int) {
    let start = run_end(source, CharClass::Whitespace, cursor);
    if scan(source, cursor).0.token_type != TokenType::EOF {
        lemma_run_end(source, CharClass::Whitespace, cursor);
        lemma_token_at(source, start);
    }
}

/// The cursor after `pulls` pulls that started at `cursor`.
pub open spec fn cursor_after(source: Seq<char>, cursor: int, pulls: nat) -> int
    decreases pulls,
{
    if pulls == 0 {
        cursor
    } else {
        scan(source, cursor_after(source, cursor, (pulls - 1) as nat)).1
    }
}

/// The token that the pull after `pulls` earlier ones yields, all started at `cursor`.
pub open spec fn token_after(source: Seq<char>, cursor: int, pulls: nat) -> TokenView {
    scan(source, cursor_after(source, cursor, pulls)).0
}

/// A run ends at or behind its start and inside the source or at its end, holds only
/// characters of its class, and cannot go on: behind it the source ends or a
/// character outside the class stands.
pub proof fn lemma_run_end(source: Seq<char>, class: CharClass, from: int)
    ensures
        from <= run_end(source, class, from),
        0 <= from <= source.len() ==> run_end(source, class, from) <= source.len(),
        forall|i: int|
            from <= i < run_end(source, class, from) ==> 0 <= i < source.len() && class.contains(
                #[trigger] source[i],
            ),
        0 <= run_end(source, class, from) < source.len() ==> !class.contains(
            source[run_end(source, class, from)],
        ),
    decreases source.len() - from,
{
    if 0 <= from < source.len() && class.contains(source[from]) {
        lemma_run_end(source, class, from + 1);
    }
}

/// Inside the source a token is never the end-of-input token, covers at least one
/// character, and has as its text exactly what it covers.
pub proof fn lemma_token_at(source: Seq<char>, at: int)
    requires
        0 <= at < source.len(),
    ensures
        token_at(source, at).0.token_type != TokenType::EOF,
        at < token_at(source, at).1 <= source.len(),
        token_at(source, at).0.literal == source.subrange(at, token_at(source, at).1),
{
    lemma_run_end(source, CharClass::Letter, at);
    lemma_run_end(source, CharClass::Digit, at);
}

/// A pull never moves the cursor back nor past the end. It yields the end-of-input
/// token exactly when only whitespace is left, and then the cursor is at the end;
/// with any other token the cursor has moved on.
pub proof fn lemma_scan(source: Seq<char>, cursor: int)
    requires
        0 <= cursor <= source.len(),
    ensures
        cursor <= scan(source, cursor).1 <= source.len(),
        scan(source, cursor).0.token_type == TokenType::EOF <==> run_end(
            source,
            CharClass::Whitespace,
            cursor,
        ) == source.len(),
        scan(source, cursor).0.token_type == TokenType::EOF ==> scan(source, cursor) == (
            eof_token(),
            source.len() as int,
        ),
        scan(source, cursor).0.token_type != TokenType::EOF ==> cursor < scan(source, cursor).1,
{
    let start = run_end(source, CharClass::Whitespace, cursor);
    lemma_run_end(source, CharClass::Whitespace, cursor);
    if start < source.len() {
        lemma_token_at(source, start);
    }
}

/// However many pulls were made, the cursor is inside the source or at its end.
pub proof fn lemma_cursor_after_in_bounds(source: Seq<char>, cursor: int, pulls: nat)
    requires
        0 <= cursor <= source.len(),
    ensures
        cursor <= cursor_after(source, cursor, pulls) <= source.len(),
    decreases pulls,
{
    if pulls > 0 {
        lemma_cursor_after_in_bounds(source, cursor, (pulls - 1) as nat);
        lemma_scan(source, cursor_after(source, cursor, (pulls - 1) as nat));
    }
}

/// One pull and then `pulls` more leave the cursor where `pulls + 1` pulls leave it.
pub proof fn lemma_cursor_after_first_pull(source: Seq<char>, cursor: int, pulls: nat)
    ensures
        cursor_after(source, scan(source, cursor).1, pulls) == cursor_after(
            source,
            cursor,
            pulls + 1,
        ),
    decreases pulls,
{
    if pulls == 0 {
        assert(cursor_after(source, cursor, 0) == cursor);
    } else {
        lemma_cursor_after_first_pull(source, cursor, (pulls - 1) as nat);
    }
}

/// Scanning ends: from any cursor, the pulls yield no more tokens before the
/// end-of-input token than characters are left.
pub proof fn lemma_token_count_bounded(source: Seq<char>, cursor: int)
    requires
        0 <= cursor <= source.len(),
    ensures
        tokens_from(source, cursor).len() <= source.len() - cursor,
    decreases source.len() - cursor,
{
    lemma_scan(source, cursor);
    let (token, next) = scan(source, cursor);
    if token.token_type != TokenType::EOF {
        lemma_token_count_bounded(source, next);
    }
}

/// A whole source text yields no more tokens before the end-of-input token than it
/// has characters.
pub proof fn lemma_tokens_at_most_chars(source: Seq<char>)
    ensures
        tokens_from(source, 0).len() <= source.len(),
{
    lemma_token_count_bounded(source, 0);
}

/// The pulls yield the tokens of `tokens_from` one by one, none of them the
/// end-of-input token, and the pull after the last of them yields the end-of-input
/// token. So the end of input is reached after at most as many pulls as characters
/// are left.
pub proof fn lemma_pulls_reach_end_of_input(source: Seq<char>, cursor: int)
    requires
        0 <= cursor <= source.len(),
    ensures
        tokens_from(source, cursor).len() <= source.len() - cursor,
        forall|i: nat|
            i < tokens_from(source, cursor).len() ==> #[trigger] token_after(source, cursor, i)
                == tokens_from(source, cursor)[i as int] && token_after(
                source,
                cursor,
                i,
            ).token_type != TokenType::EOF,
        token_after(source, cursor, tokens_from(source, cursor).len()) == eof_token(),
    decreases source.len() - cursor,
{
    lemma_scan(source, cursor);
    lemma_token_count_bounded(source, cursor);
    let (token, next) = scan(source, cursor);
    if token.token_type != TokenType::EOF {
        lemma_pulls_reach_end_of_input(source, next);
        let rest = tokens_from(source, next);
        assert forall|i: nat| i < tokens_from(source, cursor).len() implies #[trigger] token_after(
            source,
            cursor,
            i,
        ) == tokens_from(source, cursor)[i as int] && token_after(source, cursor, i).token_type
            != TokenType::EOF by {
            if i > 0 {
                lemma_cursor_after_first_pull(source, cursor, (i - 1) as nat);
                assert(token_after(source, cursor, i) == token_after(source, next, (i - 1) as nat));
            }
        }
        lemma_cursor_after_first_pull(source, cursor, rest.len());
    }
}

/// Once a pull has yielded the end-of-input token, the pull after it yields the same
/// token and leaves the cursor where it is.
pub proof fn lemma_end_of_input_is_fixed(source: Seq<char>, cursor: int)
    requires
        0 <= cursor <= source.len(),
        scan(source, cursor).0.token_type == TokenType::EOF,
    ensures
        scan(source, cursor) == (eof_token(), source.len() as int),
        scan(source, scan(source, cursor).1) == scan(source, cursor),
{
    lemma_scan(source, cursor);
}

/// Once a pull has yielded the end-of-input token, every later pull yields it again,
/// with the same text.
pub proof fn lemma_end_of_input_repeats(source: Seq<char>, cursor: int, first: nat, later: nat)
    requires
        0 <= cursor <= source.len(),
        first <= later,
        token_after(source, cursor, first).token_type == TokenType::EOF,
    ensures
        token_after(source, cursor, later) == token_after(source, cursor, first),
        token_after(source, cursor, later) == eof_token(),
    decreases later - first,
{
    lemma_cursor_after_in_bounds(source, cursor, first);
    if first < later {
        let before = (later - 1) as nat;
        lemma_end_of_input_repeats(source, cursor, first, before);
        lemma_cursor_after_in_bounds(source, cursor, before);
        lemma_end_of_input_is_fixed(source, cursor_after(source, cursor, before));
    } else {
        lemma_end_of_input_is_fixed(source, cursor_after(source, cursor, first));
    }
}

} // verus!
