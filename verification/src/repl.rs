//! What the interactive loop decides and computes. Reading lines and printing are
//! left to the caller.

use vstd::prelude::*;
use crate::grammar::{lemma_scan, lemma_token_count_bounded, scan, tokens_from};
use crate::lexer::Lexer;
use crate::token::{Token, TokenType, TokenView};

verus! {

/// The marker that is shown before each line is read.
pub const PROMPT: &'static str = "> ";

/// What the loop does after an attempt to read a line.
#[derive(Debug)]
pub enum Reaction {
    /// Show these tokens, one by one, then prompt again.
    Show(Vec<Token>),
    /// Leave the loop. Nothing is reported.
    Quit,
}

/// The tokens of `tokens` as they stand in contracts, in the same order.
pub open spec fn token_views(tokens: Seq<Token>) -> Seq<TokenView> {
    tokens.map_values(|token: Token| token@)
}

/// Decides what follows an attempt to read a line. `read` is the number of bytes
/// that were read, or `None` where reading failed; at the end of the input stream
/// nothing is read. The loop is left on a failure and at the end of the stream.
/// Otherwise `line` is scanned on its own, with no state kept from earlier lines.
pub fn react(read: Option<usize>, line: String) -> (reaction: Reaction)
    ensures
        match reaction {
            Reaction::Quit => read is None || read == Some(0usize),
            Reaction::Show(tokens) => {
                &&& read is Some
                &&& read != Some(0usize)
                &&& token_views(tokens@) == tokens_from(line@, 0)
                &&& tokens.len() <= line@.len()
            },
        },
{
    match read {
        None => Reaction::Quit,
        Some(0) => Reaction::Quit,
        Some(_) => Reaction::Show(scan_line(line)),
    }
}

/// Scans one line with a scanner of its own and returns the tokens in front of the
/// end-of-input token, in the order in which they are pulled. There are never more
/// of them than the line has characters.
pub fn scan_line(line: String) -> (tokens: Vec<Token>)
    ensures
        token_views(tokens@) == tokens_from(line@, 0),
        tokens.len() <= line@.len(),
{
    let ghost source = line@;
    let mut lexer = Lexer::new(line);
    let mut tokens: Vec<Token> = Vec::new();
    let ghost mut cursor: int = 0;
    let mut token = lexer.next_token();
    while token.token_type != TokenType::EOF
        invariant
            lexer.wf(),
            lexer@.input == source,
            0 <= cursor <= source.len(),
            (token@, lexer@.position) == scan(source, cursor),
            tokens_from(source, 0) == token_views(tokens@) + tokens_from(source, cursor),
        decreases source.len() - cursor,
    {
        proof {
            lemma_scan(source, cursor);
            assert(token_views(tokens@.push(token)) =~= token_views(tokens@).push(token@));
            assert(token_views(tokens@) + (seq![token@] + tokens_from(source, lexer@.position))
                =~= token_views(tokens@).push(token@) + tokens_from(source, lexer@.position));
            cursor = lexer@.position;
        }
        tokens.push(token);
        token = lexer.next_token();
    }
    proof {
        assert(token_views(tokens@) + Seq::<TokenView>::empty() =~= token_views(tokens@));
        lemma_token_count_bounded(source, 0);
        assert(token_views(tokens@).len() == tokens@.len());
    }
    tokens
}

} // verus!
