use vstd::prelude::*;

use crate::token::Token;

verus! {

/// The token that a character stands for, if it is an instruction character.
pub open spec fn token_of(c: char) -> Option<Token> {
    match c {
        '>' => Some(Token::GreaterThan),
        '<' => Some(Token::LessThan),
        '+' => Some(Token::Plus),
        '-' => Some(Token::Minus),
        '.' => Some(Token::Dot),
        ',' => Some(Token::Comma),
        '[' => Some(Token::LeftSquareBracket),
        ']' => Some(Token::RightSquareBracket),
        _ => None,
    }
}

/// The tokens of the instruction characters of `s`, in order; every other
/// character is left out.
pub open spec fn scan_spec(s: Seq<char>) -> Seq<Token>
    decreases s.len(),
{
    if s.len() == 0 {
        Seq::empty()
    } else {
        let rest = scan_spec(s.drop_last());
        match token_of(s.last()) {
            Some(t) => rest.push(t),
            None => rest,
        }
    }
}

fn token_for(c: char) -> (r: Option<Token>)
    ensures
        r == token_of(c),
{
    match c {
        '>' => Some(Token::GreaterThan),
        '<' => Some(Token::LessThan),
        '+' => Some(Token::Plus),
        '-' => Some(Token::Minus),
        '.' => Some(Token::Dot),
        ',' => Some(Token::Comma),
        '[' => Some(Token::LeftSquareBracket),
        ']' => Some(Token::RightSquareBracket),
        _ => None,
    }
}

/// Turns source text into the tokens of its instruction characters, in order.
/// Every other character is a comment and is dropped; scanning never fails.
pub fn scan(input: &str) -> (r: Vec<Token>)
    ensures
        r@ == scan_spec(input@),
{
    let mut out: Vec<Token> = Vec::new();
    for c in it: input.chars()
        invariant
            it.seq() == input@,
            out@ == scan_spec(input@.subrange(0, it.index() as int)),
    {
        let ghost i = it.index() as int;
        proof {
            assert(input@.subrange(0, i + 1).drop_last() == input@.subrange(0, i));
        }
        match token_for(c) {
            Some(t) => out.push(t),
            None => {},
        }
    }
    proof {
        assert(input@.subrange(0, input@.len() as int) == input@);
    }
    out
}

} // verus!
