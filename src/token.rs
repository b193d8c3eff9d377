use vstd::prelude::*;

verus! {

/// One instruction character of a source text.
#[derive(Debug, Clone, Copy, PartialEq, Eq, Structural)]
pub enum Token {
    /// `<`
    LessThan,
    /// `>`
    GreaterThan,
    /// `+`
    Plus,
    /// `-`
    Minus,
    /// `.`
    Dot,
    /// `,`
    Comma,
    /// `[`
    LeftSquareBracket,
    /// `]`
    RightSquareBracket,
    /// Filler that stands for no instruction; the compiler skips it.
    Space,
}

} // verus!
