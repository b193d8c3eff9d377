use vstd::prelude::*;

verus! {

/// A read found no more input.
#[derive(Debug, Clone, Copy, PartialEq, Eq, Structural)]
pub struct EndOfInput;

/// What an I/O capability shows to contracts: the characters that reads have
/// yet to hand out, and those handed to it for printing so far. A capability
/// that only prints has no pending input; one that only reads has printed
/// nothing.
pub trait Channel {
    /// The characters that the next reads return, in order.
    open spec fn pending(&self) -> Seq<char> {
        Seq::empty()
    }

    /// Every character printed so far, in order.
    open spec fn printed(&self) -> Seq<char> {
        Seq::empty()
    }
}

/// Takes one character at a time.
pub trait StdOut: Channel {
    fn print(&mut self, c: char)
        ensures
            final(self).printed() == old(self).printed().push(c),
            final(self).pending() == old(self).pending(),
    ;
}

/// Gives one character at a time, and fails once there is no more.
pub trait StdIn: Channel {
    fn read(&mut self) -> (r: Result<char, EndOfInput>)
        ensures
            old(self).pending().len() == 0 ==> r == Err::<char, EndOfInput>(EndOfInput)
                && final(self).pending() == old(self).pending(),
            old(self).pending().len() > 0 ==> r == Ok::<char, EndOfInput>(old(self).pending()[0])
                && final(self).pending() == old(self).pending().drop_first(),
            final(self).printed() == old(self).printed(),
    ;
}

/// A capability that both reads and prints.
pub trait StdInOut: StdIn + StdOut {

}

impl<T: StdIn + StdOut> StdInOut for T {

}

} // verus!
