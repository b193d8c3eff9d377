use vstd::prelude::*;

use crate::bytecode::Bytecode;
use crate::token::Token;

verus! {

/// Why a token sequence does not compile.
#[derive(Debug, Clone, Copy, PartialEq, Eq, Structural)]
pub enum CompileError {
    /// A `]` closes no open `[`, or a `[` is never closed.
    UnmatchedBracket,
}

/// The tokens of `t` that stand for an instruction, in order: `Space` is left out.
pub open spec fn without_space(t: Seq<Token>) -> Seq<Token>
    decreases t.len(),
{
    if t.len() == 0 {
        t
    } else {
        let rest = without_space(t.drop_last());
        if t.last() == Token::Space {
            rest
        } else {
            rest.push(t.last())
        }
    }
}

/// How a token changes the nesting depth.
pub open spec fn depth_change(t: Token) -> int {
    match t {
        Token::LeftSquareBracket => 1,
        Token::RightSquareBracket => -1,
        _ => 0,
    }
}

/// The nesting depth after the first `n` tokens: opened brackets less closed ones.
pub open spec fn balance(t: Seq<Token>, n: int) -> int
    decreases n,
{
    if n <= 0 {
        0
    } else {
        balance(t, n - 1) + depth_change(t[n - 1])
    }
}

/// Every `]` closes an open `[`, and every `[` is closed.
pub open spec fn well_bracketed(t: Seq<Token>) -> bool {
    &&& forall|k: int| 0 <= k <= t.len() ==> #[trigger] balance(t, k) >= 0
    &&& balance(t, t.len() as int) == 0
}

/// The `[` at `i` is still open after the first `n` tokens.
pub open spec fn open_until(t: Seq<Token>, i: int, n: int) -> bool {
    &&& 0 <= i < t.len()
    &&& t[i] == Token::LeftSquareBracket
    &&& forall|k: int| i <= k < n ==> #[trigger] balance(t, k + 1) > balance(t, i)
}

/// The `]` at `j` is the one that closes the `[` at `i`: the first token after
/// `i` at which the depth falls back to what it was before `i`.
pub open spec fn matching(t: Seq<Token>, i: int, j: int) -> bool {
    &&& 0 <= i < j < t.len()
    &&& t[j] == Token::RightSquareBracket
    &&& open_until(t, i, j)
    &&& balance(t, j + 1) == balance(t, i)
}

/// The instruction that a token other than a bracket or `Space` becomes.
pub open spec fn plain_code(t: Token) -> Option<Bytecode> {
    match t {
        Token::GreaterThan => Some(Bytecode::IncrementPointer),
        Token::LessThan => Some(Bytecode::DecrementPointer),
        Token::Plus => Some(Bytecode::IncrementValue),
        Token::Minus => Some(Bytecode::DecrementValue),
        Token::Dot => Some(Bytecode::OutputValue),
        Token::Comma => Some(Bytecode::InputValue),
        _ => None,
    }
}

/// `b` is the instruction that the token at `i` compiles to: a loop start jumps
/// to its matching `]`, a loop end to its matching `[`.
pub open spec fn compiled_at(t: Seq<Token>, i: int, b: Bytecode) -> bool {
    match b {
        Bytecode::LoopStart { jump_to } => t[i] == Token::LeftSquareBracket && matching(
            t,
            i,
            jump_to as int,
        ),
        Bytecode::LoopEnd { jump_to } => t[i] == Token::RightSquareBracket && matching(
            t,
            jump_to as int,
            i,
        ),
        _ => plain_code(t[i]) == Some(b),
    }
}

/// `code` is what the instruction tokens `t` compile to, one instruction per token.
pub open spec fn compiled(t: Seq<Token>, code: Seq<Bytecode>) -> bool {
    &&& code.len() == t.len()
    &&& forall|i: int| 0 <= i < t.len() ==> #[trigger] compiled_at(t, i, code[i])
}

/// Two `[` that are both open at one point and started at the same depth are one.
proof fn lemma_open_unique(t: Seq<Token>, a: int, b: int, n: int)
    requires
        open_until(t, a, n),
        open_until(t, b, n),
        a < n,
        b < n,
        balance(t, a) == balance(t, b),
    ensures
        a == b,
{
    if a < b {
        assert(balance(t, (b - 1) + 1) > balance(t, a));
    } else if b < a {
        assert(balance(t, (a - 1) + 1) > balance(t, b));
    }
}

/// Each loop start jumps to a loop end that jumps back to it, and each loop end
/// to a loop start that jumps back to it.
pub open spec fn jumps_paired(code: Seq<Bytecode>) -> bool {
    forall|i: int|
        0 <= i < code.len() ==> match #[trigger] code[i] {
            Bytecode::LoopStart { jump_to } => jump_to < code.len() && code[jump_to as int]
                == Bytecode::LoopEnd { jump_to: i as usize },
            Bytecode::LoopEnd { jump_to } => jump_to < code.len() && code[jump_to as int]
                == Bytecode::LoopStart { jump_to: i as usize },
            _ => true,
        }
}

/// Compiled code pairs its loop instructions: a loop start at `i` that jumps to
/// `j` has at `j` a loop end that jumps to `i`, and the other way round.
pub proof fn lemma_compiled_jumps_paired(t: Seq<Token>, code: Seq<Bytecode>)
    requires
        compiled(t, code),
    ensures
        jumps_paired(code),
{
    assert forall|i: int| 0 <= i < code.len() implies match #[trigger] code[i] {
        Bytecode::LoopStart { jump_to } => jump_to < code.len() && code[jump_to as int]
            == Bytecode::LoopEnd { jump_to: i as usize },
        Bytecode::LoopEnd { jump_to } => jump_to < code.len() && code[jump_to as int]
            == Bytecode::LoopStart { jump_to: i as usize },
        _ => true,
    } by {
        assert(compiled_at(t, i, code[i]));
        match code[i] {
            Bytecode::LoopStart { jump_to } => {
                let j = jump_to as int;
                assert(compiled_at(t, j, code[j]));
                if let Bytecode::LoopEnd { jump_to: k } = code[j] {
                    lemma_open_unique(t, i, k as int, j);
                }
            },
            Bytecode::LoopEnd { jump_to } => {
                let k = jump_to as int;
                assert(compiled_at(t, k, code[k]));
                if let Bytecode::LoopStart { jump_to: j2 } = code[k] {
                    let j2 = j2 as int;
                    if i < j2 {
                        assert(balance(t, i + 1) > balance(t, k));
                    } else if j2 < i {
                        assert(balance(t, j2 + 1) > balance(t, k));
                    }
                }
            },
            _ => {},
        }
    }
}

/// A token sequence compiles to one instruction sequence only.
pub proof fn lemma_compiled_unique(t: Seq<Token>, a: Seq<Bytecode>, b: Seq<Bytecode>)
    requires
        compiled(t, a),
        compiled(t, b),
    ensures
        a == b,
{
    assert forall|i: int| 0 <= i < a.len() implies a[i] == b[i] by {
        assert(compiled_at(t, i, a[i]));
        assert(compiled_at(t, i, b[i]));
        match (a[i], b[i]) {
            (Bytecode::LoopStart { jump_to: j1 }, Bytecode::LoopStart { jump_to: j2 }) => {
                let (j1, j2) = (j1 as int, j2 as int);
                if j1 < j2 {
                    assert(balance(t, j1 + 1) > balance(t, i));
                } else if j2 < j1 {
                    assert(balance(t, j2 + 1) > balance(t, i));
                }
            },
            (Bytecode::LoopEnd { jump_to: k1 }, Bytecode::LoopEnd { jump_to: k2 }) => {
                lemma_open_unique(t, k1 as int, k2 as int, i);
            },
            _ => {},
        }
    }
    assert(a == b);
}

fn plain_code_of(t: Token) -> (r: Option<Bytecode>)
    ensures
        r == plain_code(t),
{
    match t {
        Token::GreaterThan => Some(Bytecode::IncrementPointer),
        Token::LessThan => Some(Bytecode::DecrementPointer),
        Token::Plus => Some(Bytecode::IncrementValue),
        Token::Minus => Some(Bytecode::DecrementValue),
        Token::Dot => Some(Bytecode::OutputValue),
        Token::Comma => Some(Bytecode::InputValue),
        _ => None,
    }
}

/// The tokens of `input` that stand for an instruction, in order.
fn drop_space(input: Vec<Token>) -> (r: Vec<Token>)
    ensures
        r@ == without_space(input@),
        forall|k: int| 0 <= k < r@.len() ==> r@[k] != Token::Space,
{
    let mut out: Vec<Token> = Vec::new();
    let mut i: usize = 0;
    while i < input.len()
        invariant
            i <= input.len(),
            out@ == without_space(input@.subrange(0, i as int)),
            forall|k: int| 0 <= k < out@.len() ==> out@[k] != Token::Space,
        decreases input.len() - i,
    {
        proof {
            assert(input@.subrange(0, i + 1).drop_last() == input@.subrange(0, i as int));
        }
        let t = input[i];
        if t != Token::Space {
            out.push(t);
        }
        i = i + 1;
    }
    proof {
        assert(input@.subrange(0, input@.len() as int) == input@);
    }
    out
}

/// Turns tokens into instructions and resolves each loop bracket to its partner.
pub struct Compiler {
    loop_stack: Vec<usize>,
}

impl Compiler {
    pub fn new() -> Self {
        Self { loop_stack: Vec::new() }
    }

    /// Compiles `input`, skipping `Space`, into one instruction per remaining
    /// token. Succeeds exactly when the brackets are well nested; each loop
    /// instruction then holds the index of its partner.
    pub fn compile_bytecode(&mut self, input: Vec<Token>) -> (r: Result<
        Vec<Bytecode>,
        CompileError,
    >)
        ensures
            r is Ok <==> well_bracketed(without_space(input@)),
            r matches Ok(code) ==> compiled(without_space(input@), code@),
            r matches Err(e) ==> e == CompileError::UnmatchedBracket,
    {
        let t = drop_space(input);
        let n = t.len();
        let mut output: Vec<Bytecode> = Vec::new();
        self.loop_stack.clear();
        let mut i: usize = 0;
        while i < n
            invariant
                n == t.len(),
                t@ == without_space(input@),
                i <= n,
                forall|k: int| 0 <= k < n ==> t@[k] != Token::Space,
                output.len() == i,
                forall|k: int| 0 <= k <= i ==> #[trigger] balance(t@, k) >= 0,
                self.loop_stack@.len() == balance(t@, i as int),
                forall|s: int|
                    0 <= s < self.loop_stack@.len() ==> {
                        let p = #[trigger] self.loop_stack@[s] as int;
                        &&& p < i
                        &&& open_until(t@, p, i as int)
                        &&& balance(t@, p) == s
                    },
                forall|k: int|
                    0 <= k < i && !open_until(t@, k, i as int) ==> #[trigger] compiled_at(
                        t@,
                        k,
                        output@[k],
                    ),
            decreases n - i,
        {
            let ghost m = self.loop_stack@.len() as int;
            let ghost before = output@;
            let ghost old_stack = self.loop_stack@;
            let tok = t[i];
            assert(balance(t@, i + 1) == balance(t@, i as int) + depth_change(tok));
            match tok {
                Token::LeftSquareBracket => {
                    self.loop_stack.push(i);
                    output.push(Bytecode::LoopStart { jump_to: 0 });
                    assert forall|s: int| 0 <= s < self.loop_stack@.len() implies {
                        let p = #[trigger] self.loop_stack@[s] as int;
                        &&& p < i + 1
                        &&& open_until(t@, p, i + 1)
                        &&& balance(t@, p) == s
                    } by {
                        let p = self.loop_stack@[s] as int;
                        if s < m {
                            assert(open_until(t@, p, i as int));
                            assert forall|k: int| p <= k < i + 1 implies #[trigger] balance(
                                t@,
                                k + 1,
                            ) > balance(t@, p) by {
                                if k < i {
                                    assert(open_until(t@, p, i as int));
                                }
                            }
                        }
                    }
                    assert forall|k: int|
                        0 <= k < i + 1 && !open_until(t@, k, i + 1) implies #[trigger] compiled_at(
                        t@,
                        k,
                        output@[k],
                    ) by {
                        if k == i {
                            assert(open_until(t@, k, i + 1));
                        } else {
                            assert(output@[k] == before[k]);
                            if open_until(t@, k, i as int) {
                                assert(balance(t@, i as int) > balance(t@, k)) by {
                                    assert(balance(t@, (i - 1) + 1) > balance(t@, k));
                                }
                                assert(open_until(t@, k, i + 1));
                            }
                        }
                    }
                },
                Token::RightSquareBracket => {
                    if self.loop_stack.len() == 0 {
                        proof {
                            assert(balance(t@, i + 1) < 0);
                            assert(!well_bracketed(t@));
                        }
                        self.loop_stack.clear();
                        return Err(CompileError::UnmatchedBracket);
                    }
                    let loop_start = self.loop_stack.pop().unwrap();
                    proof {
                        assert(loop_start == old_stack[m - 1]);
                        assert(balance(t@, loop_start as int) == m - 1);
                    }
                    output.set(loop_start, Bytecode::LoopStart { jump_to: i });
                    output.push(Bytecode::LoopEnd { jump_to: loop_start });
                    let ghost p = loop_start as int;
                    assert(matching(t@, p, i as int));
                    assert forall|s: int| 0 <= s < self.loop_stack@.len() implies {
                        let q = #[trigger] self.loop_stack@[s] as int;
                        &&& q < i + 1
                        &&& open_until(t@, q, i + 1)
                        &&& balance(t@, q) == s
                    } by {
                        let q = self.loop_stack@[s] as int;
                        assert(self.loop_stack@[s] == old_stack[s]);
                        assert(open_until(t@, q, i as int));
                        assert forall|k: int| q <= k < i + 1 implies #[trigger] balance(
                            t@,
                            k + 1,
                        ) > balance(t@, q) by {
                            if k < i {
                                assert(open_until(t@, q, i as int));
                            }
                        }
                    }
                    assert forall|k: int|
                        0 <= k < i + 1 && !open_until(t@, k, i + 1) implies #[trigger] compiled_at(
                        t@,
                        k,
                        output@[k],
                    ) by {
                        if k != i && k != p {
                            assert(output@[k] == before[k]);
                            if open_until(t@, k, i as int) {
                                assert(balance(t@, i as int) > balance(t@, k)) by {
                                    assert(balance(t@, (i - 1) + 1) > balance(t@, k));
                                }
                                if balance(t@, k) == balance(t@, p) {
                                    lemma_open_unique(t@, k, p, i as int);
                                }
                                assert(open_until(t@, k, i + 1));
                            }
                        }
                    }
                },
                _ => {
                    assert(tok != Token::Space);
                    output.push(plain_code_of(tok).unwrap());
                    assert forall|s: int| 0 <= s < self.loop_stack@.len() implies {
                        let q = #[trigger] self.loop_stack@[s] as int;
                        &&& q < i + 1
                        &&& open_until(t@, q, i + 1)
                        &&& balance(t@, q) == s
                    } by {
                        let q = self.loop_stack@[s] as int;
                        assert(open_until(t@, q, i as int));
                        assert forall|k: int| q <= k < i + 1 implies #[trigger] balance(
                            t@,
                            k + 1,
                        ) > balance(t@, q) by {
                            if k < i {
                                assert(open_until(t@, q, i as int));
                            }
                        }
                    }
                    assert forall|k: int|
                        0 <= k < i + 1 && !open_until(t@, k, i + 1) implies #[trigger] compiled_at(
                        t@,
                        k,
                        output@[k],
                    ) by {
                        if k != i {
                            assert(output@[k] == before[k]);
                            if open_until(t@, k, i as int) {
                                assert(balance(t@, i as int) > balance(t@, k)) by {
                                    assert(balance(t@, (i - 1) + 1) > balance(t@, k));
                                }
                                assert(open_until(t@, k, i + 1));
                            }
                        }
                    }
                },
            }
            i = i + 1;
        }
        if self.loop_stack.len() != 0 {
            self.loop_stack.clear();
            return Err(CompileError::UnmatchedBracket);
        }
        proof {
            assert forall|k: int| 0 <= k < n implies #[trigger] compiled_at(t@, k, output@[k]) by {
                if open_until(t@, k, n as int) {
                    assert(balance(t@, (n - 1) + 1) > balance(t@, k));
                }
            }
        }
        Ok(output)
    }
}

} // verus!
