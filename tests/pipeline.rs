use brainfuck_rs::bytecode::Bytecode;
use brainfuck_rs::compiler::{CompileError, Compiler};
use brainfuck_rs::scanner::scan;
use brainfuck_rs::testing::test_helper;
use brainfuck_rs::token::Token;

#[test]
fn scan_codes() {
    assert_eq!(
        scan("<>+-<>+-"),
        vec![
            Token::LessThan,
            Token::GreaterThan,
            Token::Plus,
            Token::Minus,
            Token::LessThan,
            Token::GreaterThan,
            Token::Plus,
            Token::Minus
        ]
    );
}

#[test]
fn scan_drops_comments() {
    assert_eq!(
        scan("a+ b\n[c.,]é>"),
        vec![
            Token::Plus,
            Token::LeftSquareBracket,
            Token::Dot,
            Token::Comma,
            Token::RightSquareBracket,
            Token::GreaterThan
        ]
    );
    assert_eq!(scan(""), vec![]);
    assert_eq!(scan("no instructions here"), vec![]);
}

#[test]
fn token_to_bytescodes() {
    let mut compiler = Compiler::new();

    let input = vec![Token::GreaterThan, Token::LessThan, Token::Plus];
    let output = compiler.compile_bytecode(input);
    assert_eq!(
        output,
        Ok(vec![
            Bytecode::IncrementPointer,
            Bytecode::DecrementPointer,
            Bytecode::IncrementValue
        ])
    )
}

#[test]
fn compile_every_plain_token() {
    let mut compiler = Compiler::new();
    let input = vec![
        Token::GreaterThan,
        Token::LessThan,
        Token::Plus,
        Token::Minus,
        Token::Dot,
        Token::Comma,
    ];
    assert_eq!(
        compiler.compile_bytecode(input),
        Ok(vec![
            Bytecode::IncrementPointer,
            Bytecode::DecrementPointer,
            Bytecode::IncrementValue,
            Bytecode::DecrementValue,
            Bytecode::OutputValue,
            Bytecode::InputValue
        ])
    );
}

#[test]
fn compile_nested_loops_pair_up() {
    let mut compiler = Compiler::new();
    let input = vec![
        Token::LeftSquareBracket,
        Token::Plus,
        Token::LeftSquareBracket,
        Token::RightSquareBracket,
        Token::RightSquareBracket,
        Token::LeftSquareBracket,
        Token::RightSquareBracket,
    ];
    let code = compiler.compile_bytecode(input).unwrap();
    assert_eq!(
        code,
        vec![
            Bytecode::LoopStart { jump_to: 4 },
            Bytecode::IncrementValue,
            Bytecode::LoopStart { jump_to: 3 },
            Bytecode::LoopEnd { jump_to: 2 },
            Bytecode::LoopEnd { jump_to: 0 },
            Bytecode::LoopStart { jump_to: 6 },
            Bytecode::LoopEnd { jump_to: 5 }
        ]
    );
    for (i, b) in code.iter().enumerate() {
        match b {
            Bytecode::LoopStart { jump_to } => {
                assert_eq!(code[*jump_to], Bytecode::LoopEnd { jump_to: i })
            }
            Bytecode::LoopEnd { jump_to } => {
                assert_eq!(code[*jump_to], Bytecode::LoopStart { jump_to: i })
            }
            _ => {}
        }
    }
}

#[test]
fn compile_skips_space_and_counts_output_indices() {
    let mut compiler = Compiler::new();
    let input = vec![
        Token::Space,
        Token::LeftSquareBracket,
        Token::Space,
        Token::Space,
        Token::Minus,
        Token::RightSquareBracket,
    ];
    assert_eq!(
        compiler.compile_bytecode(input),
        Ok(vec![
            Bytecode::LoopStart { jump_to: 2 },
            Bytecode::DecrementValue,
            Bytecode::LoopEnd { jump_to: 0 }
        ])
    );
}

#[test]
fn compile_unmatched_closing_bracket() {
    let mut compiler = Compiler::new();
    assert_eq!(
        compiler.compile_bytecode(vec![Token::RightSquareBracket]),
        Err(CompileError::UnmatchedBracket)
    );
    assert_eq!(
        compiler.compile_bytecode(vec![
            Token::LeftSquareBracket,
            Token::RightSquareBracket,
            Token::RightSquareBracket,
            Token::LeftSquareBracket
        ]),
        Err(CompileError::UnmatchedBracket)
    );
}

#[test]
fn compile_unmatched_opening_bracket() {
    let mut compiler = Compiler::new();
    assert_eq!(
        compiler.compile_bytecode(vec![Token::LeftSquareBracket]),
        Err(CompileError::UnmatchedBracket)
    );
    // The compiler is usable again after a failure.
    assert_eq!(
        compiler.compile_bytecode(vec![Token::LeftSquareBracket, Token::RightSquareBracket]),
        Ok(vec![
            Bytecode::LoopStart { jump_to: 1 },
            Bytecode::LoopEnd { jump_to: 0 }
        ])
    );
}

#[test]
fn compile_empty() {
    let mut compiler = Compiler::new();
    assert_eq!(compiler.compile_bytecode(vec![]), Ok(vec![]));
}

#[test]
fn test_io() {
    let source = ",.";
    let input = Some("H");
    let output = Some("H");
    assert!(test_helper(source, input, output));
}

#[test]
fn basis_interpreter_test() {
    let source = "++++++++ [>++++++++++++>+++++++++++++<<-] >++++. -. >+++++++. <+. +.";
    let output = "dcode";
    assert!(test_helper(source, None, Some(output)));
}

#[test]
fn hello_world() {
    let source = "
>++++++++[-<+++++++++>]<.
>>+>-[+]++>++>+++[>[->+++<<+++>]<<]>-----.
>->+++..
+++.
>-.
<<+[>[+>+]>>]<--------------.
>>.
+++.
------.
--------.
>+.
>+.
";
    let output = "Hello World!\n";
    assert!(test_helper(source, None, Some(output)));
}

#[test]
fn hello_world_2() {
    let source = "
+[>[<->+[>+++>[+++++++++++>][]-[<]>
-]]++++++++++<]>>>>>>----.<<+++.<-.
.+++.<-.>>>.<<.+++.------.>-.<<+.<.
";
    let output = "Hello World!\n";
    assert!(test_helper(source, None, Some(output)));
}

#[test]
fn classic_hello_world() {
    let source = "++++++++[>++++[>++>+++>+++>+<<<<-]>+>+>->>+[<]<-]>>.>---.+++++++..+++.>>.<-.<.+++.------.--------.>>+.>++.";
    assert_eq!(source.chars().count(), 106);
    assert!(test_helper(source, None, Some("Hello World!\n")));
}

#[test]
fn input_exhaustion_keeps_cell() {
    assert!(test_helper(",,.", Some("A"), Some("A")));
    assert!(test_helper(",.,.", Some("A"), Some("AA")));
    assert!(test_helper(",.", None, Some("\u{0}")));
}

#[test]
fn helper_reports_wrong_output_and_bad_program() {
    assert!(!test_helper(",.", Some("H"), Some("I")));
    assert!(!test_helper(",.", Some("H"), Some("HH")));
    assert!(!test_helper("[", None, None));
    assert!(!test_helper("]", None, Some("")));
    assert!(test_helper("+[", None, None) == false);
    assert!(test_helper("+.", None, None));
}

#[test]
fn cell_wraps_through_program() {
    let up = "+".repeat(256) + ".";
    assert!(test_helper(&up, None, Some("\u{0}")));
    assert!(test_helper("-.", None, Some("\u{ff}")));
    assert!(test_helper("-+.", None, Some("\u{0}")));
}

#[test]
fn skipped_loop_and_looping() {
    // A loop on a zero cell is skipped entirely.
    assert!(test_helper("[.]+.", None, Some("\u{1}")));
    // Count down from 3, printing each value.
    assert!(test_helper("+++[.-]", None, Some("\u{3}\u{2}\u{1}")));
}
