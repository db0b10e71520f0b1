use asm8::parser::Parser;
use asm8::token::Token::{Comma, Illegal, Instruction, Num, Reg};

#[test]
fn pos() {
    let mut p = Parser::new("AH 123 AL add DH, 199 l \n inc CH");

    assert_eq!(Some(Reg("AH".into())), p.next());
    assert_eq!(Some(Num(123)), p.next());
    assert_eq!(Some(Reg("AL".into())), p.next());
    assert_eq!(
        Some(Instruction {
            name: "add".into(),
            left: Box::new(Reg("DH".into())),
            right: Some(Box::new(Num(199)))
        }),
        p.next()
    );
    assert_eq!(Some(Illegal), p.next());
    assert_eq!(
        Some(Instruction {
            name: "inc".into(),
            left: Box::new(Reg("CH".into())),
            right: None
        }),
        p.next()
    );
    assert_eq!(None, p.next());
}

#[test]
fn number_clamps_to_255() {
    assert_eq!(Some(Num(255)), Parser::new("300").next());
    assert_eq!(Some(Num(255)), Parser::new("256").next());
    assert_eq!(Some(Num(255)), Parser::new("255").next());
    assert_eq!(Some(Num(254)), Parser::new("254").next());
    assert_eq!(Some(Num(0)), Parser::new("0").next());
    assert_eq!(Some(Num(255)), Parser::new("1234567890123456789012345").next());
}

#[test]
fn mnemonics_are_case_insensitive() {
    assert_eq!(
        Some(Instruction {
            name: "MOV".into(),
            left: Box::new(Reg("AH".into())),
            right: Some(Box::new(Num(10)))
        }),
        Parser::new("MOV AH, 10").next()
    );
}

#[test]
fn register_names_are_case_sensitive() {
    // "ah" is neither a register name nor a mnemonic.
    assert_eq!(Some(Illegal), Parser::new("ah").next());
    assert_eq!(Some(Reg("AH".into())), Parser::new("AH").next());
}

#[test]
fn dangling_instruction_yields_end_of_input() {
    // A keyword with missing operands produces no token at all.
    assert_eq!(None, Parser::new("add").next());
    assert_eq!(None, Parser::new("add AH").next());
    assert_eq!(None, Parser::new("add AH,").next());
    assert_eq!(None, Parser::new("inc").next());
}

#[test]
fn missing_comma_yields_illegal() {
    assert_eq!(Some(Illegal), Parser::new("add AH 5").next());
}

#[test]
fn comma_and_symbols() {
    let mut p = Parser::new(", !");
    assert_eq!(Some(Comma), p.next());
    assert_eq!(Some(Illegal), p.next());
    assert_eq!(None, p.next());
}

#[test]
fn empty_input_has_no_tokens() {
    let mut p = Parser::new("");
    assert_eq!(None, p.next());
    assert_eq!(None, p.next());
    let mut w = Parser::new("   \t\n  ");
    assert_eq!(None, w.next());
}

#[test]
fn skip_whitespace_leaves_the_lookahead_one_past() {
    let mut p = Parser::new(" X");
    p.peek_pos = p.pos + 1; // the in-pull cursor shape
    p.skip_whitespace();
    assert_eq!(p.pos, 1);
    assert_eq!(p.peek_pos, 2);
    // The following pull starts at the lookahead, past the skipped-to byte.
    assert_eq!(None, p.next());
}

#[test]
fn read_helpers_leave_both_cursors_at_the_run_end() {
    let mut p = Parser::new("abc12 ");
    p.peek_pos = p.pos + 1;
    let w = p.read_literal();
    assert_eq!(w, b"abc".to_vec());
    assert_eq!(p.pos, 3);
    assert_eq!(p.peek_pos, 3);
    p.pos = p.peek_pos;
    p.peek_pos = p.pos + 1;
    let d = p.read_int();
    assert_eq!(d, b"12".to_vec());
    assert_eq!(p.pos, 5);
    assert_eq!(p.peek_pos, 5);
}

#[test]
fn nested_instruction_as_operand() {
    // The left operand is pulled recursively, so it may itself be an
    // instruction token.
    let mut p = Parser::new("add inc AH, 2");
    assert_eq!(
        Some(Instruction {
            name: "add".into(),
            left: Box::new(Instruction {
                name: "inc".into(),
                left: Box::new(Reg("AH".into())),
                right: None
            }),
            right: Some(Box::new(Num(2)))
        }),
        p.next()
    );
}
