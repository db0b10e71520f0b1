use asm8::cpu::{Cpu, EvalError};
use asm8::parser::Parser;
use asm8::register::Register;
use asm8::register::Register::{AH, AL, BH, BL, CH, CL, DH, DL};
use asm8::token::Token;

#[test]
fn cpu_default() {
    let cpu = Cpu::default();

    let regs = [AH(0), AL(0), BH(0), BL(0), CH(0), CL(0), DH(0), DL(0)];

    for (f, s) in regs.iter().zip(cpu.registers) {
        assert_eq!(f.to_owned(), s);
    }
}

#[test]
fn cpu_instructions() {
    let str = r#"
        MOV AH, 10
    "#;

    let parser = Parser::new(str);
    let mut cpu = Cpu::new(parser);

    cpu.run().unwrap();

    println!("{}", cpu.registers_str());
}

#[test]
fn mov_immediate_round_trip() {
    let mut cpu = Cpu::from_str("MOV AH, 10");
    cpu.run().unwrap();
    assert_eq!(cpu.get_reg(b"AH"), AH(10));
    for name in [b"AL", b"BH", b"BL", b"CH", b"CL", b"DH", b"DL"] {
        assert_eq!(cpu.get_reg(name).extract(), 0);
    }
}

#[test]
fn xchg_swaps_payloads_and_keeps_tags() {
    let mut cpu = Cpu::from_str("mov BL,5\nmov CL,9\nxchg BL, CL");
    cpu.run().unwrap();
    assert_eq!(cpu.get_reg(b"BL"), BL(9));
    assert_eq!(cpu.get_reg(b"CL"), CL(5));
}

#[test]
fn unary_on_initial_bank() {
    let mut cpu = Cpu::from_str("INC DH");
    cpu.run().unwrap();
    assert_eq!(cpu.get_reg(b"DH"), DH(1));

    let mut cpu = Cpu::from_str("DEC AL");
    cpu.run().unwrap();
    assert_eq!(cpu.get_reg(b"AL"), AL(0));
}

#[test]
fn unknown_word_keeps_bank_and_recovers() {
    // "FOO" is no mnemonic: the scanner yields an illegal token, the run
    // reports a recoverable error, nothing panics, and the bank is untouched.
    let mut cpu = Cpu::from_str("FOO AH, 1");
    let r = cpu.run();
    assert_eq!(r, Err(EvalError::StructuralError));
    assert_eq!(cpu.registers_str(), Cpu::default().registers_str());
}

#[test]
fn unknown_mnemonic_token_is_a_no_op() {
    // Fed to the evaluator directly, an instruction token with an
    // unrecognized name is skipped without error.
    let mut cpu = Cpu::default();
    let tok = Token::Instruction {
        name: "foo".into(),
        left: Box::new(Token::Reg("AH".into())),
        right: Some(Box::new(Token::Num(1))),
    };
    assert_eq!(cpu.eval(tok), Ok(()));
    assert_eq!(cpu.registers_str(), Cpu::default().registers_str());
}

#[test]
fn default_display() {
    let cpu = Cpu::default();
    assert_eq!(
        cpu.registers_str(),
        "AH 0\nAL 0\nBH 0\nBL 0\nCH 0\nCL 0\nDH 0\nDL 0"
    );
}

#[test]
fn empty_program_is_a_no_op() {
    let mut cpu = Cpu::from_str("");
    assert_eq!(cpu.run(), Ok(()));
    for name in [b"AH", b"AL", b"BH", b"BL", b"CH", b"CL", b"DH", b"DL"] {
        assert_eq!(cpu.get_reg(name).extract(), 0);
    }
    assert_eq!(cpu.registers_str(), Cpu::default().registers_str());
}

#[test]
fn saturating_program_arithmetic() {
    let mut cpu = Cpu::from_str("mov AH, 200\nadd AH, 100");
    cpu.run().unwrap();
    assert_eq!(cpu.get_reg(b"AH"), AH(255));

    let mut cpu = Cpu::from_str("mov BH, 5\nsub BH, 9");
    cpu.run().unwrap();
    assert_eq!(cpu.get_reg(b"BH"), BH(0));

    let mut cpu = Cpu::from_str("mov CH, 9\ndiv CH, 2");
    cpu.run().unwrap();
    assert_eq!(cpu.get_reg(b"CH"), CH(4));

    let mut cpu = Cpu::from_str("mov CL, 9\ndiv CL, 0");
    cpu.run().unwrap();
    assert_eq!(cpu.get_reg(b"CL"), CL(0));
}

#[test]
fn register_operands_read_the_bank() {
    let mut cpu = Cpu::from_str("mov AH, 7\nmov AL, 3\nadd AH, AL");
    cpu.run().unwrap();
    assert_eq!(cpu.get_reg(b"AH"), AH(10));
    assert_eq!(cpu.get_reg(b"AL"), AL(3));
}

#[test]
fn mov_register_copies_the_whole_register() {
    // Register-to-register mov moves the source's name into the destination
    // slot along with the payload.
    let mut cpu = Cpu::from_str("mov BL, 5\nmov AH, BL");
    cpu.run().unwrap();
    assert_eq!(cpu.get_reg(b"AH"), BL(5));
}

#[test]
fn xchg_with_immediate_is_malformed() {
    let mut cpu = Cpu::from_str("xchg AH, 5");
    assert_eq!(cpu.run(), Err(EvalError::MalformedOperand));
}

#[test]
fn bare_number_is_a_structural_error() {
    let mut cpu = Cpu::from_str("5");
    assert_eq!(cpu.run(), Err(EvalError::StructuralError));
}

#[test]
fn set_reg_rejects_unknown_names() {
    let mut cpu = Cpu::default();
    assert_eq!(
        cpu.set_reg(b"ZZ", Register::AH(1)),
        Err(EvalError::UnrecognizedRegisterName)
    );
    assert_eq!(cpu.set_reg(b"BH", Register::BH(7)), Ok(()));
    assert_eq!(cpu.get_reg(b"BH"), BH(7));
}

#[test]
fn run_stops_at_first_error_keeping_mutations() {
    let mut cpu = Cpu::from_str("mov AH, 4\n5\nmov AL, 6");
    assert_eq!(cpu.run(), Err(EvalError::StructuralError));
    assert_eq!(cpu.get_reg(b"AH"), AH(4));
    assert_eq!(cpu.get_reg(b"AL"), AL(0));
}
