//! The evaluator and register bank: consumes parsed instructions one at a
//! time, resolves operands, dispatches to the register operations, and
//! renders the canonical dump.

use vstd::prelude::*;
use vstd::string::StringSliceAdditionalSpecFns;

use crate::parser::{
    clamp_to, scan_tok, spec_mnemonic, is_unary, parse_mnemonic, Mnemonic, Parser,
};
use crate::register::{
    div_val, is_reg_name, reg_idx, reg_index_of, sat_add_val, sat_mul_val, sat_sub_val, Register,
};
use crate::token::{right_view, Token, TokenView};

verus! {

/// The recoverable failures of evaluation. `UnrecognizedRegisterName` arises
/// where text names no register but one must be read or written;
/// `MalformedOperand` where a right operand is absent or of the wrong kind;
/// `StructuralError` where the left operand is no register mention, or a
/// non-instruction token reaches the evaluator's top level.
#[derive(Debug, Clone, Copy, PartialEq, Eq, Structural)]
pub enum EvalError {
    UnrecognizedRegisterName,
    MalformedOperand,
    StructuralError,
}

/// The canonical initial bank: the eight registers in display order, each
/// with payload 0.
pub open spec fn initial_registers() -> Seq<Register> {
    seq![
        Register::AH(0),
        Register::AL(0),
        Register::BH(0),
        Register::BL(0),
        Register::CH(0),
        Register::CL(0),
        Register::DH(0),
        Register::DL(0),
    ]
}

/// The value a binary instruction writes back: the current payload `a`
/// combined with the resolved right operand `b`.
pub open spec fn binop_val(m: Mnemonic, a: u8, b: u8) -> u8 {
    match m {
        Mnemonic::Add => sat_add_val(a, b),
        Mnemonic::Sub => sat_sub_val(a, b),
        Mnemonic::Mul => sat_mul_val(a, b),
        Mnemonic::Div => div_val(a, b),
        Mnemonic::And => a & b,
        Mnemonic::Or => a | b,
        Mnemonic::Xor => a ^ b,
        _ => a,
    }
}

/// Resolves a binary instruction's right operand against the bank:
/// an immediate is taken as is, a register mention is read from its slot
/// (failing on an unknown name), anything else is malformed, and an absent
/// operand is a wrong number of arguments.
pub open spec fn resolve_right(regs: Seq<Register>, right: Option<Box<TokenView>>) -> Result<
    u8,
    EvalError,
> {
    match right {
        None => Err(EvalError::MalformedOperand),
        Some(t) => match *t {
            TokenView::Num(n) => Ok(n),
            TokenView::Reg(rname) => if is_reg_name(rname) {
                Ok(regs[reg_idx(rname)].val())
            } else {
                Err(EvalError::UnrecognizedRegisterName)
            },
            _ => Err(EvalError::MalformedOperand),
        },
    }
}

/// The bank after one instruction, with the error if it failed.
pub struct EvalOutcome {
    pub regs: Seq<Register>,
    pub err: Option<EvalError>,
}

/// One step of the evaluator on a bank of eight registers. A non-instruction
/// token, or a left operand that is no register mention, is a structural
/// error. A recognized mnemonic dispatches to the register operation; an
/// unrecognized one is a deliberate no-op. Every failing step leaves the bank
/// unchanged. Register-to-register `mov` copies the whole source register
/// into the destination slot, name included, as the instruction set defines
/// it.
pub open spec fn eval_spec(regs: Seq<Register>, t: TokenView) -> EvalOutcome {
    match t {
        TokenView::Instruction { name, left, right } => match *left {
            TokenView::Reg(lname) => match spec_mnemonic(name) {
                None => EvalOutcome { regs, err: None },
                Some(m) => {
                    if is_unary(m) {
                        if is_reg_name(lname) {
                            let li = reg_idx(lname);
                            let cur = regs[li];
                            let nv = match m {
                                Mnemonic::Not => cur.with_val(!cur.val()),
                                Mnemonic::Inc => cur.with_val(sat_add_val(cur.val(), 1)),
                                _ => cur.with_val(sat_sub_val(cur.val(), 1)),
                            };
                            EvalOutcome { regs: regs.update(li, nv), err: None }
                        } else {
                            EvalOutcome { regs, err: Some(EvalError::UnrecognizedRegisterName) }
                        }
                    } else if m == Mnemonic::Xchg {
                        if !is_reg_name(lname) {
                            EvalOutcome { regs, err: Some(EvalError::UnrecognizedRegisterName) }
                        } else {
                            match right {
                                None => EvalOutcome {
                                    regs,
                                    err: Some(EvalError::MalformedOperand),
                                },
                                Some(bt) => match *bt {
                                    TokenView::Reg(rname) => if is_reg_name(rname) {
                                        let li = reg_idx(lname);
                                        let ri = reg_idx(rname);
                                        let a = regs.update(li, regs[li].with_val(regs[ri].val()));
                                        let b = a.update(ri, a[ri].with_val(regs[li].val()));
                                        EvalOutcome { regs: b, err: None }
                                    } else {
                                        EvalOutcome {
                                            regs,
                                            err: Some(EvalError::UnrecognizedRegisterName),
                                        }
                                    },
                                    _ => EvalOutcome {
                                        regs,
                                        err: Some(EvalError::MalformedOperand),
                                    },
                                },
                            }
                        }
                    } else if m == Mnemonic::Mov {
                        match right {
                            None => EvalOutcome { regs, err: Some(EvalError::MalformedOperand) },
                            Some(bt) => match *bt {
                                TokenView::Num(n) => if is_reg_name(lname) {
                                    let li = reg_idx(lname);
                                    EvalOutcome {
                                        regs: regs.update(li, regs[li].with_val(n)),
                                        err: None,
                                    }
                                } else {
                                    EvalOutcome {
                                        regs,
                                        err: Some(EvalError::UnrecognizedRegisterName),
                                    }
                                },
                                TokenView::Reg(rname) => if is_reg_name(rname) && is_reg_name(
                                    lname,
                                ) {
                                    EvalOutcome {
                                        regs: regs.update(reg_idx(lname), regs[reg_idx(rname)]),
                                        err: None,
                                    }
                                } else {
                                    EvalOutcome {
                                        regs,
                                        err: Some(EvalError::UnrecognizedRegisterName),
                                    }
                                },
                                _ => EvalOutcome { regs, err: Some(EvalError::MalformedOperand) },
                            },
                        }
                    } else {
                        match resolve_right(regs, right) {
                            Err(e) => EvalOutcome { regs, err: Some(e) },
                            Ok(b) => if is_reg_name(lname) {
                                let li = reg_idx(lname);
                                EvalOutcome {
                                    regs: regs.update(
                                        li,
                                        regs[li].with_val(binop_val(m, regs[li].val(), b)),
                                    ),
                                    err: None,
                                }
                            } else {
                                EvalOutcome {
                                    regs,
                                    err: Some(EvalError::UnrecognizedRegisterName),
                                }
                            },
                        }
                    }
                },
            },
            _ => EvalOutcome { regs, err: Some(EvalError::StructuralError) },
        },
        _ => EvalOutcome { regs, err: Some(EvalError::StructuralError) },
    }
}

/// The bank and error after running a whole program from lookahead cursor
/// `start`: tokens are pulled and applied one at a time until the input is
/// exhausted or a step fails; the first failure stops the run and keeps the
/// mutations already applied. `pos` and `peek` are the scanner's cursors when
/// the run stops. As in [`scan_tok`], the `clamp_to` bound is exact and only
/// keeps the recursion visibly well-founded.
pub struct RunOutcome {
    pub regs: Seq<Register>,
    pub err: Option<EvalError>,
    pub pos: nat,
    pub peek: nat,
}

/// See [`RunOutcome`].
pub open spec fn run_from(s: Seq<u8>, start: nat, regs: Seq<Register>) -> RunOutcome
    decreases s.len() + 1 - start,
        via run_from_decreases
{
    let sc = scan_tok(s, start);
    match sc.tok {
        None => RunOutcome { regs, err: None, pos: sc.pos, peek: sc.peek },
        Some(t) => {
            let o = eval_spec(regs, t);
            match o.err {
                Some(e) => RunOutcome { regs: o.regs, err: Some(e), pos: sc.pos, peek: sc.peek },
                None => run_from(s, clamp_to(sc.peek, (start + 1) as nat, s.len()), o.regs),
            }
        },
    }
}

#[via_fn]
proof fn run_from_decreases(s: Seq<u8>, start: nat, regs: Seq<Register>) {
    crate::parser::lemma_skip_ws_bounds(s, start);
}

/// Evaluating an empty program is a no-op: no token is pulled, no error
/// arises, and every register keeps its value, so the dump afterwards equals
/// that of a fresh bank.
pub proof fn lemma_empty_program_noop(regs: Seq<Register>)
    ensures
        run_from(Seq::<u8>::empty(), 0, regs).err is None,
        run_from(Seq::<u8>::empty(), 0, regs).regs == regs,
{
    assert(crate::parser::skip_ws(Seq::<u8>::empty(), 0) == 0);
    assert(scan_tok(Seq::<u8>::empty(), 0).tok is None);
}

/// The decimal digits of `n`, most significant first.
pub open spec fn dec_bytes(n: nat) -> Seq<u8>
    decreases n,
{
    if n < 10 {
        seq![(48 + n) as u8]
    } else {
        dec_bytes(n / 10).push((48 + n % 10) as u8)
    }
}

/// One dump line: the register's name, a space, and its payload in decimal.
pub open spec fn reg_line(r: Register) -> Seq<u8> {
    r.name_bytes() + seq![32u8] + dec_bytes(r.val() as nat)
}

/// The canonical dump of a bank: one line per register in bank order, joined
/// by line feeds, with no trailing line feed.
pub open spec fn display_bytes(regs: Seq<Register>) -> Seq<u8>
    decreases regs.len(),
{
    if regs.len() == 0 {
        Seq::empty()
    } else if regs.len() == 1 {
        reg_line(regs[0])
    } else {
        display_bytes(regs.drop_last()) + seq![10u8] + reg_line(regs.last())
    }
}

/// The characters spelled by a sequence of ASCII bytes.
pub open spec fn ascii_chars(bs: Seq<u8>) -> Seq<char> {
    Seq::new(bs.len(), |i: int| bs[i] as char)
}

/// Relies on `String::from_utf8`: ASCII bytes are valid UTF-8 and decode to
/// exactly one character per byte, with the same code point.
#[verifier::external_body]
fn string_from_ascii(bytes: Vec<u8>) -> (r: String)
    requires
        forall|i: int| 0 <= i < bytes@.len() ==> bytes@[i] < 128,
    ensures
        r@ == ascii_chars(bytes@),
{
    String::from_utf8(bytes).unwrap_or_default()
}

/// Appends the decimal digits of `v` to `out`.
fn push_value(out: &mut Vec<u8>, v: u8)
    ensures
        final(out)@ == old(out)@ + dec_bytes(v as nat),
        forall|k: int|
            old(out)@.len() <= k < final(out)@.len() ==> 48 <= #[trigger] final(out)@[k] <= 57,
{
    if v >= 100 {
        let t = v / 10;
        out.push(48 + t / 10);
        out.push(48 + t % 10);
        out.push(48 + v % 10);
        proof {
            assert(dec_bytes((v as nat / 10) / 10) =~= seq![(48 + (v as nat / 10) / 10) as u8]);
            assert(dec_bytes(v as nat / 10) =~= seq![
                (48 + (v as nat / 10) / 10) as u8,
                (48 + (v as nat / 10) % 10) as u8,
            ]);
            assert(dec_bytes(v as nat) =~= seq![
                (48 + (v as nat / 10) / 10) as u8,
                (48 + (v as nat / 10) % 10) as u8,
                (48 + v as nat % 10) as u8,
            ]);
        }
    } else if v >= 10 {
        out.push(48 + v / 10);
        out.push(48 + v % 10);
        proof {
            assert(dec_bytes(v as nat / 10) =~= seq![(48 + v as nat / 10) as u8]);
            assert(dec_bytes(v as nat) =~= seq![
                (48 + v as nat / 10) as u8,
                (48 + v as nat % 10) as u8,
            ]);
        }
    } else {
        out.push(48 + v);
    }
    proof {
        assert(final(out)@ =~= old(out)@ + dec_bytes(v as nat));
    }
}

/// The machine's visible state: the bank of eight registers and the scanner
/// over the program text.
pub struct Cpu {
    pub registers: Vec<Register>,
    pub parser: Parser,
}

impl Cpu {
    /// The bank holds exactly eight registers and the scanner's cursors are
    /// inside its buffer.
    pub open spec fn wf(self) -> bool {
        self.registers@.len() == 8 && self.parser.wf()
    }

    /// A fresh zeroed bank pulling from the scanner `p`.
    pub fn new(p: Parser) -> (c: Cpu)
        requires
            p.wf(),
        ensures
            c.wf(),
            c.registers@ == initial_registers(),
            c.parser == p,
    {
        let mut registers: Vec<Register> = Vec::new();
        registers.push(Register::AH(0));
        registers.push(Register::AL(0));
        registers.push(Register::BH(0));
        registers.push(Register::BL(0));
        registers.push(Register::CH(0));
        registers.push(Register::CL(0));
        registers.push(Register::DH(0));
        registers.push(Register::DL(0));
        proof {
            assert(registers@ =~= initial_registers());
        }
        Cpu { registers, parser: p }
    }

    /// A fresh machine over the program text `s`.
    pub fn from_str(s: &str) -> (c: Cpu)
        ensures
            c.wf(),
            c.registers@ == initial_registers(),
            c.parser.contents@ == s.spec_bytes(),
            c.parser.pos == 0,
            c.parser.peek_pos == 0,
    {
        Cpu::new(Parser::new(s))
    }

    /// Reads the register named by `name`. Only the eight canonical names
    /// ever reach this lookup: an unknown name is a programming error, ruled
    /// out by the precondition.
    pub fn get_reg(&self, name: &[u8]) -> (r: Register)
        requires
            self.wf(),
            is_reg_name(name@),
        ensures
            r == self.registers@[reg_idx(name@)],
    {
        match reg_index_of(name) {
            Some(i) => self.registers[i],
            None => vstd::pervasive::unreached(),
        }
    }

    /// Replaces the register at `name`, failing on an unknown name — that
    /// path is user-reachable, since names originate from parsed text.
    pub fn set_reg(&mut self, name: &[u8], val: Register) -> (r: Result<(), EvalError>)
        requires
            old(self).wf(),
        ensures
            final(self).wf(),
            final(self).parser == old(self).parser,
            is_reg_name(name@) ==> r is Ok && final(self).registers@ == old(
                self,
            ).registers@.update(reg_idx(name@), val),
            !is_reg_name(name@) ==> r == Err::<(), EvalError>(
                EvalError::UnrecognizedRegisterName,
            ) && final(self).registers@ == old(self).registers@,
    {
        match reg_index_of(name) {
            Some(i) => {
                self.registers[i] = val;
                Ok(())
            },
            None => Err(EvalError::UnrecognizedRegisterName),
        }
    }

    /// Resolves a binary instruction's right operand, immediate first, then
    /// register.
    fn right_value(&self, right: &Option<Box<Token>>) -> (r: Result<u8, EvalError>)
        requires
            self.wf(),
        ensures
            r == resolve_right(self.registers@, right_view(*right)),
    {
        match right {
            None => Err(EvalError::MalformedOperand),
            Some(b) => match &**b {
                Token::Num(n) => Ok(*n),
                Token::Reg(rn) => match reg_index_of(rn.as_slice()) {
                    Some(ri) => Ok(self.registers[ri].extract()),
                    None => Err(EvalError::UnrecognizedRegisterName),
                },
                Token::Comma => Err(EvalError::MalformedOperand),
                Token::Instruction { .. } => Err(EvalError::MalformedOperand),
                Token::Illegal => Err(EvalError::MalformedOperand),
            },
        }
    }

    /// Applies one parsed token to the bank, as [`eval_spec`] lays it down.
    /// An unrecognized mnemonic is deliberately non-fatal: the instruction is
    /// skipped and evaluation can continue.
    pub fn eval(&mut self, cmd: Token) -> (r: Result<(), EvalError>)
        requires
            old(self).wf(),
        ensures
            final(self).wf(),
            final(self).parser == old(self).parser,
            ({
                let o = eval_spec(old(self).registers@, cmd@);
                &&& final(self).registers@ == o.regs
                &&& match r {
                    Ok(_) => o.err is None,
                    Err(e) => o.err == Some(e),
                }
            }),
    {
        proof {
            reveal_with_fuel(Token::deep, 3);
        }
        match cmd {
            Token::Instruction { name, left, right } => {
                let lname = match *left {
                    Token::Reg(n) => n,
                    Token::Comma => return Err(EvalError::StructuralError),
                    Token::Instruction { .. } => return Err(EvalError::StructuralError),
                    Token::Num(_) => return Err(EvalError::StructuralError),
                    Token::Illegal => return Err(EvalError::StructuralError),
                };
                let m = match parse_mnemonic(name.as_slice()) {
                    // An unrecognized mnemonic is skipped silently: no
                    // diagnostic is surfaced, so a caller cannot tell the
                    // skip from a performed instruction.
                    None => return Ok(()),
                    Some(m) => m,
                };
                match m {
                    Mnemonic::Not => {
                        let li = match reg_index_of(lname.as_slice()) {
                            Some(i) => i,
                            None => return Err(EvalError::UnrecognizedRegisterName),
                        };
                        let cur = self.registers[li];
                        self.registers[li] = cur.bit_not();
                        Ok(())
                    },
                    Mnemonic::Inc => {
                        let li = match reg_index_of(lname.as_slice()) {
                            Some(i) => i,
                            None => return Err(EvalError::UnrecognizedRegisterName),
                        };
                        let cur = self.registers[li];
                        self.registers[li] = cur.inc();
                        Ok(())
                    },
                    Mnemonic::Dec => {
                        let li = match reg_index_of(lname.as_slice()) {
                            Some(i) => i,
                            None => return Err(EvalError::UnrecognizedRegisterName),
                        };
                        let cur = self.registers[li];
                        self.registers[li] = cur.dec();
                        Ok(())
                    },
                    Mnemonic::Xchg => {
                        let li = match reg_index_of(lname.as_slice()) {
                            Some(i) => i,
                            None => return Err(EvalError::UnrecognizedRegisterName),
                        };
                        let ri = match &right {
                            None => return Err(EvalError::MalformedOperand),
                            Some(b) => match &**b {
                                Token::Reg(rn) => match reg_index_of(rn.as_slice()) {
                                    Some(ri) => ri,
                                    None => return Err(EvalError::UnrecognizedRegisterName),
                                },
                                Token::Num(_) => return Err(EvalError::MalformedOperand),
                                Token::Comma => return Err(EvalError::MalformedOperand),
                                Token::Instruction { .. } => return Err(
                                    EvalError::MalformedOperand,
                                ),
                                Token::Illegal => return Err(EvalError::MalformedOperand),
                            },
                        };
                        let lv = self.registers[li];
                        let rv = self.registers[ri];
                        self.registers[li] = lv.set_value(rv.extract());
                        let mid = self.registers[ri];
                        self.registers[ri] = mid.set_value(lv.extract());
                        Ok(())
                    },
                    Mnemonic::Mov => {
                        match &right {
                            None => Err(EvalError::MalformedOperand),
                            Some(b) => match &**b {
                                Token::Num(n) => {
                                    let li = match reg_index_of(lname.as_slice()) {
                                        Some(i) => i,
                                        None => return Err(
                                            EvalError::UnrecognizedRegisterName,
                                        ),
                                    };
                                    let cur = self.registers[li];
                                    self.registers[li] = cur.set_value(*n);
                                    Ok(())
                                },
                                Token::Reg(rn) => {
                                    let ri = match reg_index_of(rn.as_slice()) {
                                        Some(i) => i,
                                        None => return Err(
                                            EvalError::UnrecognizedRegisterName,
                                        ),
                                    };
                                    let li = match reg_index_of(lname.as_slice()) {
                                        Some(i) => i,
                                        None => return Err(
                                            EvalError::UnrecognizedRegisterName,
                                        ),
                                    };
                                    let v = self.registers[ri];
                                    self.registers[li] = v;
                                    Ok(())
                                },
                                Token::Comma => Err(EvalError::MalformedOperand),
                                Token::Instruction { .. } => Err(EvalError::MalformedOperand),
                                Token::Illegal => Err(EvalError::MalformedOperand),
                            },
                        }
                    },
                    _ => {
                        let b = match self.right_value(&right) {
                            Ok(v) => v,
                            Err(e) => return Err(e),
                        };
                        let li = match reg_index_of(lname.as_slice()) {
                            Some(i) => i,
                            None => return Err(EvalError::UnrecognizedRegisterName),
                        };
                        let cur = self.registers[li];
                        let nv = match m {
                            Mnemonic::Add => cur.sat_add(b),
                            Mnemonic::Sub => cur.sat_sub(b),
                            Mnemonic::Mul => cur.sat_mul(b),
                            Mnemonic::Div => cur.sat_div(b),
                            Mnemonic::And => cur.bit_and(b),
                            Mnemonic::Or => cur.bit_or(b),
                            _ => cur.bit_xor(b),
                        };
                        self.registers[li] = nv;
                        Ok(())
                    },
                }
            },
            Token::Reg(_) => Err(EvalError::StructuralError),
            Token::Comma => Err(EvalError::StructuralError),
            Token::Num(_) => Err(EvalError::StructuralError),
            Token::Illegal => Err(EvalError::StructuralError),
        }
    }

    /// Runs the whole program against the bank: pulls instructions until the
    /// input is exhausted, applying each in turn, and stops at the first
    /// failure without rolling back the mutations already applied.
    pub fn run(&mut self) -> (r: Result<(), EvalError>)
        requires
            old(self).wf(),
        ensures
            final(self).wf(),
            final(self).parser.contents == old(self).parser.contents,
            ({
                let o = run_from(
                    old(self).parser.contents@,
                    old(self).parser.peek_pos as nat,
                    old(self).registers@,
                );
                &&& final(self).registers@ == o.regs
                &&& final(self).parser.pos == o.pos
                &&& final(self).parser.peek_pos == o.peek
                &&& match r {
                    Ok(_) => o.err is None,
                    Err(e) => o.err == Some(e),
                }
            }),
    {
        loop
            invariant
                self.wf(),
                self.parser.contents == old(self).parser.contents,
                run_from(
                    old(self).parser.contents@,
                    old(self).parser.peek_pos as nat,
                    old(self).registers@,
                ) == run_from(
                    self.parser.contents@,
                    self.parser.peek_pos as nat,
                    self.registers@,
                ),
            decreases self.parser.contents@.len() + 1 - self.parser.peek_pos,
        {
            let ghost s = self.parser.contents@;
            let ghost start = self.parser.peek_pos as nat;
            let t = self.parser.next();
            match t {
                None => {
                    return Ok(());
                },
                Some(tok) => {
                    let ghost sc = scan_tok(s, start);
                    match self.eval(tok) {
                        Err(e) => {
                            return Err(e);
                        },
                        Ok(_) => {
                            proof {
                                assert(clamp_to(sc.peek, (start + 1) as nat, s.len())
                                    == self.parser.peek_pos as nat);
                            }
                        },
                    }
                },
            }
        }
    }

    /// Renders all eight registers in canonical order, one `NAME VALUE` line
    /// each, joined by line feeds with no trailing line feed.
    pub fn registers_str(&self) -> (r: String)
        requires
            self.wf(),
        ensures
            r@ == ascii_chars(display_bytes(self.registers@)),
    {
        let mut out: Vec<u8> = Vec::new();
        let mut i: usize = 0;
        while i < 8
            invariant
                self.wf(),
                i <= 8,
                out@ == display_bytes(self.registers@.take(i as int)),
                forall|k: int| 0 <= k < out@.len() ==> out@[k] < 128,
            decreases 8 - i,
        {
            if i > 0 {
                out.push(10);
            }
            let reg = self.registers[i];
            let nb = reg.name_byte_pair();
            out.push(nb.0);
            out.push(nb.1);
            out.push(32);
            push_value(&mut out, reg.extract());
            proof {
                assert(self.registers@.take(i + 1).drop_last() =~= self.registers@.take(i as int));
                assert(self.registers@.take(i + 1).last() == self.registers@[i as int]);
                assert(reg.name_bytes()[0] < 128 && reg.name_bytes()[1] < 128);
                assert(out@ =~= display_bytes(self.registers@.take(i + 1)));
            }
            i = i + 1;
        }
        proof {
            assert(self.registers@.take(8) =~= self.registers@);
        }
        string_from_ascii(out)
    }
}

impl Default for Cpu {
    /// A fresh machine: the zeroed canonical bank over an empty program.
    fn default() -> (c: Cpu)
        ensures
            c.wf(),
            c.registers@ == initial_registers(),
            c.parser.contents@ == Seq::<u8>::empty(),
            c.parser.pos == 0,
            c.parser.peek_pos == 0,
    {
        Cpu::new(Parser::default())
    }
}

} // verus!
