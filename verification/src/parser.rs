//! The pull-based scanner/parser: tokenizes raw bytes and, on an instruction
//! keyword, eagerly recurses to consume its operands, yielding one parsed
//! token per pull.

use vstd::prelude::*;
use vstd::slice::slice_to_vec;
use vstd::string::StringSliceAdditionalSpecFns;

use crate::register::{is_reg_name, reg_index_of};
use crate::token::{Token, TokenView};

verus! {

/// Is `b` an ASCII whitespace byte (space, tab, line feed, vertical tab,
/// form feed, carriage return)?
pub open spec fn is_ws_byte(b: u8) -> bool {
    b == 32 || b == 9 || b == 10 || b == 11 || b == 12 || b == 13
}

/// Is `b` an ASCII decimal digit?
pub open spec fn is_digit_byte(b: u8) -> bool {
    48 <= b && b <= 57
}

/// Is `b` an ASCII letter?
pub open spec fn is_alpha_byte(b: u8) -> bool {
    (65 <= b && b <= 90) || (97 <= b && b <= 122)
}

fn ws_byte(b: u8) -> (r: bool)
    ensures
        r == is_ws_byte(b),
{
    b == 32 || b == 9 || b == 10 || b == 11 || b == 12 || b == 13
}

fn digit_byte(b: u8) -> (r: bool)
    ensures
        r == is_digit_byte(b),
{
    48 <= b && b <= 57
}

fn alpha_byte(b: u8) -> (r: bool)
    ensures
        r == is_alpha_byte(b),
{
    (65 <= b && b <= 90) || (97 <= b && b <= 122)
}

/// The first position at or after `i` holding a byte that is not whitespace,
/// or the end of `s`.
pub open spec fn skip_ws(s: Seq<u8>, i: nat) -> nat
    decreases s.len() - i,
{
    if i < s.len() && is_ws_byte(s[i as int]) {
        skip_ws(s, (i + 1) as nat)
    } else {
        i
    }
}

/// The end of the run of alphabetic bytes starting at `i`.
pub open spec fn alpha_end(s: Seq<u8>, i: nat) -> nat
    decreases s.len() - i,
{
    if i < s.len() && is_alpha_byte(s[i as int]) {
        alpha_end(s, (i + 1) as nat)
    } else {
        i
    }
}

/// The end of the run of digit bytes starting at `i`.
pub open spec fn digit_end(s: Seq<u8>, i: nat) -> nat
    decreases s.len() - i,
{
    if i < s.len() && is_digit_byte(s[i as int]) {
        digit_end(s, (i + 1) as nat)
    } else {
        i
    }
}

pub proof fn lemma_skip_ws_bounds(s: Seq<u8>, i: nat)
    ensures
        i <= skip_ws(s, i),
        i <= s.len() ==> skip_ws(s, i) <= s.len(),
    decreases s.len() - i,
{
    if i < s.len() && is_ws_byte(s[i as int]) {
        lemma_skip_ws_bounds(s, (i + 1) as nat);
    }
}

pub proof fn lemma_alpha_end_bounds(s: Seq<u8>, i: nat)
    ensures
        i <= alpha_end(s, i),
        i <= s.len() ==> alpha_end(s, i) <= s.len(),
    decreases s.len() - i,
{
    if i < s.len() && is_alpha_byte(s[i as int]) {
        lemma_alpha_end_bounds(s, (i + 1) as nat);
    }
}

pub proof fn lemma_digit_end_bounds(s: Seq<u8>, i: nat)
    ensures
        i <= digit_end(s, i),
        i <= s.len() ==> digit_end(s, i) <= s.len(),
    decreases s.len() - i,
{
    if i < s.len() && is_digit_byte(s[i as int]) {
        lemma_digit_end_bounds(s, (i + 1) as nat);
    }
}

/// The numeric value of a run of ASCII digit bytes, read as a decimal
/// integer.
pub open spec fn digits_val(ds: Seq<u8>) -> int
    decreases ds.len(),
{
    if ds.len() == 0 {
        0
    } else {
        digits_val(ds.drop_last()) * 10 + (ds.last() - 48)
    }
}

/// Clamps an integer to the register range: values above 255 saturate to 255,
/// values below 0 floor at 0.
pub open spec fn clamp_255(v: int) -> u8 {
    if v > 255 {
        255u8
    } else if v < 0 {
        0u8
    } else {
        v as u8
    }
}

/// `b` with an ASCII upper-case letter folded to lower case.
pub open spec fn lower_byte_spec(b: u8) -> u8 {
    if 65 <= b && b <= 90 {
        (b + 32) as u8
    } else {
        b
    }
}

/// `s` with every ASCII upper-case letter folded to lower case.
pub open spec fn lower_bytes(s: Seq<u8>) -> Seq<u8> {
    Seq::new(s.len(), |i: int| lower_byte_spec(s[i]))
}

fn lower_byte(b: u8) -> (r: u8)
    ensures
        r == lower_byte_spec(b),
{
    if 65 <= b && b <= 90 {
        b + 32
    } else {
        b
    }
}

/// An instruction keyword. `Not`, `Inc` and `Dec` are unary; the rest take a
/// second operand.
#[derive(Debug, Clone, Copy, PartialEq, Eq, Structural)]
pub enum Mnemonic {
    Add,
    Sub,
    Mul,
    Div,
    And,
    Or,
    Xor,
    Not,
    Inc,
    Dec,
    Xchg,
    Mov,
}

/// Does the mnemonic take no second operand?
pub open spec fn is_unary(m: Mnemonic) -> bool {
    m == Mnemonic::Not || m == Mnemonic::Inc || m == Mnemonic::Dec
}

/// The mnemonic spelled by `s`, compared case-insensitively, or nothing for
/// any other word.
pub open spec fn spec_mnemonic(s: Seq<u8>) -> Option<Mnemonic> {
    let l = lower_bytes(s);
    if l == seq![97u8, 100u8, 100u8] {
        Some(Mnemonic::Add)
    } else if l == seq![115u8, 117u8, 98u8] {
        Some(Mnemonic::Sub)
    } else if l == seq![109u8, 117u8, 108u8] {
        Some(Mnemonic::Mul)
    } else if l == seq![100u8, 105u8, 118u8] {
        Some(Mnemonic::Div)
    } else if l == seq![97u8, 110u8, 100u8] {
        Some(Mnemonic::And)
    } else if l == seq![111u8, 114u8] {
        Some(Mnemonic::Or)
    } else if l == seq![120u8, 111u8, 114u8] {
        Some(Mnemonic::Xor)
    } else if l == seq![110u8, 111u8, 116u8] {
        Some(Mnemonic::Not)
    } else if l == seq![105u8, 110u8, 99u8] {
        Some(Mnemonic::Inc)
    } else if l == seq![100u8, 101u8, 99u8] {
        Some(Mnemonic::Dec)
    } else if l == seq![120u8, 99u8, 104u8, 103u8] {
        Some(Mnemonic::Xchg)
    } else if l == seq![109u8, 111u8, 118u8] {
        Some(Mnemonic::Mov)
    } else {
        None
    }
}

/// Recognizes an instruction keyword, case-insensitively.
pub fn parse_mnemonic(name: &[u8]) -> (m: Option<Mnemonic>)
    ensures
        m == spec_mnemonic(name@),
{
    proof {
        assert(lower_bytes(name@).len() == name@.len());
    }
    if name.len() == 2 {
        let b0 = lower_byte(name[0]);
        let b1 = lower_byte(name[1]);
        proof {
            assert(lower_bytes(name@) =~= seq![lower_byte_spec(name@[0]), lower_byte_spec(name@[1])]);
        }
        if b0 == 111 && b1 == 114 {
            Some(Mnemonic::Or)
        } else {
            None
        }
    } else if name.len() == 3 {
        let b0 = lower_byte(name[0]);
        let b1 = lower_byte(name[1]);
        let b2 = lower_byte(name[2]);
        proof {
            assert(lower_bytes(name@) =~= seq![
                lower_byte_spec(name@[0]),
                lower_byte_spec(name@[1]),
                lower_byte_spec(name@[2]),
            ]);
        }
        if b0 == 97 && b1 == 100 && b2 == 100 {
            Some(Mnemonic::Add)
        } else if b0 == 115 && b1 == 117 && b2 == 98 {
            Some(Mnemonic::Sub)
        } else if b0 == 109 && b1 == 117 && b2 == 108 {
            Some(Mnemonic::Mul)
        } else if b0 == 100 && b1 == 105 && b2 == 118 {
            Some(Mnemonic::Div)
        } else if b0 == 97 && b1 == 110 && b2 == 100 {
            Some(Mnemonic::And)
        } else if b0 == 120 && b1 == 111 && b2 == 114 {
            Some(Mnemonic::Xor)
        } else if b0 == 110 && b1 == 111 && b2 == 116 {
            Some(Mnemonic::Not)
        } else if b0 == 105 && b1 == 110 && b2 == 99 {
            Some(Mnemonic::Inc)
        } else if b0 == 100 && b1 == 101 && b2 == 99 {
            Some(Mnemonic::Dec)
        } else if b0 == 109 && b1 == 111 && b2 == 118 {
            Some(Mnemonic::Mov)
        } else {
            None
        }
    } else if name.len() == 4 {
        let b0 = lower_byte(name[0]);
        let b1 = lower_byte(name[1]);
        let b2 = lower_byte(name[2]);
        let b3 = lower_byte(name[3]);
        proof {
            assert(lower_bytes(name@) =~= seq![
                lower_byte_spec(name@[0]),
                lower_byte_spec(name@[1]),
                lower_byte_spec(name@[2]),
                lower_byte_spec(name@[3]),
            ]);
        }
        if b0 == 120 && b1 == 99 && b2 == 104 && b3 == 103 {
            Some(Mnemonic::Xchg)
        } else {
            None
        }
    } else {
        None
    }
}

/// Is the word an instruction keyword, compared case-insensitively?
pub fn is_instruction(s: &[u8]) -> (r: bool)
    ensures
        r == (spec_mnemonic(s@) is Some),
{
    parse_mnemonic(s).is_some()
}

/// The decimal value of a scanned digit run, clamped to the register range:
/// a run spelling more than 255 yields 255, and the clamp floors at 0.
pub fn num_from_digits(ds: &Vec<u8>) -> (v: u8)
    requires
        forall|k: int| 0 <= k < ds@.len() ==> is_digit_byte(ds@[k]),
    ensures
        v == clamp_255(digits_val(ds@)),
{
    let mut acc: u32 = 0;
    let mut k: usize = 0;
    while k < ds.len()
        invariant
            k <= ds@.len(),
            forall|j: int| 0 <= j < ds@.len() ==> is_digit_byte(ds@[j]),
            0 <= digits_val(ds@.take(k as int)),
            acc == if digits_val(ds@.take(k as int)) > 255 {
                256int
            } else {
                digits_val(ds@.take(k as int))
            },
        decreases ds@.len() - k,
    {
        let d = ds[k] - 48;
        proof {
            assert(ds@.take(k + 1).drop_last() =~= ds@.take(k as int));
            assert(ds@.take(k + 1).last() == ds@[k as int]);
        }
        acc = acc * 10 + d as u32;
        if acc > 255 {
            acc = 256;
        }
        k = k + 1;
    }
    proof {
        assert(ds@.take(ds@.len() as int) =~= ds@);
    }
    if acc > 255 {
        255
    } else {
        acc as u8
    }
}

/// The outcome of one pull: the token produced (or nothing at end of input)
/// and the scanner's two cursors after the pull.
pub struct ScanRes {
    pub tok: Option<TokenView>,
    pub pos: nat,
    pub peek: nat,
}

/// `x` clamped into `lo ..= hi` (`hi` winning when the bounds cross).
pub open spec fn clamp_to(x: nat, lo: nat, hi: nat) -> nat {
    let y = if x < lo {
        lo
    } else {
        x
    };
    if y > hi {
        hi
    } else {
        y
    }
}

/// One pull of the scanner over `s`, starting at the lookahead cursor
/// `start`: skips whitespace, classifies the current byte, and on an
/// instruction keyword recursively pulls the operands. The `clamp_to` bounds
/// on the recursive start positions are exact (a produced token always
/// advances the cursor within the buffer); they keep the recursion visibly
/// well-founded.
pub open spec fn scan_tok(s: Seq<u8>, start: nat) -> ScanRes
    decreases s.len() + 1 - start,
        via scan_tok_decreases
{
    let i = skip_ws(s, start);
    if start > s.len() {
        ScanRes { tok: None, pos: start, peek: start }
    } else if i >= s.len() {
        ScanRes { tok: None, pos: i, peek: (i + 1) as nat }
    } else {
        let c = s[i as int];
        if c == 44 {
            ScanRes { tok: Some(TokenView::Comma), pos: i, peek: (i + 1) as nat }
        } else if is_digit_byte(c) {
            let e = digit_end(s, i);
            let v = clamp_255(digits_val(s.subrange(i as int, e as int)));
            ScanRes { tok: Some(TokenView::Num(v)), pos: e, peek: e }
        } else if is_alpha_byte(c) {
            let e = alpha_end(s, i);
            let w = s.subrange(i as int, e as int);
            if is_reg_name(w) {
                ScanRes { tok: Some(TokenView::Reg(w)), pos: e, peek: e }
            } else {
                match spec_mnemonic(w) {
                    None => ScanRes { tok: Some(TokenView::Illegal), pos: e, peek: e },
                    Some(mn) => {
                        let lstart = clamp_to(e, (i + 1) as nat, s.len());
                        let l = scan_tok(s, lstart);
                        match l.tok {
                            None => l,
                            Some(lt) => {
                                if is_unary(mn) {
                                    ScanRes {
                                        tok: Some(TokenView::Instruction {
                                            name: w,
                                            left: Box::new(lt),
                                            right: None,
                                        }),
                                        pos: l.pos,
                                        peek: l.peek,
                                    }
                                } else {
                                    let cstart = clamp_to(l.peek, (lstart + 1) as nat, s.len());
                                    let c2 = scan_tok(s, cstart);
                                    match c2.tok {
                                        None => c2,
                                        Some(TokenView::Comma) => {
                                            let rstart = clamp_to(
                                                c2.peek,
                                                (cstart + 1) as nat,
                                                s.len(),
                                            );
                                            let r = scan_tok(s, rstart);
                                            match r.tok {
                                                None => r,
                                                Some(rt) => ScanRes {
                                                    tok: Some(TokenView::Instruction {
                                                        name: w,
                                                        left: Box::new(lt),
                                                        right: Some(Box::new(rt)),
                                                    }),
                                                    pos: r.pos,
                                                    peek: r.peek,
                                                },
                                            }
                                        },
                                        Some(_) => ScanRes {
                                            tok: Some(TokenView::Illegal),
                                            pos: c2.pos,
                                            peek: c2.peek,
                                        },
                                    }
                                }
                            },
                        }
                    },
                }
            }
        } else {
            ScanRes { tok: Some(TokenView::Illegal), pos: i, peek: (i + 1) as nat }
        }
    }
}

#[via_fn]
proof fn scan_tok_decreases(s: Seq<u8>, start: nat) {
    lemma_skip_ws_bounds(s, start);
}

/// The pull-based scanner: an immutable byte buffer and two monotonically
/// increasing cursors over it, the current position and the lookahead.
pub struct Parser {
    pub contents: Vec<u8>,
    pub pos: usize,
    pub peek_pos: usize,
}

/// Relies on `Vec::len` and the allocation guarantee of std's `Vec`: a vector
/// never holds more than `isize::MAX` bytes, so a byte buffer's length is
/// strictly below `usize::MAX` and a cursor can sit one past its end.
#[verifier::external_body]
fn buffer_len(v: &Vec<u8>) -> (n: usize)
    ensures
        n == v@.len(),
        n < usize::MAX,
{
    v.len()
}

impl Parser {
    /// The cursors run forward, the lookahead at most one byte past the end
    /// of the buffer, whose length leaves room for that.
    pub open spec fn wf(self) -> bool {
        self.pos <= self.peek_pos && self.peek_pos <= self.contents@.len() + 1
            && self.contents@.len() < usize::MAX
    }

    /// The cursor shape while a pull is scanning: the lookahead sits exactly
    /// one byte past the position, which is inside the buffer or at its end.
    pub open spec fn scanning(self) -> bool {
        self.peek_pos == self.pos + 1 && self.pos <= self.contents@.len()
            && self.contents@.len() < usize::MAX
    }

    /// A new scanner over the bytes of `s`, with both cursors at the start.
    pub fn new(s: &str) -> (p: Parser)
        ensures
            p.contents@ == s.spec_bytes(),
            p.pos == 0,
            p.peek_pos == 0,
            p.wf(),
    {
        let contents = slice_to_vec(s.as_bytes());
        let _n: usize = buffer_len(&contents);
        Parser { contents, pos: 0, peek_pos: 0 }
    }

    /// Advances the position past the current run of whitespace, the
    /// lookahead tracking one byte past the position throughout.
    pub fn skip_whitespace(&mut self)
        requires
            old(self).scanning(),
        ensures
            final(self).contents == old(self).contents,
            final(self).pos == skip_ws(old(self).contents@, old(self).pos as nat),
            old(self).pos <= final(self).pos,
            final(self).scanning(),
    {
        while self.pos < self.contents.len() && ws_byte(self.contents[self.pos])
            invariant
                self.scanning(),
                self.contents == old(self).contents,
                old(self).pos <= self.pos,
                skip_ws(self.contents@, self.pos as nat) == skip_ws(
                    old(self).contents@,
                    old(self).pos as nat,
                ),
            decreases self.contents@.len() - self.pos,
        {
            self.pos = self.peek_pos;
            self.peek_pos = self.peek_pos + 1;
        }
    }

    /// Scans the maximal run of alphabetic bytes from the current position,
    /// returning it; both cursors end at the first byte past the run.
    pub fn read_literal(&mut self) -> (w: Vec<u8>)
        requires
            old(self).scanning(),
        ensures
            final(self).contents == old(self).contents,
            final(self).pos == alpha_end(old(self).contents@, old(self).pos as nat),
            final(self).peek_pos == final(self).pos,
            old(self).pos <= final(self).pos,
            final(self).pos <= old(self).contents@.len(),
            w@ == old(self).contents@.subrange(old(self).pos as int, final(self).pos as int),
    {
        let p = self.pos;
        while self.pos < self.contents.len() && alpha_byte(self.contents[self.pos])
            invariant
                self.scanning(),
                p <= self.pos,
                self.contents == old(self).contents,
                p == old(self).pos,
                alpha_end(self.contents@, self.pos as nat) == alpha_end(
                    old(self).contents@,
                    old(self).pos as nat,
                ),
            decreases self.contents@.len() - self.pos,
        {
            self.pos = self.peek_pos;
            self.peek_pos = self.peek_pos + 1;
        }
        self.peek_pos = self.peek_pos - 1;
        let mut w: Vec<u8> = Vec::new();
        let mut j = p;
        while j < self.pos
            invariant
                p <= j,
                j <= self.pos,
                self.pos <= self.contents@.len(),
                w@ =~= self.contents@.subrange(p as int, j as int),
            decreases self.pos - j,
        {
            let b = self.contents[j];
            w.push(b);
            proof {
                assert(self.contents@.subrange(p as int, j + 1) =~= self.contents@.subrange(
                    p as int,
                    j as int,
                ).push(self.contents@[j as int]));
            }
            j = j + 1;
        }
        w
    }

    /// Scans the maximal run of digit bytes from the current position,
    /// returning it; both cursors end at the first byte past the run.
    pub fn read_int(&mut self) -> (w: Vec<u8>)
        requires
            old(self).scanning(),
        ensures
            final(self).contents == old(self).contents,
            final(self).pos == digit_end(old(self).contents@, old(self).pos as nat),
            final(self).peek_pos == final(self).pos,
            old(self).pos <= final(self).pos,
            final(self).pos <= old(self).contents@.len(),
            w@ == old(self).contents@.subrange(old(self).pos as int, final(self).pos as int),
            forall|k: int| 0 <= k < w@.len() ==> is_digit_byte(w@[k]),
    {
        let p = self.pos;
        while self.pos < self.contents.len() && digit_byte(self.contents[self.pos])
            invariant
                self.scanning(),
                p <= self.pos,
                self.contents == old(self).contents,
                p == old(self).pos,
                forall|k: int| p <= k < self.pos ==> is_digit_byte(self.contents@[k]),
                digit_end(self.contents@, self.pos as nat) == digit_end(
                    old(self).contents@,
                    old(self).pos as nat,
                ),
            decreases self.contents@.len() - self.pos,
        {
            self.pos = self.peek_pos;
            self.peek_pos = self.peek_pos + 1;
        }
        self.peek_pos = self.peek_pos - 1;
        let mut w: Vec<u8> = Vec::new();
        let mut j = p;
        while j < self.pos
            invariant
                p <= j,
                j <= self.pos,
                self.pos <= self.contents@.len(),
                self.contents == old(self).contents,
                forall|k: int| p <= k < self.pos ==> is_digit_byte(self.contents@[k]),
                w@ =~= self.contents@.subrange(p as int, j as int),
            decreases self.pos - j,
        {
            let b = self.contents[j];
            w.push(b);
            proof {
                assert(self.contents@.subrange(p as int, j + 1) =~= self.contents@.subrange(
                    p as int,
                    j as int,
                ).push(self.contents@[j as int]));
            }
            j = j + 1;
        }
        w
    }

    /// Pulls the next token, or nothing once the input is exhausted. The
    /// result and both cursors are exactly those of [`scan_tok`] applied at
    /// the old lookahead cursor; neither cursor ever moves backwards, and a
    /// produced token advances the lookahead while keeping it inside the
    /// buffer.
    pub fn next(&mut self) -> (t: Option<Token>)
        requires
            old(self).wf(),
        ensures
            final(self).wf(),
            final(self).contents == old(self).contents,
            ({
                let r = scan_tok(old(self).contents@, old(self).peek_pos as nat);
                &&& final(self).pos == r.pos
                &&& final(self).peek_pos == r.peek
                &&& match t {
                    None => r.tok is None,
                    Some(tk) => r.tok == Some(tk@),
                }
            }),
            old(self).pos <= final(self).pos,
            old(self).peek_pos <= final(self).peek_pos,
            t is Some ==> old(self).peek_pos < final(self).peek_pos,
            t is Some ==> final(self).peek_pos <= old(self).contents@.len(),
        decreases old(self).contents@.len() + 1 - old(self).peek_pos,
    {
        let ghost s = self.contents@;
        let ghost start = self.peek_pos as nat;
        proof {
            lemma_skip_ws_bounds(s, start);
        }
        self.pos = self.peek_pos;
        if self.pos > self.contents.len() {
            return None;
        }
        self.peek_pos = self.pos + 1;
        self.skip_whitespace();
        let ghost i = self.pos as nat;
        if self.pos >= self.contents.len() {
            return None;
        }
        let c = self.contents[self.pos];
        if c == 44 {
            Some(Token::Comma)
        } else if digit_byte(c) {
            proof {
                lemma_digit_end_bounds(s, (i + 1) as nat);
            }
            let ds = self.read_int();
            let v = num_from_digits(&ds);
            Some(Token::Num(v))
        } else if alpha_byte(c) {
            proof {
                lemma_alpha_end_bounds(s, (i + 1) as nat);
            }
            let w = self.read_literal();
            let ghost e = self.pos as nat;
            if reg_index_of(w.as_slice()).is_some() {
                Some(Token::Reg(w))
            } else {
                let mn_opt = parse_mnemonic(w.as_slice());
                match mn_opt {
                    None => Some(Token::Illegal),
                    Some(mn) => {
                        let ghost lstart = clamp_to(e, (i + 1) as nat, s.len());
                        proof {
                            assert(lstart == e);
                        }
                        let unary = match mn {
                            Mnemonic::Not => true,
                            Mnemonic::Inc => true,
                            Mnemonic::Dec => true,
                            _ => false,
                        };
                        let left = self.next();
                        match left {
                            None => None,
                            Some(l) => {
                                if unary {
                                    Some(Token::Instruction {
                                        name: w,
                                        left: Box::new(l),
                                        right: None,
                                    })
                                } else {
                                    let ghost lres = scan_tok(s, lstart);
                                    let ghost cstart = clamp_to(
                                        lres.peek,
                                        (lstart + 1) as nat,
                                        s.len(),
                                    );
                                    proof {
                                        assert(cstart == self.peek_pos as nat);
                                    }
                                    let comma = self.next();
                                    match comma {
                                        None => None,
                                        Some(Token::Comma) => {
                                            let ghost cres = scan_tok(s, cstart);
                                            let ghost rstart = clamp_to(
                                                cres.peek,
                                                (cstart + 1) as nat,
                                                s.len(),
                                            );
                                            proof {
                                                assert(rstart == self.peek_pos as nat);
                                            }
                                            let right = self.next();
                                            match right {
                                                None => None,
                                                Some(r) => Some(Token::Instruction {
                                                    name: w,
                                                    left: Box::new(l),
                                                    right: Some(Box::new(r)),
                                                }),
                                            }
                                        },
                                        Some(Token::Reg(_)) => Some(Token::Illegal),
                                        Some(Token::Instruction { .. }) => Some(Token::Illegal),
                                        Some(Token::Num(_)) => Some(Token::Illegal),
                                        Some(Token::Illegal) => Some(Token::Illegal),
                                    }
                                }
                            },
                        }
                    },
                }
            }
        } else {
            Some(Token::Illegal)
        }
    }
}

impl Default for Parser {
    /// An empty scanner: no input, both cursors at the start.
    fn default() -> (p: Parser)
        ensures
            p.contents@ == Seq::<u8>::empty(),
            p.pos == 0,
            p.peek_pos == 0,
            p.wf(),
    {
        Parser { contents: Vec::new(), pos: 0, peek_pos: 0 }
    }
}

} // verus!
