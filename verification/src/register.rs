//! The register model: eight named 8-bit accumulators with saturating
//! arithmetic and bitwise operations.

use vstd::prelude::*;

verus! {

/// Saturating sum of two 8-bit payloads: clamps at 255 instead of wrapping.
pub open spec fn sat_add_val(a: u8, b: u8) -> u8 {
    if a + b > 255 {
        255u8
    } else {
        (a + b) as u8
    }
}

/// Saturating difference of two 8-bit payloads: floors at 0.
pub open spec fn sat_sub_val(a: u8, b: u8) -> u8 {
    if a < b {
        0u8
    } else {
        (a - b) as u8
    }
}

/// Saturating product of two 8-bit payloads: clamps at 255.
pub open spec fn sat_mul_val(a: u8, b: u8) -> u8 {
    if a * b > 255 {
        255u8
    } else {
        (a * b) as u8
    }
}

/// Integer quotient of two 8-bit payloads. Division by zero is defined to
/// yield 0, in keeping with the saturating theme: no operation on a register
/// can fail or wrap.
pub open spec fn div_val(a: u8, b: u8) -> u8 {
    if b == 0 {
        0u8
    } else {
        (a as int / b as int) as u8
    }
}

/// One of the machine's eight visible storage cells. The variant is the
/// register's immutable name; the payload is its current 8-bit value.
#[derive(Debug, Clone, Copy, PartialEq, Eq, Structural)]
pub enum Register {
    AH(u8),
    AL(u8),
    BH(u8),
    BL(u8),
    CH(u8),
    CL(u8),
    DH(u8),
    DL(u8),
}

impl Register {
    /// The current payload.
    pub open spec fn val(self) -> u8 {
        match self {
            Register::AH(v) => v,
            Register::AL(v) => v,
            Register::BH(v) => v,
            Register::BL(v) => v,
            Register::CH(v) => v,
            Register::CL(v) => v,
            Register::DH(v) => v,
            Register::DL(v) => v,
        }
    }

    /// The register's position in the canonical bank order AH, AL, BH, BL,
    /// CH, CL, DH, DL.
    pub open spec fn tag_idx(self) -> int {
        match self {
            Register::AH(_) => 0,
            Register::AL(_) => 1,
            Register::BH(_) => 2,
            Register::BL(_) => 3,
            Register::CH(_) => 4,
            Register::CL(_) => 5,
            Register::DH(_) => 6,
            Register::DL(_) => 7,
        }
    }

    /// The same register with payload `v`: the name is kept, only the value
    /// changes.
    pub open spec fn with_val(self, v: u8) -> Register {
        match self {
            Register::AH(_) => Register::AH(v),
            Register::AL(_) => Register::AL(v),
            Register::BH(_) => Register::BH(v),
            Register::BL(_) => Register::BL(v),
            Register::CH(_) => Register::CH(v),
            Register::CL(_) => Register::CL(v),
            Register::DH(_) => Register::DH(v),
            Register::DL(_) => Register::DL(v),
        }
    }

    /// The register's name, as the characters of its display form.
    pub open spec fn name_chars(self) -> Seq<char> {
        match self {
            Register::AH(_) => seq!['A', 'H'],
            Register::AL(_) => seq!['A', 'L'],
            Register::BH(_) => seq!['B', 'H'],
            Register::BL(_) => seq!['B', 'L'],
            Register::CH(_) => seq!['C', 'H'],
            Register::CL(_) => seq!['C', 'L'],
            Register::DH(_) => seq!['D', 'H'],
            Register::DL(_) => seq!['D', 'L'],
        }
    }

    /// The register's name, as the two ASCII bytes of its display form.
    pub open spec fn name_bytes(self) -> Seq<u8> {
        match self {
            Register::AH(_) => seq![65u8, 72u8],
            Register::AL(_) => seq![65u8, 76u8],
            Register::BH(_) => seq![66u8, 72u8],
            Register::BL(_) => seq![66u8, 76u8],
            Register::CH(_) => seq![67u8, 72u8],
            Register::CL(_) => seq![67u8, 76u8],
            Register::DH(_) => seq![68u8, 72u8],
            Register::DL(_) => seq![68u8, 76u8],
        }
    }

    /// Replaces the payload, keeping the register's name.
    pub fn set_value(&self, v: u8) -> (r: Register)
        ensures
            r == self.with_val(v),
    {
        match self {
            Register::AH(_) => Register::AH(v),
            Register::AL(_) => Register::AL(v),
            Register::BH(_) => Register::BH(v),
            Register::BL(_) => Register::BL(v),
            Register::CH(_) => Register::CH(v),
            Register::CL(_) => Register::CL(v),
            Register::DH(_) => Register::DH(v),
            Register::DL(_) => Register::DL(v),
        }
    }

    /// Reads the payload.
    pub fn extract(&self) -> (r: u8)
        ensures
            r == self.val(),
    {
        match self {
            Register::AH(v) => *v,
            Register::AL(v) => *v,
            Register::BH(v) => *v,
            Register::BL(v) => *v,
            Register::CH(v) => *v,
            Register::CL(v) => *v,
            Register::DH(v) => *v,
            Register::DL(v) => *v,
        }
    }

    /// Saturating increment: 255 stays 255.
    pub fn inc(&self) -> (r: Register)
        ensures
            r == self.with_val(sat_add_val(self.val(), 1)),
    {
        let v = self.extract();
        self.set_value(if v == 255 { 255 } else { v + 1 })
    }

    /// Saturating decrement: 0 stays 0.
    pub fn dec(&self) -> (r: Register)
        ensures
            r == self.with_val(sat_sub_val(self.val(), 1)),
    {
        let v = self.extract();
        self.set_value(if v == 0 { 0 } else { v - 1 })
    }

    /// Saturating addition of an immediate value.
    pub fn sat_add(&self, rhs: u8) -> (r: Register)
        ensures
            r == self.with_val(sat_add_val(self.val(), rhs)),
    {
        self.set_value(u8::saturating_add(self.extract(), rhs))
    }

    /// Saturating addition of another register's payload.
    pub fn sat_add_reg(&self, rhs: Register) -> (r: Register)
        ensures
            r == self.with_val(sat_add_val(self.val(), rhs.val())),
    {
        self.sat_add(rhs.extract())
    }

    /// Saturating subtraction of an immediate value.
    pub fn sat_sub(&self, rhs: u8) -> (r: Register)
        ensures
            r == self.with_val(sat_sub_val(self.val(), rhs)),
    {
        self.set_value(u8::saturating_sub(self.extract(), rhs))
    }

    /// Saturating subtraction of another register's payload.
    pub fn sat_sub_reg(&self, rhs: Register) -> (r: Register)
        ensures
            r == self.with_val(sat_sub_val(self.val(), rhs.val())),
    {
        self.sat_sub(rhs.extract())
    }

    /// Saturating multiplication by an immediate value.
    pub fn sat_mul(&self, rhs: u8) -> (r: Register)
        ensures
            r == self.with_val(sat_mul_val(self.val(), rhs)),
    {
        let a: u16 = self.extract() as u16;
        let b: u16 = rhs as u16;
        proof {
            assert(a as int * b as int <= 255 * 255) by (nonlinear_arith)
                requires
                    a <= 255,
                    b <= 255,
            ;
        }
        let p: u16 = a * b;
        self.set_value(if p > 255 { 255 } else { p as u8 })
    }

    /// Saturating multiplication by another register's payload.
    pub fn sat_mul_reg(&self, rhs: Register) -> (r: Register)
        ensures
            r == self.with_val(sat_mul_val(self.val(), rhs.val())),
    {
        self.sat_mul(rhs.extract())
    }

    /// Division by an immediate value; a zero divisor yields 0.
    pub fn sat_div(&self, rhs: u8) -> (r: Register)
        ensures
            r == self.with_val(div_val(self.val(), rhs)),
    {
        if rhs == 0 {
            self.set_value(0)
        } else {
            self.set_value(self.extract() / rhs)
        }
    }

    /// Division by another register's payload; a zero divisor yields 0.
    pub fn sat_div_reg(&self, rhs: Register) -> (r: Register)
        ensures
            r == self.with_val(div_val(self.val(), rhs.val())),
    {
        self.sat_div(rhs.extract())
    }

    /// Bitwise AND with an immediate value.
    pub fn bit_and(&self, rhs: u8) -> (r: Register)
        ensures
            r == self.with_val(self.val() & rhs),
    {
        self.set_value(self.extract() & rhs)
    }

    /// Bitwise AND with another register's payload.
    pub fn bit_and_reg(&self, rhs: Register) -> (r: Register)
        ensures
            r == self.with_val(self.val() & rhs.val()),
    {
        self.bit_and(rhs.extract())
    }

    /// Bitwise OR with an immediate value.
    pub fn bit_or(&self, rhs: u8) -> (r: Register)
        ensures
            r == self.with_val(self.val() | rhs),
    {
        self.set_value(self.extract() | rhs)
    }

    /// Bitwise OR with another register's payload.
    pub fn bit_or_reg(&self, rhs: Register) -> (r: Register)
        ensures
            r == self.with_val(self.val() | rhs.val()),
    {
        self.bit_or(rhs.extract())
    }

    /// Bitwise XOR with an immediate value.
    pub fn bit_xor(&self, rhs: u8) -> (r: Register)
        ensures
            r == self.with_val(self.val() ^ rhs),
    {
        self.set_value(self.extract() ^ rhs)
    }

    /// Bitwise XOR with another register's payload.
    pub fn bit_xor_reg(&self, rhs: Register) -> (r: Register)
        ensures
            r == self.with_val(self.val() ^ rhs.val()),
    {
        self.bit_xor(rhs.extract())
    }

    /// Bitwise complement of the payload.
    pub fn bit_not(&self) -> (r: Register)
        ensures
            r == self.with_val(!self.val()),
    {
        self.set_value(!self.extract())
    }

    /// The two ASCII bytes of the register's name.
    pub fn name_byte_pair(&self) -> (b: (u8, u8))
        ensures
            seq![b.0, b.1] == self.name_bytes(),
    {
        let b = match self {
            Register::AH(_) => (65u8, 72u8),
            Register::AL(_) => (65u8, 76u8),
            Register::BH(_) => (66u8, 72u8),
            Register::BL(_) => (66u8, 76u8),
            Register::CH(_) => (67u8, 72u8),
            Register::CL(_) => (67u8, 76u8),
            Register::DH(_) => (68u8, 72u8),
            Register::DL(_) => (68u8, 76u8),
        };
        proof {
            assert(seq![b.0, b.1] =~= self.name_bytes());
        }
        b
    }

    /// The register's name as text.
    pub fn name(&self) -> (r: &str)
        ensures
            r@ == self.name_chars(),
    {
        proof {
            reveal_strlit("AH");
            reveal_strlit("AL");
            reveal_strlit("BH");
            reveal_strlit("BL");
            reveal_strlit("CH");
            reveal_strlit("CL");
            reveal_strlit("DH");
            reveal_strlit("DL");
        }
        let r = match self {
            Register::AH(_) => "AH",
            Register::AL(_) => "AL",
            Register::BH(_) => "BH",
            Register::BL(_) => "BL",
            Register::CH(_) => "CH",
            Register::CL(_) => "CL",
            Register::DH(_) => "DH",
            Register::DL(_) => "DL",
        };
        proof {
            assert(r@ =~= self.name_chars());
        }
        r
    }
}

/// Does `s` spell one of the eight register names? The check is
/// case-sensitive: the names are the bytes `A`..`D` followed by `H` or `L`.
pub open spec fn is_reg_name(s: Seq<u8>) -> bool {
    s.len() == 2 && 65 <= s[0] && s[0] <= 68 && (s[1] == 72 || s[1] == 76)
}

/// The bank slot named by `s`, in the canonical order AH, AL, BH, BL, CH, CL,
/// DH, DL.
pub open spec fn reg_idx(s: Seq<u8>) -> int {
    (s[0] - 65) * 2 + if s[1] == 76 { 1int } else { 0int }
}

/// Looks a scanned word up among the eight register names, yielding the slot
/// it names, or nothing for any other word.
pub fn reg_index_of(name: &[u8]) -> (r: Option<usize>)
    ensures
        match r {
            Option::Some(i) => is_reg_name(name@) && i == reg_idx(name@) && i < 8,
            Option::None => !is_reg_name(name@),
        },
{
    if name.len() == 2 {
        let a = name[0];
        let b = name[1];
        if 65 <= a && a <= 68 && (b == 72 || b == 76) {
            let hi: u8 = (a - 65) * 2;
            let lo: u8 = if b == 76 { 1 } else { 0 };
            Some((hi + lo) as usize)
        } else {
            None
        }
    } else {
        None
    }
}

/// Saturation laws of the register operations: after setting a payload `n`,
/// adding `m` yields `min(n + m, 255)`, subtracting floors at 0, multiplying
/// clamps at 255, and dividing takes the integer quotient, with a zero divisor
/// pinned to 0.
pub proof fn lemma_saturating_arithmetic(r: Register, n: u8, m: u8)
    ensures
        r.with_val(n).val() == n,
        r.with_val(n).with_val(sat_add_val(n, m)) == r.with_val(sat_add_val(n, m)),
        sat_add_val(n, m) as int == vstd::math::min(n as int + m as int, 255),
        sat_sub_val(n, m) as int == vstd::math::max(n as int - m as int, 0),
        sat_mul_val(n, m) as int == vstd::math::min(n as int * m as int, 255),
        m != 0 ==> div_val(n, m) as int == n as int / m as int,
        div_val(n, 0) == 0u8,
{
}

} // verus!
