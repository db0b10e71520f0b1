use asm8::register::Register;
use asm8::register::Register::{AH, AL, BH, BL, CH, CL, DH, DL};

#[test]
fn plus_operator() {
    let a = Register::AH(1);
    let b = AL(4);

    assert_eq!(a.sat_add_reg(b), AH(5));
    assert_eq!(a.sat_add(4), AH(5))
}

#[test]
fn minus_operator() {
    let a = Register::AH(1);
    let b = AL(4);

    assert_eq!(b.sat_sub_reg(a), AL(3));
    assert_eq!(b.sat_sub(1), AL(3))
}

#[test]
fn mul_operator() {
    let a = Register::AH(2);
    let b = AL(4);

    assert_eq!(b.sat_mul_reg(a), AL(8));
    assert_eq!(b.sat_mul(2), AL(8))
}

#[test]
fn div_operator() {
    let a = Register::AH(2);
    let b = AL(4);

    assert_eq!(b.sat_div_reg(a), AL(2));
    assert_eq!(b.sat_div(2), AL(2))
}

#[test]
fn add_saturates_at_255() {
    let a = Register::CH(200);
    assert_eq!(a.sat_add(100), CH(255));
    assert_eq!(a.sat_add(55), CH(255));
    assert_eq!(a.sat_add(54), CH(254));
}

#[test]
fn sub_floors_at_0() {
    let a = Register::DL(5);
    assert_eq!(a.sat_sub(9), DL(0));
    assert_eq!(a.sat_sub(5), DL(0));
}

#[test]
fn mul_saturates_at_255() {
    let a = Register::BH(20);
    assert_eq!(a.sat_mul(20), BH(255));
    assert_eq!(a.sat_mul(12), BH(240));
}

#[test]
fn div_by_zero_yields_0() {
    let a = Register::BL(77);
    assert_eq!(a.sat_div(0), BL(0));
    assert_eq!(a.sat_div_reg(AH(0)), BL(0));
    assert_eq!(a.sat_div(2), BL(38));
}

#[test]
fn bitwise_ops() {
    let a = Register::AH(0b1100);
    assert_eq!(a.bit_and(0b1010), AH(0b1000));
    assert_eq!(a.bit_or(0b1010), AH(0b1110));
    assert_eq!(a.bit_xor(0b1010), AH(0b0110));
    assert_eq!(a.bit_not(), AH(0b1111_0011));
}

#[test]
fn inc_and_dec_saturate() {
    assert_eq!(Register::DH(0).inc(), DH(1));
    assert_eq!(Register::DH(255).inc(), DH(255));
    assert_eq!(Register::AL(0).dec(), AL(0));
    assert_eq!(Register::AL(1).dec(), AL(0));
}

#[test]
fn name_and_extract() {
    assert_eq!(Register::CL(9).name(), "CL");
    assert_eq!(Register::CL(9).extract(), 9);
    assert_eq!(Register::CL(9).set_value(3), CL(3));
}
