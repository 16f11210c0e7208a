//! Equality of constants. Numbers compare as the floats they encode: a NaN
//! equals nothing, and the two zeros are equal.
use crate::constant::Constant;
use vstd::prelude::*;

verus! {

/// Whether the bits of an `f64` encode a NaN.
pub open spec fn is_nan64(bits: u64) -> bool {
    bits & 0x7FF0_0000_0000_0000 == 0x7FF0_0000_0000_0000 && bits & 0x000F_FFFF_FFFF_FFFF != 0
}

/// `==` of the `f64`s with these bits.
pub open spec fn f64_bits_equal(a: u64, b: u64) -> bool {
    !is_nan64(a) && !is_nan64(b) && (a == b || (a | b) & 0x7FFF_FFFF_FFFF_FFFF == 0)
}

/// Whether the bits of an `f32` encode a NaN.
pub open spec fn is_nan32(bits: u32) -> bool {
    bits & 0x7F80_0000 == 0x7F80_0000 && bits & 0x007F_FFFF != 0
}

/// `==` of the `f32`s with these bits.
pub open spec fn f32_bits_equal(a: u32, b: u32) -> bool {
    !is_nan32(a) && !is_nan32(b) && (a == b || (a | b) & 0x7FFF_FFFF == 0)
}

/// When two constants are equal.
pub open spec fn constant_equal(x: Constant, y: Constant) -> bool {
    match (x, y) {
        (Constant::Nil, Constant::Nil) => true,
        (Constant::Boolean(a), Constant::Boolean(b)) => a == b,
        (Constant::Number(a), Constant::Number(b)) => f64_bits_equal(a, b),
        (Constant::String(a), Constant::String(b)) => a == b,
        (Constant::Import(a), Constant::Import(b)) => a == b,
        (Constant::Table(a), Constant::Table(b)) => a@ == b@,
        (Constant::Closure(a), Constant::Closure(b)) => a == b,
        (Constant::Vector(x1, y1, z1, w1), Constant::Vector(x2, y2, z2, w2)) => f32_bits_equal(x1, x2)
            && f32_bits_equal(y1, y2) && f32_bits_equal(z1, z2) && f32_bits_equal(w1, w2),
        (Constant::TableWithConstants(a), Constant::TableWithConstants(b)) => a@ == b@,
        (Constant::Integer(a), Constant::Integer(b)) => a == b,
        _ => false,
    }
}

fn f64_equal(a: u64, b: u64) -> (res: bool)
    ensures
        res == f64_bits_equal(a, b),
{
    let a_nan = a & 0x7FF0_0000_0000_0000 == 0x7FF0_0000_0000_0000 && a & 0x000F_FFFF_FFFF_FFFF != 0;
    let b_nan = b & 0x7FF0_0000_0000_0000 == 0x7FF0_0000_0000_0000 && b & 0x000F_FFFF_FFFF_FFFF != 0;
    !a_nan && !b_nan && (a == b || (a | b) & 0x7FFF_FFFF_FFFF_FFFF == 0)
}

fn f32_equal(a: u32, b: u32) -> (res: bool)
    ensures
        res == f32_bits_equal(a, b),
{
    let a_nan = a & 0x7F80_0000 == 0x7F80_0000 && a & 0x007F_FFFF != 0;
    let b_nan = b & 0x7F80_0000 == 0x7F80_0000 && b & 0x007F_FFFF != 0;
    !a_nan && !b_nan && (a == b || (a | b) & 0x7FFF_FFFF == 0)
}

fn keys_equal(a: &Vec<usize>, b: &Vec<usize>) -> (res: bool)
    ensures
        res == (a@ == b@),
{
    if a.len() != b.len() {
        return false;
    }
    let mut i: usize = 0;
    while i < a.len()
        invariant
            a.len() == b.len(),
            i <= a.len(),
            forall|j: int| 0 <= j < i ==> a@[j] == b@[j],
        decreases a.len() - i,
    {
        if a[i] != b[i] {
            return false;
        }
        i = i + 1;
    }
    proof {
        assert(a@ =~= b@);
    }
    true
}

fn entries_equal(a: &Vec<(usize, Option<usize>)>, b: &Vec<(usize, Option<usize>)>) -> (res: bool)
    ensures
        res == (a@ == b@),
{
    if a.len() != b.len() {
        return false;
    }
    let mut i: usize = 0;
    while i < a.len()
        invariant
            a.len() == b.len(),
            i <= a.len(),
            forall|j: int| 0 <= j < i ==> a@[j] == b@[j],
        decreases a.len() - i,
    {
        let (ka, va) = a[i];
        let (kb, vb) = b[i];
        let same_value = match (va, vb) {
            (Some(x), Some(y)) => x == y,
            (None, None) => true,
            _ => false,
        };
        if ka != kb || !same_value {
            return false;
        }
        i = i + 1;
    }
    proof {
        assert(a@ =~= b@);
    }
    true
}

impl PartialEq for Constant {
    fn eq(&self, other: &Constant) -> (res: bool) {
        match (self, other) {
            (Constant::Nil, Constant::Nil) => true,
            (Constant::Boolean(a), Constant::Boolean(b)) => *a == *b,
            (Constant::Number(a), Constant::Number(b)) => f64_equal(*a, *b),
            (Constant::String(a), Constant::String(b)) => *a == *b,
            (Constant::Import(a), Constant::Import(b)) => *a == *b,
            (Constant::Table(a), Constant::Table(b)) => keys_equal(a, b),
            (Constant::Closure(a), Constant::Closure(b)) => *a == *b,
            (Constant::Vector(x1, y1, z1, w1), Constant::Vector(x2, y2, z2, w2)) => f32_equal(*x1, *x2)
                && f32_equal(*y1, *y2) && f32_equal(*z1, *z2) && f32_equal(*w1, *w2),
            (Constant::TableWithConstants(a), Constant::TableWithConstants(b)) => entries_equal(a, b),
            (Constant::Integer(a), Constant::Integer(b)) => *a == *b,
            _ => false,
        }
    }
}

impl vstd::std_specs::cmp::PartialEqSpecImpl for Constant {
    open spec fn obeys_eq_spec() -> bool {
        true
    }

    open spec fn eq_spec(&self, other: &Constant) -> bool {
        constant_equal(*self, *other)
    }
}

} // verus!
