//! Arithmetic operators of the instruction set.

use vstd::prelude::*;
use crate::ram::types::Number;

verus! {

/// A binary arithmetic operator.
#[derive(Debug, Clone, Copy, PartialEq, Eq, Structural)]
pub enum Op {
    Add,
    Sub,
    Mul,
    Div,
}

/// The 32-bit signed number congruent to `x` modulo 2^32.
pub open spec fn wrap(x: int) -> Number {
    let r = x % 0x1_0000_0000;
    if r > Number::MAX {
        (r - 0x1_0000_0000) as Number
    } else {
        r as Number
    }
}

/// The quotient of `a` by `b`, rounded toward zero.
pub open spec fn quotient_toward_zero(a: int, b: int) -> int
    recommends
        b != 0,
{
    if a >= 0 {
        if b > 0 {
            a / b
        } else {
            -(a / (-b))
        }
    } else {
        if b > 0 {
            -((-a) / b)
        } else {
            (-a) / (-b)
        }
    }
}

impl Op {
    /// The result of the operator on two stored values. Sums, differences and
    /// products that leave the 32-bit range wrap around; so does the one
    /// quotient that leaves it.
    pub open spec fn apply_spec(self, a: Number, b: Number) -> Number
        recommends
            self == Op::Div ==> b != 0,
    {
        match self {
            Op::Add => wrap(a + b),
            Op::Sub => wrap(a - b),
            Op::Mul => wrap(a * b),
            Op::Div => wrap(quotient_toward_zero(a as int, b as int)),
        }
    }

    /// The source text of the operator.
    pub open spec fn symbol_spec(self) -> Seq<char> {
        match self {
            Op::Add => seq!['+'],
            Op::Sub => seq!['-'],
            Op::Mul => seq!['*'],
            Op::Div => seq!['/'],
        }
    }

    /// Applies the operator. Division by zero has no result.
    pub fn apply(self, a: Number, b: Number) -> (r: Option<Number>)
        ensures
            r == (if self == Op::Div && b == 0 {
                None
            } else {
                Some(self.apply_spec(a, b))
            }),
    {
        match self {
            Op::Add => Some(a.wrapping_add(b)),
            Op::Sub => Some(a.wrapping_sub(b)),
            Op::Mul => Some(a.wrapping_mul(b)),
            Op::Div => {
                if b == 0 {
                    None
                } else {
                    match a.checked_div(b) {
                        Some(q) => Some(q),
                        None => Some(Number::MIN),
                    }
                }
            },
        }
    }

    /// Appends the source text of the operator to `out`.
    pub fn push_symbol(self, out: &mut Vec<char>)
        ensures
            final(out)@ == old(out)@ + self.symbol_spec(),
    {
        match self {
            Op::Add => {
                out.push('+');
            },
            Op::Sub => {
                out.push('-');
            },
            Op::Mul => {
                out.push('*');
            },
            Op::Div => {
                out.push('/');
            },
        }
        assert(final(out)@ =~= old(out)@ + self.symbol_spec());
    }
}

} // verus!
