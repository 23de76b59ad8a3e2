//! Relational operators of conditional jumps.

use vstd::prelude::*;
use crate::ram::types::Number;

verus! {

/// A comparison between two stored values.
#[derive(Debug, Clone, Copy, PartialEq, Eq, Structural)]
pub enum Rel {
    Lt,
    Gt,
    Le,
    Ge,
    Eq,
    Ne,
}

impl Rel {
    /// Whether the relation holds between `a` and `b`.
    pub open spec fn holds_spec(self, a: Number, b: Number) -> bool {
        match self {
            Rel::Lt => a < b,
            Rel::Gt => a > b,
            Rel::Le => a <= b,
            Rel::Ge => a >= b,
            Rel::Eq => a == b,
            Rel::Ne => a != b,
        }
    }

    /// The source text of the relation.
    pub open spec fn symbol_spec(self) -> Seq<char> {
        match self {
            Rel::Lt => seq!['<'],
            Rel::Gt => seq!['>'],
            Rel::Le => seq!['<', '='],
            Rel::Ge => seq!['>', '='],
            Rel::Eq => seq!['=', '='],
            Rel::Ne => seq!['!', '='],
        }
    }

    /// Appends the source text of the relation to `out`.
    pub fn push_symbol(self, out: &mut Vec<char>)
        ensures
            final(out)@ == old(out)@ + self.symbol_spec(),
    {
        match self {
            Rel::Lt => {
                out.push('<');
            },
            Rel::Gt => {
                out.push('>');
            },
            Rel::Le => {
                out.push('<');
                out.push('=');
            },
            Rel::Ge => {
                out.push('>');
                out.push('=');
            },
            Rel::Eq => {
                out.push('=');
                out.push('=');
            },
            Rel::Ne => {
                out.push('!');
                out.push('=');
            },
        }
        assert(final(out)@ =~= old(out)@ + self.symbol_spec());
    }

    /// Evaluates the relation.
    pub fn holds(self, a: Number, b: Number) -> (r: bool)
        ensures
            r == self.holds_spec(a, b),
    {
        match self {
            Rel::Lt => a < b,
            Rel::Gt => a > b,
            Rel::Le => a <= b,
            Rel::Ge => a >= b,
            Rel::Eq => a == b,
            Rel::Ne => a != b,
        }
    }
}

} // verus!
