//! The fixed words and signs of program text.

use vstd::prelude::*;

verus! {

/// `:=`
pub open spec fn assign_sign() -> Seq<char> {
    seq![':', '=']
}

/// `goto`
pub open spec fn goto_word() -> Seq<char> {
    seq!['g', 'o', 't', 'o']
}

/// `if`
pub open spec fn if_word() -> Seq<char> {
    seq!['i', 'f']
}

/// `halt`
pub open spec fn halt_word() -> Seq<char> {
    seq!['h', 'a', 'l', 't']
}

/// `read`
pub open spec fn read_word() -> Seq<char> {
    seq!['r', 'e', 'a', 'd']
}

/// `write`
pub open spec fn write_word() -> Seq<char> {
    seq!['w', 'r', 'i', 't', 'e']
}

/// One blank.
pub open spec fn blank() -> Seq<char> {
    seq![' ']
}

} // verus!
