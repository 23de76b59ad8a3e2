//! What the front end shows, as plain text with tones: the rows of its
//! lists before they are drawn.

use vstd::prelude::*;
use crate::text::convert::{push_all, string_of};
use crate::text::number::{decimal, push_decimal};

verus! {

/// How a piece of text is to be shown.
#[derive(Debug, Clone, Copy, PartialEq, Eq, Structural)]
pub enum Tone {
    /// As the terminal shows text by itself.
    Plain,
    /// Greyed out.
    Dim,
    /// Bright, for the pane that takes the keys.
    Bright,
    /// Coloured, for what is chosen.
    Chosen,
    /// Coloured and bold, for where the machine stands.
    Marked,
    /// For a failure.
    Alert,
    /// For a good end.
    Good,
}

/// A piece of text with its tone.
#[derive(Debug, Clone, PartialEq, Eq)]
pub struct Piece {
    pub text: String,
    pub tone: Tone,
}

/// The mathematical content of a [`Piece`].
pub struct PieceView {
    pub text: Seq<char>,
    pub tone: Tone,
}

impl View for Piece {
    type V = PieceView;

    open spec fn view(&self) -> PieceView {
        PieceView { text: self.text@, tone: self.tone }
    }
}

/// The mathematical content of a row of pieces.
pub open spec fn row_view(row: Seq<Piece>) -> Seq<PieceView> {
    row.map_values(|piece: Piece| piece@)
}

/// The mathematical content of rows of pieces.
pub open spec fn rows_view(rows: Seq<Vec<Piece>>) -> Seq<Seq<PieceView>> {
    rows.map_values(|row: Vec<Piece>| row_view(row@))
}

/// A piece of the given text and tone.
pub open spec fn piece(text: Seq<char>, tone: Tone) -> PieceView {
    PieceView { text, tone }
}

/// `n` blanks.
pub open spec fn blanks(n: int) -> Seq<char> {
    Seq::new(
        if n > 0 {
            n as nat
        } else {
            0
        },
        |i: int| ' ',
    )
}

/// `text` after as many blanks as it takes to fill `width` characters.
pub open spec fn right_aligned(text: Seq<char>, width: int) -> Seq<char> {
    blanks(width - text.len()) + text
}

/// `text` before as many blanks as it takes to fill `width` characters.
pub open spec fn left_aligned(text: Seq<char>, width: int) -> Seq<char> {
    text + blanks(width - text.len())
}

/// The number of a row in a listing: right-aligned in `width` characters,
/// then a bar and a blank.
pub open spec fn index_text(index: nat, width: int) -> Seq<char> {
    right_aligned(decimal(index), width) + seq!['|', ' ']
}

/// Appends `n` blanks to `out`.
pub fn push_blanks(out: &mut Vec<char>, n: usize)
    ensures
        final(out)@ == old(out)@ + blanks(n as int),
{
    let mut i: usize = 0;
    assert(old(out)@ + blanks(0) =~= old(out)@);
    while i < n
        invariant
            i <= n,
            out@ == old(out)@ + blanks(i as int),
        decreases n - i,
    {
        out.push(' ');
        assert(blanks(i + 1) =~= blanks(i as int).push(' '));
        i += 1;
    }
}

/// `text` after as many blanks as it takes to fill `width` characters.
pub fn align_right(text: &[char], width: usize) -> (out: Vec<char>)
    ensures
        out@ == right_aligned(text@, width as int),
{
    let mut out: Vec<char> = Vec::new();
    if text.len() < width {
        push_blanks(&mut out, width - text.len());
    }
    assert(out@ =~= blanks(width - text.len()));
    push_all(&mut out, text);
    out
}

/// `text` before as many blanks as it takes to fill `width` characters.
pub fn align_left(text: &[char], width: usize) -> (out: Vec<char>)
    ensures
        out@ == left_aligned(text@, width as int),
{
    let mut out: Vec<char> = Vec::new();
    push_all(&mut out, text);
    assert(out@ =~= text@);
    if text.len() < width {
        push_blanks(&mut out, width - text.len());
    } else {
        assert(out@ =~= text@ + blanks(width - text.len()));
    }
    out
}

/// The digits of `n`.
pub fn decimal_chars(n: usize) -> (out: Vec<char>)
    ensures
        out@ == decimal(n as nat),
{
    let mut out: Vec<char> = Vec::new();
    push_decimal(&mut out, n as u64);
    assert(out@ =~= decimal(n as nat));
    out
}

/// The number of a row in a listing.
pub fn index_chars(index: usize, width: usize) -> (out: Vec<char>)
    ensures
        out@ == index_text(index as nat, width as int),
{
    let mut out = align_right(decimal_chars(index).as_slice(), width);
    out.push('|');
    out.push(' ');
    assert(out@ =~= index_text(index as nat, width as int));
    out
}

/// A piece of the given characters and tone.
pub fn piece_of(text: &[char], tone: Tone) -> (p: Piece)
    ensures
        p@ == piece(text@, tone),
{
    Piece { text: string_of(text), tone }
}

} // verus!
