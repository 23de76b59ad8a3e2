//! The rows that show the menu: the keys it reacts to, the files on offer
//! and the lines of the chosen file.

use vstd::prelude::*;
use vstd::string::StringExecFns;
use vstd::slice::slice_subrange;
use crate::text::convert::{chars_of, push_all, string_of};
use crate::text::number::decimal;
use crate::text::split::{after_last, rest_after_last};
use crate::ui::menu::{texts_of, Menu, MenuState, MenuView};
use crate::ui::screen::{
    decimal_chars, index_chars, index_text, piece, piece_of, row_view, rows_view, Piece,
    PieceView, Tone,
};

verus! {

/// The keys that the menu reacts to, line by line.
pub open spec fn help_lines(state: MenuState) -> Seq<Seq<char>> {
    match state {
        MenuState::SelectingFile => seq![
            "Up/Down arrows to select a file."@,
            "Enter to load the file."@,
            "Esc to exit."@,
        ],
        MenuState::SpecifyingInput => seq![
            "Please enter the input tape."@,
            "Enter to confirm."@,
            "Esc to go back."@,
        ],
    }
}

/// The part of a path before the name of the file: up to the last slash,
/// and with it.
pub open spec fn directory_of(path: Seq<char>) -> Seq<char> {
    path.subrange(0, path.len() - after_last(path, seq!['/']).len())
}

/// One row of the list of files: an arrow before the chosen file, the
/// directory greyed out, the name of the file.
pub open spec fn file_row(path: Seq<char>, chosen: bool) -> Seq<PieceView> {
    let tone = if chosen {
        Tone::Chosen
    } else {
        Tone::Plain
    };
    seq![
        piece(
            if chosen {
                seq!['>', ' ']
            } else {
                seq![' ', ' ']
            },
            tone,
        ),
        piece(directory_of(path), Tone::Dim),
        piece(after_last(path, seq!['/']), tone),
    ]
}

/// The list of files: one row for each file on offer.
pub open spec fn file_rows(menu: MenuView) -> Seq<Seq<PieceView>> {
    Seq::new(
        menu.found_files.len(),
        |i: int| file_row(menu.found_files[i], menu.selected_file == Some(i as nat)),
    )
}

/// The lines of a text with their numbers, from 0, in a column as wide as
/// the number of lines is long.
pub open spec fn numbered_rows(lines: Seq<Seq<char>>) -> Seq<Seq<PieceView>> {
    Seq::new(
        lines.len(),
        |i: int|
            seq![
                piece(index_text(i as nat, decimal(lines.len()).len() as int), Tone::Dim),
                piece(lines[i], Tone::Plain),
            ],
    )
}

/// The lines of a text with their numbers.
pub fn number_lines(lines: &Vec<String>) -> (rows: Vec<Vec<Piece>>)
    ensures
        rows_view(rows@) == numbered_rows(texts_of(lines@)),
{
    let width = decimal_chars(lines.len()).len();
    let mut rows: Vec<Vec<Piece>> = Vec::new();
    let mut i: usize = 0;
    while i < lines.len()
        invariant
            i <= lines.len(),
            width == decimal(lines.len() as nat).len(),
            rows@.len() == i,
            forall|k: int|
                0 <= k < i ==> row_view(#[trigger] rows@[k]@) == numbered_rows(texts_of(lines@))[k],
        decreases lines.len() - i,
    {
        let mut row: Vec<Piece> = Vec::new();
        row.push(piece_of(index_chars(i, width).as_slice(), Tone::Dim));
        row.push(Piece { text: lines[i].clone(), tone: Tone::Plain });
        assert(row_view(row@) =~= numbered_rows(texts_of(lines@))[i as int]);
        rows.push(row);
        i += 1;
    }
    assert(rows_view(rows@) =~= numbered_rows(texts_of(lines@)));
    rows
}

/// One row of the list of files.
fn file_row_of(path: &String, chosen: bool) -> (row: Vec<Piece>)
    ensures
        row_view(row@) == file_row(path@, chosen),
{
    let slash: [char; 1] = ['/'];
    let arrow: [char; 2] = ['>', ' '];
    let gap: [char; 2] = [' ', ' '];
    assert(slash@ =~= seq!['/']);
    assert(arrow@ =~= seq!['>', ' ']);
    assert(gap@ =~= seq![' ', ' ']);
    let tone = if chosen {
        Tone::Chosen
    } else {
        Tone::Plain
    };
    let path = chars_of(path.as_str());
    let file = rest_after_last(path.as_slice(), slash.as_slice());
    let directory = slice_subrange(path.as_slice(), 0, path.len() - file.len());
    let mut row: Vec<Piece> = Vec::new();
    row.push(
        if chosen {
            piece_of(arrow.as_slice(), tone)
        } else {
            piece_of(gap.as_slice(), tone)
        },
    );
    row.push(piece_of(directory, Tone::Dim));
    row.push(piece_of(file, tone));
    assert(row_view(row@) =~= file_row(path@, chosen));
    row
}

impl Menu {
    /// The keys that the menu reacts to, line by line.
    pub fn help_lines(&self) -> (lines: Vec<String>)
        ensures
            texts_of(lines@) == help_lines(self@.state),
    {
        let mut lines: Vec<String> = Vec::new();
        match self.state() {
            MenuState::SelectingFile => {
                lines.push(String::from_str("Up/Down arrows to select a file."));
                lines.push(String::from_str("Enter to load the file."));
                lines.push(String::from_str("Esc to exit."));
            },
            MenuState::SpecifyingInput => {
                lines.push(String::from_str("Please enter the input tape."));
                lines.push(String::from_str("Enter to confirm."));
                lines.push(String::from_str("Esc to go back."));
            },
        }
        assert(texts_of(lines@) =~= help_lines(self@.state));
        lines
    }

    /// The tone of the list of files: bright while a file is chosen.
    pub fn files_tone(&self) -> (tone: Tone)
        ensures
            tone == (match self@.state {
                MenuState::SelectingFile => Tone::Bright,
                MenuState::SpecifyingInput => Tone::Dim,
            }),
    {
        match self.state() {
            MenuState::SelectingFile => Tone::Bright,
            MenuState::SpecifyingInput => Tone::Dim,
        }
    }

    /// The tone of the tape line: bright while the tape is typed.
    pub fn input_tone(&self) -> (tone: Tone)
        ensures
            tone == (match self@.state {
                MenuState::SelectingFile => Tone::Dim,
                MenuState::SpecifyingInput => Tone::Bright,
            }),
    {
        match self.state() {
            MenuState::SelectingFile => Tone::Dim,
            MenuState::SpecifyingInput => Tone::Bright,
        }
    }

    /// The tape line: what is typed so far, in brackets.
    pub fn input_text(&self) -> (text: String)
        ensures
            text@ == seq!['['] + self@.input + seq![']'],
    {
        let mut out: Vec<char> = Vec::new();
        out.push('[');
        push_all(&mut out, chars_of(self.input().as_str()).as_slice());
        out.push(']');
        assert(out@ =~= seq!['['] + self@.input + seq![']']);
        string_of(out.as_slice())
    }

    /// The list of files, with the chosen file marked.
    pub fn file_rows(&self) -> (rows: Vec<Vec<Piece>>)
        ensures
            rows_view(rows@) == file_rows(self@),
    {
        let files = self.found_files();
        let selected = self.selected_file();
        let mut rows: Vec<Vec<Piece>> = Vec::new();
        let mut i: usize = 0;
        while i < files.len()
            invariant
                i <= files.len(),
                texts_of(files@) == self@.found_files,
                match selected {
                    Some(at) => self@.selected_file == Some(at as nat),
                    None => self@.selected_file is None,
                },
                rows@.len() == i,
                forall|k: int| 0 <= k < i ==> row_view(#[trigger] rows@[k]@) == file_rows(self@)[k],
            decreases files.len() - i,
        {
            let chosen = match selected {
                Some(at) => at == i,
                None => false,
            };
            let row = file_row_of(&files[i], chosen);
            assert(self@.found_files[i as int] == files@[i as int]@);
            rows.push(row);
            i += 1;
        }
        assert(rows_view(rows@) =~= file_rows(self@));
        rows
    }
}

} // verus!
