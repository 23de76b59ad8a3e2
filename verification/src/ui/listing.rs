//! The rows that show a simulation: the program, the store, the tapes and
//! the state of the run.

use vstd::prelude::*;
use vstd::string::StringExecFns;
use crate::ram::instruction::{program_view, text_of, Instruction, InstructionView};
use crate::ram::types::Number;
use crate::text::convert::{chars_of, push_all, string_of};
use crate::text::number::{decimal, lemma_signed_decimal, push_signed_decimal, signed_decimal};
use crate::ui::cells::{cells_of, sorted_cells};
use crate::ui::screen::{
    align_left, align_right, blanks, decimal_chars, index_chars, index_text, left_aligned, piece,
    piece_of, push_blanks, right_aligned, row_view, rows_view, Piece, PieceView, Tone,
};
use crate::ui::simulation::{Simulation, SimulationState, SimulationStateView, SimulationView};

verus! {

/// The label of a line as the listing shows it: with its colon, in a
/// column one wider than `indent`, and a blank; blanks alone where the
/// line has no label.
pub open spec fn label_text(label: Option<Seq<char>>, indent: int) -> Seq<char> {
    match label {
        Some(label) => left_aligned(label + seq![':'], indent + 1) + seq![' '],
        None => blanks(indent + 2),
    }
}

/// The comment of a line as the listing shows it: after its sign, which
/// stands further right where an operation comes before it.
pub open spec fn comment_piece(instruction: InstructionView) -> PieceView {
    match instruction.comment {
        Some(comment) => piece(
            (if instruction.op is Empty {
                seq!['#', ' ']
            } else {
                seq![' ', '#', ' ']
            }) + comment,
            Tone::Dim,
        ),
        None => piece(Seq::empty(), Tone::Plain),
    }
}

/// One row of the listing: the number of the line, its label, its
/// operation and its comment. The line under the pointer is marked.
pub open spec fn code_row(
    index: nat,
    instruction: InstructionView,
    pointer: nat,
    index_width: int,
    label_indent: int,
) -> Seq<PieceView> {
    seq![
        piece(
            index_text(index, index_width),
            if index == pointer {
                Tone::Marked
            } else {
                Tone::Dim
            },
        ),
        piece(label_text(instruction.label, label_indent), Tone::Plain),
        piece(
            instruction.op.text(),
            if index == pointer {
                Tone::Marked
            } else {
                Tone::Plain
            },
        ),
        comment_piece(instruction),
    ]
}

/// The listing of the program: one row for each line, numbered from 0 in a
/// column as wide as the number of lines is long.
pub open spec fn code_rows(simulation: SimulationView) -> Seq<Seq<PieceView>> {
    let program = simulation.machine.program;
    Seq::new(
        program.len(),
        |i: int|
            code_row(
                i as nat,
                program[i],
                simulation.machine.pointer,
                decimal(program.len()).len() as int,
                simulation.label_indent as int,
            ),
    )
}

/// The label of a line as the listing shows it.
fn label_chars(label: &Option<String>, indent: usize) -> (out: Vec<char>)
    requires
        indent <= usize::MAX - 2,
    ensures
        out@ == label_text(text_of(*label), indent as int),
{
    match label {
        Some(label) => {
            let mut name = chars_of(label.as_str());
            name.push(':');
            let mut out = align_left(name.as_slice(), indent + 1);
            out.push(' ');
            out
        },
        None => {
            let mut out: Vec<char> = Vec::new();
            push_blanks(&mut out, indent + 2);
            assert(out@ =~= blanks(indent + 2));
            out
        },
    }
}

/// The comment of a line as the listing shows it.
fn comment_of(instruction: &Instruction) -> (p: Piece)
    ensures
        p@ == comment_piece(instruction@),
{
    match &instruction.comment {
        Some(comment) => {
            let mut out: Vec<char> = Vec::new();
            if !instruction.op.is_empty() {
                out.push(' ');
            }
            out.push('#');
            out.push(' ');
            push_all(&mut out, chars_of(comment.as_str()).as_slice());
            assert(out@ =~= comment_piece(instruction@).text);
            piece_of(out.as_slice(), Tone::Dim)
        },
        None => piece_of(Vec::new().as_slice(), Tone::Plain),
    }
}

/// One row of the listing.
fn code_row_of(
    index: usize,
    instruction: &Instruction,
    pointer: usize,
    index_width: usize,
    label_indent: usize,
) -> (row: Vec<Piece>)
    requires
        label_indent <= usize::MAX - 2,
    ensures
        row_view(row@) == code_row(
            index as nat,
            instruction@,
            pointer as nat,
            index_width as int,
            label_indent as int,
        ),
{
    let marked = index == pointer;
    let mut row: Vec<Piece> = Vec::new();
    row.push(
        piece_of(
            index_chars(index, index_width).as_slice(),
            if marked {
                Tone::Marked
            } else {
                Tone::Dim
            },
        ),
    );
    row.push(piece_of(label_chars(&instruction.label, label_indent).as_slice(), Tone::Plain));
    row.push(
        piece_of(
            chars_of(instruction.op.to_string().as_str()).as_slice(),
            if marked {
                Tone::Marked
            } else {
                Tone::Plain
            },
        ),
    );
    row.push(comment_of(instruction));
    assert(row_view(row@) =~= code_row(
        index as nat,
        instruction@,
        pointer as nat,
        index_width as int,
        label_indent as int,
    ));
    row
}

impl Simulation {
    /// The listing of the program, with the line under the pointer marked.
    pub fn code_rows(&self) -> (rows: Vec<Vec<Piece>>)
        requires
            self@.label_indent <= usize::MAX - 2,
        ensures
            rows_view(rows@) == code_rows(self@),
    {
        let machine = self.machine();
        let program = machine.get_program();
        let pointer = machine.get_instruction_pointer();
        let label_indent = self.label_indent();
        let index_width = decimal_chars(program.len()).len();
        let mut rows: Vec<Vec<Piece>> = Vec::new();
        let mut i: usize = 0;
        while i < program.len()
            invariant
                i <= program.len(),
                label_indent <= usize::MAX - 2,
                program_view(program@) == self@.machine.program,
                pointer == self@.machine.pointer,
                label_indent == self@.label_indent,
                index_width == decimal(program.len() as nat).len(),
                rows@.len() == i,
                forall|k: int| 0 <= k < i ==> row_view(#[trigger] rows@[k]@) == code_rows(self@)[k],
            decreases program.len() - i,
        {
            let row = code_row_of(i, &program[i], pointer, index_width, label_indent);
            assert(self@.machine.program[i as int] == program@[i as int]@);
            rows.push(row);
            i += 1;
        }
        assert(rows_view(rows@) =~= code_rows(self@));
        rows
    }
}

/// The text of a row: that of its pieces, one after the other.
pub open spec fn row_text(row: Seq<PieceView>) -> Seq<char>
    decreases row.len(),
{
    if row.len() == 0 {
        Seq::empty()
    } else {
        row_text(row.drop_last()) + row.last().text
    }
}

/// The mark of the place where the next value goes or comes from.
pub open spec fn slot() -> PieceView {
    piece(seq!['_'], Tone::Marked)
}

/// The mark under the place that the cursor is at.
pub open spec fn caret() -> PieceView {
    piece(seq!['^'], Tone::Marked)
}

/// The values written so far, from the opening bracket on.
pub open spec fn output_numbers(output: Seq<Number>) -> Seq<PieceView>
    decreases output.len(),
{
    if output.len() == 0 {
        seq![piece(seq!['['], Tone::Plain)]
    } else {
        output_numbers(output.drop_last()).push(
            piece(signed_decimal(output.last() as int) + seq![',', ' '], Tone::Plain),
        )
    }
}

/// As many blanks as the values written so far take.
pub open spec fn output_blanks(output: Seq<Number>) -> Seq<PieceView>
    decreases output.len(),
{
    if output.len() == 0 {
        seq![piece(seq![' '], Tone::Plain)]
    } else {
        output_blanks(output.drop_last()).push(
            piece(blanks(signed_decimal(output.last() as int).len() as int + 2), Tone::Plain),
        )
    }
}

/// The output tape: its values in brackets, with the mark of the place
/// where the next value goes.
pub open spec fn output_number_line(output: Seq<Number>) -> Seq<PieceView> {
    output_numbers(output).push(slot()).push(piece(seq![']'], Tone::Plain))
}

/// The line under the output tape: the caret under the place where the
/// next value goes.
pub open spec fn output_pointer_line(output: Seq<Number>) -> Seq<PieceView> {
    output_blanks(output).push(caret())
}

/// What stands between a value of the input tape and the next: nothing
/// after the last value.
pub open spec fn separator_after(input: Seq<Number>, i: int) -> Seq<char> {
    if i == input.len() - 1 {
        Seq::empty()
    } else {
        seq![',', ' ']
    }
}

/// A value of the input tape with what follows it: greyed out where it has
/// been read, marked where the cursor is at it.
pub open spec fn input_number(input: Seq<Number>, cursor: nat, i: int) -> PieceView {
    piece(
        signed_decimal(input[i] as int) + separator_after(input, i),
        if i == cursor {
            Tone::Marked
        } else if i < cursor {
            Tone::Dim
        } else {
            Tone::Plain
        },
    )
}

/// The first `n` values of the input tape, from the opening bracket on.
pub open spec fn input_numbers(input: Seq<Number>, cursor: nat, n: nat) -> Seq<PieceView>
    decreases n,
{
    if n == 0 {
        seq![piece(seq!['['], Tone::Plain)]
    } else {
        input_numbers(input, cursor, (n - 1) as nat).push(input_number(input, cursor, n - 1))
    }
}

/// What stands under the first `n` values of the input tape: blanks, and
/// the caret under the last character of the value that the cursor is at.
pub open spec fn input_carets(input: Seq<Number>, cursor: nat, n: nat) -> Seq<PieceView>
    decreases n,
{
    if n == 0 {
        seq![piece(seq![' '], Tone::Plain)]
    } else {
        let i = n - 1;
        input_carets(input, cursor, (n - 1) as nat).push(
            piece(blanks(signed_decimal(input[i] as int).len() as int - 1), Tone::Plain),
        ).push(
            if i == cursor {
                caret()
            } else {
                piece(seq![' '], Tone::Plain)
            },
        ).push(piece(blanks(separator_after(input, i).len() as int), Tone::Plain))
    }
}

/// The input tape: its values in brackets. Once every value is read, the
/// mark of the place where the next value would come from follows them.
pub open spec fn input_number_line(input: Seq<Number>, cursor: nat) -> Seq<PieceView> {
    let values = input_numbers(input, cursor, input.len());
    let marked = if cursor == input.len() {
        values.push(
            piece(
                if cursor == 0 {
                    Seq::empty()
                } else {
                    seq![',', ' ']
                },
                Tone::Dim,
            ),
        ).push(slot())
    } else {
        values
    };
    marked.push(piece(seq![']'], Tone::Plain))
}

/// The line under the input tape: the caret under the place that the
/// cursor is at.
pub open spec fn input_pointer_line(input: Seq<Number>, cursor: nat) -> Seq<PieceView> {
    let carets = input_carets(input, cursor, input.len());
    if cursor == input.len() {
        carets.push(
            piece(
                if cursor == 0 {
                    Seq::empty()
                } else {
                    seq![' ', ' ']
                },
                Tone::Plain,
            ),
        ).push(caret())
    } else {
        carets
    }
}

/// The numeral of `value`.
fn number_chars(value: Number) -> (out: Vec<char>)
    ensures
        out@ == signed_decimal(value as int),
        out@.len() >= 1,
{
    let mut out: Vec<char> = Vec::new();
    push_signed_decimal(&mut out, value);
    assert(out@ =~= signed_decimal(value as int));
    proof {
        lemma_signed_decimal(value as int);
    }
    out
}

/// A piece of `n` blanks.
fn blank_piece(n: usize) -> (p: Piece)
    ensures
        p@ == piece(blanks(n as int), Tone::Plain),
{
    let mut out: Vec<char> = Vec::new();
    push_blanks(&mut out, n);
    assert(out@ =~= blanks(n as int));
    piece_of(out.as_slice(), Tone::Plain)
}

/// A piece of one character.
fn sign_piece(c: char, tone: Tone) -> (p: Piece)
    ensures
        p@ == piece(seq![c], tone),
{
    let sign: [char; 1] = [c];
    assert(sign@ =~= seq![c]);
    piece_of(sign.as_slice(), tone)
}

impl Simulation {
    /// The output tape and the line under it.
    pub fn output_tape_rows(&self) -> (rows: (Vec<Piece>, Vec<Piece>))
        ensures
            row_view(rows.0@) == output_number_line(self@.machine.output),
            row_view(rows.1@) == output_pointer_line(self@.machine.output),
    {
        let output = self.machine().get_output();
        let mut numbers: Vec<Piece> = Vec::new();
        let mut pointers: Vec<Piece> = Vec::new();
        numbers.push(sign_piece('[', Tone::Plain));
        pointers.push(sign_piece(' ', Tone::Plain));
        assert(output@.take(0) =~= Seq::<Number>::empty());
        assert(row_view(numbers@) =~= output_numbers(output@.take(0)));
        assert(row_view(pointers@) =~= output_blanks(output@.take(0)));
        let mut i: usize = 0;
        while i < output.len()
            invariant
                i <= output.len(),
                row_view(numbers@) == output_numbers(output@.take(i as int)),
                row_view(pointers@) == output_blanks(output@.take(i as int)),
            decreases output.len() - i,
        {
            let ghost numbers_before = row_view(numbers@);
            let ghost pointers_before = row_view(pointers@);
            let mut number = number_chars(output[i]);
            let width = number.len();
            number.push(',');
            number.push(' ');
            let number = piece_of(number.as_slice(), Tone::Plain);
            assert(number@.text =~= signed_decimal(output@[i as int] as int) + seq![',', ' ']);
            numbers.push(number);
            let mut under: Vec<char> = Vec::new();
            push_blanks(&mut under, width);
            under.push(' ');
            under.push(' ');
            assert(under@ =~= blanks(width + 2));
            pointers.push(piece_of(under.as_slice(), Tone::Plain));
            proof {
                assert(output@.take(i + 1).drop_last() == output@.take(i as int));
                assert(output@.take(i + 1).last() == output@[i as int]);
                assert(row_view(numbers@) =~= numbers_before.push(number@));
                assert(row_view(pointers@) =~= pointers_before.push(
                    piece(blanks(width + 2), Tone::Plain),
                ));
            }
            i += 1;
        }
        assert(output@.take(output.len() as int) == output@);
        let ghost numbers_before = row_view(numbers@);
        let ghost pointers_before = row_view(pointers@);
        numbers.push(sign_piece('_', Tone::Marked));
        numbers.push(sign_piece(']', Tone::Plain));
        pointers.push(sign_piece('^', Tone::Marked));
        assert(row_view(numbers@) =~= numbers_before.push(slot()).push(
            piece(seq![']'], Tone::Plain),
        ));
        assert(row_view(pointers@) =~= pointers_before.push(caret()));
        (numbers, pointers)
    }

    /// The input tape and the line under it.
    pub fn input_tape_rows(&self) -> (rows: (Vec<Piece>, Vec<Piece>))
        ensures
            row_view(rows.0@) == input_number_line(self@.machine.input, self@.machine.cursor),
            row_view(rows.1@) == input_pointer_line(self@.machine.input, self@.machine.cursor),
    {
        let input = self.machine().get_input();
        let cursor = self.machine().get_input_pointer();
        let mut numbers: Vec<Piece> = Vec::new();
        let mut pointers: Vec<Piece> = Vec::new();
        numbers.push(sign_piece('[', Tone::Plain));
        pointers.push(sign_piece(' ', Tone::Plain));
        assert(row_view(numbers@) =~= input_numbers(input@, cursor as nat, 0));
        assert(row_view(pointers@) =~= input_carets(input@, cursor as nat, 0));
        let mut i: usize = 0;
        while i < input.len()
            invariant
                i <= input.len(),
                row_view(numbers@) == input_numbers(input@, cursor as nat, i as nat),
                row_view(pointers@) == input_carets(input@, cursor as nat, i as nat),
            decreases input.len() - i,
        {
            let ghost numbers_before = row_view(numbers@);
            let ghost pointers_before = row_view(pointers@);
            let is_pointer = i == cursor;
            let last = i == input.len() - 1;
            let mut number = number_chars(input[i]);
            let width = number.len();
            if !last {
                number.push(',');
                number.push(' ');
            }
            let number = piece_of(
                number.as_slice(),
                if is_pointer {
                    Tone::Marked
                } else if i < cursor {
                    Tone::Dim
                } else {
                    Tone::Plain
                },
            );
            assert(number@.text =~= input_number(input@, cursor as nat, i as int).text);
            numbers.push(number);
            let before = blank_piece(width - 1);
            let under = if is_pointer {
                sign_piece('^', Tone::Marked)
            } else {
                sign_piece(' ', Tone::Plain)
            };
            let after = blank_piece(
                if last {
                    0
                } else {
                    2
                },
            );
            pointers.push(before);
            pointers.push(under);
            pointers.push(after);
            proof {
                assert(row_view(numbers@) =~= numbers_before.push(number@));
                assert(row_view(pointers@) =~= pointers_before.push(before@).push(under@).push(
                    after@,
                ));
            }
            i += 1;
        }
        if cursor == input.len() {
            let ghost numbers_before = row_view(numbers@);
            let ghost pointers_before = row_view(pointers@);
            let comma: [char; 2] = [',', ' '];
            let gap: [char; 2] = [' ', ' '];
            let none: [char; 0] = [];
            assert(comma@ =~= seq![',', ' ']);
            assert(gap@ =~= seq![' ', ' ']);
            assert(none@ =~= Seq::<char>::empty());
            let between = if cursor == 0 {
                piece_of(none.as_slice(), Tone::Dim)
            } else {
                piece_of(comma.as_slice(), Tone::Dim)
            };
            let under = if cursor == 0 {
                piece_of(none.as_slice(), Tone::Plain)
            } else {
                piece_of(gap.as_slice(), Tone::Plain)
            };
            numbers.push(between);
            numbers.push(sign_piece('_', Tone::Marked));
            pointers.push(under);
            pointers.push(sign_piece('^', Tone::Marked));
            proof {
                assert(row_view(numbers@) =~= numbers_before.push(between@).push(slot()));
                assert(row_view(pointers@) =~= pointers_before.push(under@).push(caret()));
            }
        }
        let ghost numbers_before = row_view(numbers@);
        numbers.push(sign_piece(']', Tone::Plain));
        assert(row_view(numbers@) =~= numbers_before.push(piece(seq![']'], Tone::Plain)));
        (numbers, pointers)
    }
}

/// A line of the state of the run: a name, then a number.
pub open spec fn count_line(name: Seq<char>, count: nat) -> PieceView {
    piece(name + decimal(count), Tone::Plain)
}

/// The lines that tell how the run has ended, if it has.
pub open spec fn ending_rows(state: SimulationStateView) -> Seq<PieceView> {
    match state {
        SimulationStateView::Running => Seq::empty(),
        SimulationStateView::Finished => seq![
            piece("Simulation Finished!"@, Tone::Good),
            piece("│ Press 'Esc' to exit"@, Tone::Good),
        ],
        SimulationStateView::Error(error) => seq![
            piece("Error!"@, Tone::Alert),
            piece("│ "@ + error.message(), Tone::Alert),
            piece("│ Press 'Esc' to exit"@, Tone::Alert),
        ],
    }
}

/// The state of the run, line by line: the name of the program, where the
/// machine stands, and how the run has ended, if it has.
pub open spec fn info_rows(simulation: SimulationView) -> Seq<PieceView> {
    seq![
        piece("Running simulation: "@ + simulation.name, Tone::Plain),
        count_line("│ Instruction Pointer: "@, simulation.machine.pointer),
        count_line("│ Input Pointer: "@, simulation.machine.cursor),
        count_line("│ Output Tape Length: "@, simulation.machine.output.len()),
        piece(Seq::empty(), Tone::Plain),
    ] + ending_rows(simulation.state)
}

/// A piece of the given text and tone.
fn text_piece(text: &str, tone: Tone) -> (p: Piece)
    ensures
        p@ == piece(text@, tone),
{
    Piece { text: String::from_str(text), tone }
}

/// A piece of two texts in a row.
fn joined_piece(first: &str, second: &str, tone: Tone) -> (p: Piece)
    ensures
        p@ == piece(first@ + second@, tone),
{
    let mut text = String::from_str(first);
    text.append(second);
    Piece { text, tone }
}

/// A line of the state of the run.
fn count_piece(name: &str, count: usize) -> (p: Piece)
    ensures
        p@ == count_line(name@, count as nat),
{
    let digits = string_of(decimal_chars(count).as_slice());
    joined_piece(name, digits.as_str(), Tone::Plain)
}

impl Simulation {
    /// The tone of the panes: greyed out once the run has ended.
    pub fn pane_tone(&self) -> (tone: Tone)
        ensures
            tone == (if self@.state is Running {
                Tone::Plain
            } else {
                Tone::Dim
            }),
    {
        match self.state() {
            SimulationState::Running => Tone::Plain,
            _ => Tone::Dim,
        }
    }

    /// The state of the run, line by line.
    pub fn info_rows(&self) -> (rows: Vec<Piece>)
        ensures
            row_view(rows@) == info_rows(self@),
    {
        let machine = self.machine();
        let mut rows: Vec<Piece> = Vec::new();
        rows.push(joined_piece("Running simulation: ", self.name().as_str(), Tone::Plain));
        rows.push(count_piece("│ Instruction Pointer: ", machine.get_instruction_pointer()));
        rows.push(count_piece("│ Input Pointer: ", machine.get_input_pointer()));
        rows.push(count_piece("│ Output Tape Length: ", machine.get_output().len()));
        rows.push(text_piece("", Tone::Plain));
        proof {
            reveal_strlit("");
            assert(""@ =~= Seq::<char>::empty());
        }
        match self.state() {
            SimulationState::Running => {},
            SimulationState::Finished => {
                rows.push(text_piece("Simulation Finished!", Tone::Good));
                rows.push(text_piece("│ Press 'Esc' to exit", Tone::Good));
            },
            SimulationState::Error(error) => {
                rows.push(text_piece("Error!", Tone::Alert));
                rows.push(joined_piece("│ ", error.message().as_str(), Tone::Alert));
                rows.push(text_piece("│ Press 'Esc' to exit", Tone::Alert));
            },
        }
        assert(row_view(rows@) =~= info_rows(self@));
        rows
    }
}

/// The width of the column of addresses: that of the last address.
pub open spec fn address_width(cells: Seq<(Number, Number)>) -> int {
    if cells.len() == 0 {
        0
    } else {
        signed_decimal(cells.last().0 as int).len() as int
    }
}

/// One row of the store: an address, right-aligned in its column, and the
/// value of the cell.
pub open spec fn memory_row(cell: (Number, Number), width: int) -> Seq<PieceView> {
    seq![
        piece(right_aligned(signed_decimal(cell.0 as int), width) + seq!['|', ' '], Tone::Dim),
        piece(signed_decimal(cell.1 as int), Tone::Plain),
    ]
}

/// The rows of the store: one for each of the cells.
pub open spec fn memory_rows(cells: Seq<(Number, Number)>) -> Seq<Seq<PieceView>> {
    Seq::new(cells.len(), |i: int| memory_row(cells[i], address_width(cells)))
}

impl Simulation {
    /// The written cells of the store, row by row, in the order of their
    /// addresses.
    pub fn memory_rows(&self) -> (rows: Vec<Vec<Piece>>)
        ensures
            exists|cells: Seq<(Number, Number)>|
                cells_of(cells, self@.machine.store) && rows_view(rows@) == #[trigger] memory_rows(
                    cells,
                ),
    {
        let cells = sorted_cells(self.machine().get_memory());
        let width = if cells.len() == 0 {
            0
        } else {
            number_chars(cells[cells.len() - 1].0).len()
        };
        let mut rows: Vec<Vec<Piece>> = Vec::new();
        let mut i: usize = 0;
        while i < cells.len()
            invariant
                i <= cells.len(),
                width == address_width(cells@),
                rows@.len() == i,
                forall|k: int|
                    0 <= k < i ==> row_view(#[trigger] rows@[k]@) == memory_row(
                        cells@[k],
                        width as int,
                    ),
            decreases cells.len() - i,
        {
            let mut address = align_right(number_chars(cells[i].0).as_slice(), width);
            address.push('|');
            address.push(' ');
            assert(address@ =~= right_aligned(
                signed_decimal(cells@[i as int].0 as int),
                width as int,
            ) + seq!['|', ' ']);
            let mut row: Vec<Piece> = Vec::new();
            row.push(piece_of(address.as_slice(), Tone::Dim));
            row.push(piece_of(number_chars(cells[i].1).as_slice(), Tone::Plain));
            assert(row_view(row@) =~= memory_row(cells@[i as int], width as int));
            rows.push(row);
            i += 1;
        }
        assert(rows_view(rows@) =~= memory_rows(cells@));
        rows
    }
}

} // verus!
