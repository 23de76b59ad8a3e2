use rusty_tape::parser::Parser;
use rusty_tape::ram::error::RuntimeError;
use rusty_tape::ram::instruction::Instruction;
use rusty_tape::ram::instruction_op::InstructionOp::{
    AssignFromConst, Empty, Halt, Jump, Read, Store, Write,
};
use rusty_tape::ram::machine::RamMachine;
use rusty_tape::ui::cells::{insert_cell, sorted_cells};
use rusty_tape::ui::key::Key;
use rusty_tape::ui::menu::Menu;
use rusty_tape::ui::menu_rows::number_lines;
use rusty_tape::ui::screen::{
    align_left, align_right, decimal_chars, index_chars, piece_of, push_blanks, Piece, Tone,
};
use rusty_tape::ui::simulation::Simulation;
use std::collections::HashMap;

fn chars(text: &str) -> Vec<char> {
    text.chars().collect()
}

fn text(chars: &[char]) -> String {
    chars.iter().collect()
}

fn piece(text: &str, tone: Tone) -> Piece {
    Piece { text: text.to_string(), tone }
}

fn line(row: &[Piece]) -> String {
    row.iter().map(|p| p.text.as_str()).collect()
}

fn simulation(source: &str, input: Vec<i32>) -> Simulation {
    Simulation::new("demo".to_string(), Parser::parse_str(source).unwrap().with_input(input))
}

#[test]
fn alignment_of_texts() {
    assert_eq!(text(&align_right(&chars("ab"), 5)), "   ab");
    assert_eq!(text(&align_right(&chars("ab"), 2)), "ab");
    assert_eq!(text(&align_right(&chars("abc"), 2)), "abc");
    assert_eq!(text(&align_right(&chars(""), 0)), "");
    assert_eq!(text(&align_left(&chars("ab"), 5)), "ab   ");
    assert_eq!(text(&align_left(&chars("abc"), 2)), "abc");
    assert_eq!(text(&align_left(&chars(""), 2)), "  ");
    let mut out = chars("x");
    push_blanks(&mut out, 3);
    push_blanks(&mut out, 0);
    assert_eq!(text(&out), "x   ");
    assert_eq!(text(&decimal_chars(0)), "0");
    assert_eq!(text(&decimal_chars(1234)), "1234");
    assert_eq!(text(&index_chars(7, 3)), "  7| ");
    assert_eq!(text(&index_chars(12, 1)), "12| ");
    assert_eq!(text(&index_chars(0, 0)), "0| ");
    for (index, width) in [(0usize, 1usize), (9, 2), (10, 2), (117, 5)] {
        assert_eq!(
            text(&index_chars(index, width)),
            format!("{:width$}| ", index, width = width)
        );
    }
    assert_eq!(piece_of(&chars("ab"), Tone::Good), piece("ab", Tone::Good));
}

#[test]
fn cells_in_the_order_of_their_addresses() {
    let mut memory = HashMap::new();
    assert_eq!(sorted_cells(&memory), vec![]);
    for (address, value) in [(5, 50), (-2, 7), (100, 0), (0, 1), (3, -3), (-40, 4)] {
        memory.insert(address, value);
    }
    memory.insert(5, 55);
    assert_eq!(
        sorted_cells(&memory),
        vec![(-40, 4), (-2, 7), (0, 1), (3, -3), (5, 55), (100, 0)]
    );
    let mut cells = vec![(1, 10), (4, 40)];
    insert_cell(&mut cells, 2, 20);
    insert_cell(&mut cells, 0, 0);
    insert_cell(&mut cells, 9, 90);
    insert_cell(&mut cells, 4, 44);
    assert_eq!(cells, vec![(0, 0), (1, 10), (2, 20), (4, 40), (9, 90)]);
}

#[test]
fn listing_of_the_program() {
    let shown = simulation("first: R0 := 1 # one\n# note\n\ngoto first\nhalt # end", vec![]);
    assert_eq!(shown.label_indent(), 5);
    assert_eq!(shown.machine().get_instruction_pointer(), 0);
    let rows = shown.code_rows();
    assert_eq!(
        rows,
        vec![
            vec![
                piece("0| ", Tone::Marked),
                piece("first: ", Tone::Plain),
                piece("R0 := 1", Tone::Marked),
                piece(" # one", Tone::Dim),
            ],
            vec![
                piece("1| ", Tone::Dim),
                piece("       ", Tone::Plain),
                piece("", Tone::Plain),
                piece("# note", Tone::Dim),
            ],
            vec![
                piece("2| ", Tone::Dim),
                piece("       ", Tone::Plain),
                piece("", Tone::Plain),
                piece("", Tone::Plain),
            ],
            vec![
                piece("3| ", Tone::Dim),
                piece("       ", Tone::Plain),
                piece("goto first", Tone::Plain),
                piece("", Tone::Plain),
            ],
            vec![
                piece("4| ", Tone::Dim),
                piece("       ", Tone::Plain),
                piece("halt", Tone::Plain),
                piece(" # end", Tone::Dim),
            ],
        ]
    );
}

#[test]
fn listing_marks_the_line_under_the_pointer() {
    let mut shown = simulation("a: R0 := 1\n\nlonger: halt", vec![]);
    shown.handle_input(Key::Enter);
    let rows = shown.code_rows();
    assert_eq!(rows[0][0], piece("0| ", Tone::Dim));
    assert_eq!(rows[0][1], piece("a:      ", Tone::Plain));
    assert_eq!(rows[0][2], piece("R0 := 1", Tone::Plain));
    assert_eq!(rows[2][0], piece("2| ", Tone::Marked));
    assert_eq!(rows[2][1], piece("longer: ", Tone::Plain));
    assert_eq!(rows[2][2], piece("halt", Tone::Marked));
}

#[test]
fn listing_numbers_fill_their_column() {
    let source = "halt\n".repeat(12);
    let rows = simulation(&source, vec![]).code_rows();
    assert_eq!(rows.len(), 12);
    assert_eq!(rows[0][0].text, " 0| ");
    assert_eq!(rows[9][0].text, " 9| ");
    assert_eq!(rows[11][0].text, "11| ");
    assert_eq!(rows[0][1].text, "  ");
    let none = simulation("", vec![]).code_rows();
    assert_eq!(none.len(), 0);
}

#[test]
fn rows_of_the_store() {
    let machine = RamMachine::new(vec![
        Instruction::new(AssignFromConst(7, -1)),
        Instruction::new(AssignFromConst(-5, 20)),
        Instruction::new(AssignFromConst(120, 3)),
        Instruction::new(AssignFromConst(7, 8)),
    ]);
    let mut shown = Simulation::new("demo".to_string(), machine);
    assert_eq!(shown.memory_rows(), Vec::<Vec<Piece>>::new());
    for _ in 0..4 {
        shown.handle_input(Key::Enter);
    }
    assert_eq!(
        shown.memory_rows(),
        vec![
            vec![piece(" -5| ", Tone::Dim), piece("20", Tone::Plain)],
            vec![piece("  7| ", Tone::Dim), piece("8", Tone::Plain)],
            vec![piece("120| ", Tone::Dim), piece("3", Tone::Plain)],
        ]
    );
}

#[test]
fn rows_of_the_store_take_the_width_of_the_last_address() {
    let machine = RamMachine::new(vec![
        Instruction::new(AssignFromConst(-1000, 1)),
        Instruction::new(AssignFromConst(5, 2)),
    ]);
    let mut shown = Simulation::new("demo".to_string(), machine);
    shown.handle_input(Key::Enter);
    shown.handle_input(Key::Enter);
    let rows = shown.memory_rows();
    assert_eq!(rows[0][0].text, "-1000| ");
    assert_eq!(rows[1][0].text, "5| ");
}

#[test]
fn output_tape_and_its_caret() {
    let mut shown = simulation("R0 := 12\nwrite(R0)\nR0 := -3\nwrite(R0)", vec![]);
    let (numbers, pointers) = shown.output_tape_rows();
    assert_eq!(
        numbers,
        vec![piece("[", Tone::Plain), piece("_", Tone::Marked), piece("]", Tone::Plain)]
    );
    assert_eq!(pointers, vec![piece(" ", Tone::Plain), piece("^", Tone::Marked)]);
    for _ in 0..4 {
        shown.handle_input(Key::Enter);
    }
    let (numbers, pointers) = shown.output_tape_rows();
    assert_eq!(
        numbers,
        vec![
            piece("[", Tone::Plain),
            piece("12, ", Tone::Plain),
            piece("-3, ", Tone::Plain),
            piece("_", Tone::Marked),
            piece("]", Tone::Plain),
        ]
    );
    assert_eq!(
        pointers,
        vec![
            piece(" ", Tone::Plain),
            piece("    ", Tone::Plain),
            piece("    ", Tone::Plain),
            piece("^", Tone::Marked),
        ]
    );
    assert_eq!(line(&numbers), "[12, -3, _]");
    assert_eq!(line(&pointers), "         ^");
}

#[test]
fn input_tape_and_its_caret() {
    let mut shown = simulation("R0 := read()\nR0 := read()\nR0 := read()", vec![1, 25, -3]);
    shown.handle_input(Key::Enter);
    let (numbers, pointers) = shown.input_tape_rows();
    assert_eq!(
        numbers,
        vec![
            piece("[", Tone::Plain),
            piece("1, ", Tone::Dim),
            piece("25, ", Tone::Marked),
            piece("-3", Tone::Plain),
            piece("]", Tone::Plain),
        ]
    );
    assert_eq!(
        pointers,
        vec![
            piece(" ", Tone::Plain),
            piece("", Tone::Plain),
            piece(" ", Tone::Plain),
            piece("  ", Tone::Plain),
            piece(" ", Tone::Plain),
            piece("^", Tone::Marked),
            piece("  ", Tone::Plain),
            piece(" ", Tone::Plain),
            piece(" ", Tone::Plain),
            piece("", Tone::Plain),
        ]
    );
    assert_eq!(line(&numbers), "[1, 25, -3]");
    assert_eq!(line(&pointers), "     ^    ");
}

#[test]
fn input_tape_caret_stands_under_the_last_digit() {
    let input = vec![7, -120, 0, 33];
    for cursor in 0..input.len() {
        let mut shown = simulation(&"R0 := read()\n".repeat(4), input.clone());
        for _ in 0..cursor {
            shown.handle_input(Key::Enter);
        }
        let (numbers, pointers) = shown.input_tape_rows();
        let tape = line(&numbers);
        let under = line(&pointers);
        assert_eq!(tape, "[7, -120, 0, 33]");
        assert_eq!(under.matches('^').count(), 1);
        let at = under.find('^').unwrap();
        let numeral = input[cursor].to_string();
        assert_eq!(&tape[at + 1 - numeral.len()..at + 1], numeral, "{}", cursor);
    }
}

#[test]
fn input_tape_once_it_is_read() {
    let mut shown = simulation("R0 := read()\nR0 := read()", vec![4, 5]);
    shown.handle_input(Key::Enter);
    shown.handle_input(Key::Enter);
    let (numbers, pointers) = shown.input_tape_rows();
    assert_eq!(
        numbers,
        vec![
            piece("[", Tone::Plain),
            piece("4, ", Tone::Dim),
            piece("5", Tone::Dim),
            piece(", ", Tone::Dim),
            piece("_", Tone::Marked),
            piece("]", Tone::Plain),
        ]
    );
    assert_eq!(line(&numbers), "[4, 5, _]");
    assert_eq!(line(&pointers), "       ^");
    assert_eq!(pointers[pointers.len() - 2], piece("  ", Tone::Plain));
    let empty = simulation("halt", vec![]);
    let (numbers, pointers) = empty.input_tape_rows();
    assert_eq!(
        numbers,
        vec![
            piece("[", Tone::Plain),
            piece("", Tone::Dim),
            piece("_", Tone::Marked),
            piece("]", Tone::Plain),
        ]
    );
    assert_eq!(
        pointers,
        vec![piece(" ", Tone::Plain), piece("", Tone::Plain), piece("^", Tone::Marked)]
    );
}

#[test]
fn state_of_the_run() {
    let mut shown = simulation("R0 := read()\nwrite(R0)\ngoto gone", vec![3, 4]);
    assert_eq!(shown.pane_tone(), Tone::Plain);
    assert_eq!(
        shown.info_rows(),
        vec![
            piece("Running simulation: demo", Tone::Plain),
            piece("│ Instruction Pointer: 0", Tone::Plain),
            piece("│ Input Pointer: 0", Tone::Plain),
            piece("│ Output Tape Length: 0", Tone::Plain),
            piece("", Tone::Plain),
        ]
    );
    for _ in 0..3 {
        shown.handle_input(Key::Enter);
    }
    assert_eq!(shown.pane_tone(), Tone::Dim);
    assert_eq!(
        shown.info_rows(),
        vec![
            piece("Running simulation: demo", Tone::Plain),
            piece("│ Instruction Pointer: 2", Tone::Plain),
            piece("│ Input Pointer: 1", Tone::Plain),
            piece("│ Output Tape Length: 1", Tone::Plain),
            piece("", Tone::Plain),
            piece("Error!", Tone::Alert),
            piece("│ Label gone not found", Tone::Alert),
            piece("│ Press 'Esc' to exit", Tone::Alert),
        ]
    );
    assert_eq!(RuntimeError::LabelNotFound("gone".to_string()).message(), "Label gone not found");
    let mut done = simulation("halt", vec![]);
    done.handle_input(Key::Char(' '));
    assert_eq!(done.pane_tone(), Tone::Dim);
    assert_eq!(
        done.info_rows()[5..],
        [
            piece("Simulation Finished!", Tone::Good),
            piece("│ Press 'Esc' to exit", Tone::Good),
        ]
    );
}

#[test]
fn rows_of_the_menu() {
    let files =
        vec!["./data/add.ram".to_string(), "c.ram".to_string(), "./a/b/deep.ram".to_string()];
    let mut menu = Menu::new(files);
    assert_eq!(
        menu.help_lines(),
        vec!["Up/Down arrows to select a file.", "Enter to load the file.", "Esc to exit."]
    );
    assert_eq!(menu.files_tone(), Tone::Bright);
    assert_eq!(menu.input_tone(), Tone::Dim);
    assert_eq!(menu.input_text(), "[]");
    assert_eq!(
        menu.file_rows(),
        vec![
            vec![piece("  ", Tone::Plain), piece("./data/", Tone::Dim), piece("add.ram", Tone::Plain)],
            vec![piece("  ", Tone::Plain), piece("", Tone::Dim), piece("c.ram", Tone::Plain)],
            vec![
                piece("  ", Tone::Plain),
                piece("./a/b/", Tone::Dim),
                piece("deep.ram", Tone::Plain),
            ],
        ]
    );
    menu.handle_input(Key::Down);
    menu.handle_input(Key::Down);
    let rows = menu.file_rows();
    assert_eq!(
        rows[1],
        vec![piece("> ", Tone::Chosen), piece("", Tone::Dim), piece("c.ram", Tone::Chosen)]
    );
    assert_eq!(rows[0][0], piece("  ", Tone::Plain));
    menu.handle_input(Key::Enter);
    menu.machine_loaded(Ok(RamMachine::new(vec![Instruction::new(Halt)])));
    menu.handle_input(Key::Char('4'));
    menu.handle_input(Key::Char(','));
    menu.handle_input(Key::Char('2'));
    assert_eq!(
        menu.help_lines(),
        vec!["Please enter the input tape.", "Enter to confirm.", "Esc to go back."]
    );
    assert_eq!(menu.files_tone(), Tone::Dim);
    assert_eq!(menu.input_tone(), Tone::Bright);
    assert_eq!(menu.input_text(), "[4, 2]");
}

#[test]
fn lines_with_their_numbers() {
    let lines: Vec<String> = (0..11).map(|i| format!("line {}", i)).collect();
    let rows = number_lines(&lines);
    assert_eq!(rows.len(), 11);
    assert_eq!(rows[0], vec![piece(" 0| ", Tone::Dim), piece("line 0", Tone::Plain)]);
    assert_eq!(rows[10], vec![piece("10| ", Tone::Dim), piece("line 10", Tone::Plain)]);
    assert_eq!(number_lines(&Vec::new()), Vec::<Vec<Piece>>::new());
    let one = number_lines(&vec!["".to_string()]);
    assert_eq!(one, vec![vec![piece("0| ", Tone::Dim), piece("", Tone::Plain)]]);
}

#[test]
fn listing_shows_every_operation() {
    let program = vec![
        Instruction::new(Store(1, 2)).with_label("s"),
        Instruction::new(Read(3)),
        Instruction::new(Write(3)).with_comment("out"),
        Instruction::new(Jump("s".to_string())),
        Instruction::new(Empty).with_comment("rest"),
    ];
    let shown = Simulation::new("p".to_string(), RamMachine::new(program));
    let rows: Vec<String> = shown.code_rows().iter().map(|row| line(row)).collect();
    assert_eq!(
        rows,
        vec![
            "0| s: [R1] := R2",
            "1|    R3 := read()",
            "2|    write(R3) # out",
            "3|    goto s",
            "4|    # rest",
        ]
    );
}
