//! Reading program text.

use vstd::prelude::*;
use vstd::slice::{slice_subrange, slice_to_vec};
use vstd::string::StringExecFns;
use crate::ram::instruction::{program_view, Instruction, InstructionView};
use crate::ram::instruction_op::{InstructionOp, InstructionOpView};
use crate::ram::machine::RamMachine;
use crate::ram::op::Op;
use crate::ram::rel::Rel;
use crate::ram::state::MachineState;
use crate::ram::syntax::{assign_sign, goto_word, halt_word, if_word, read_word, write_word};
use crate::ram::types::Number;
use crate::text::convert::{chars_of, string_of};
use crate::text::number::{read_signed, read_unsigned};
use crate::text::search::{
    after, find_first, lemma_find, split_once_only, starts_with, without_first, without_last,
    without_prefix,
};
use crate::text::space::{trim, trim_start};
use crate::text::words::three_words;

pub mod grammar;
pub mod round_trip;

verus! {

/// A source line that writes no instruction.
#[derive(Debug, Clone, PartialEq, Eq)]
pub struct ParseError {
    /// The line as it stands in the source.
    pub line: String,
}

impl ParseError {
    /// The failure in words.
    pub fn message(&self) -> (message: String)
        ensures
            message@ == "Invalid instruction! "@ + self.line@,
    {
        let mut message = String::from_str("Invalid instruction! ");
        message.append(self.line.as_str());
        message
    }
}

/// The reader of program text.
pub struct Parser;

/// The mathematical content of an operation that may be missing.
pub open spec fn op_view(op: Option<InstructionOp>) -> Option<InstructionOpView> {
    match op {
        Some(op) => Some(op@),
        None => None,
    }
}

/// The mathematical content of an instruction that may be missing.
pub open spec fn instruction_view(i: Option<Instruction>) -> Option<InstructionView> {
    match i {
        Some(i) => Some(i@),
        None => None,
    }
}

/// The characters of a pair of texts that may be missing.
pub open spec fn pair_view(pair: Option<(&[char], &[char])>) -> Option<(Seq<char>, Seq<char>)> {
    match pair {
        Some((left, right)) => Some((left@, right@)),
        None => None,
    }
}

/// The characters of a text that may be missing.
pub open spec fn slice_view(s: Option<&[char]>) -> Option<Seq<char>> {
    match s {
        Some(s) => Some(s@),
        None => None,
    }
}

/// The characters of each line.
pub open spec fn texts(lines: Seq<Vec<char>>) -> Seq<Seq<char>> {
    lines.map_values(|line: Vec<char>| line@)
}

/// The characters of each string.
pub open spec fn str_texts(lines: Seq<&str>) -> Seq<Seq<char>> {
    lines.map_values(|line: &str| line@)
}

/// What reading a program gives: where every line writes an instruction, a
/// machine at the start of the program; else the first line that writes
/// none.
pub open spec fn parsed(r: Result<RamMachine, ParseError>, lines: Seq<Seq<char>>) -> bool {
    match grammar::program(lines) {
        Ok(program) => r matches Ok(machine) && machine.wf() && machine@ == MachineState::initial(
            program,
        ),
        Err(line) => r matches Err(error) && error.line@ == line,
    }
}

/// Once a line is not understood, the lines after it do not matter.
proof fn lemma_program_error_stays(lines: Seq<Seq<char>>, k: int)
    requires
        0 <= k <= lines.len(),
        grammar::program(lines.take(k)) is Err,
    ensures
        grammar::program(lines) == grammar::program(lines.take(k)),
    decreases lines.len() - k,
{
    if k < lines.len() {
        assert(lines.take(k + 1).drop_last() == lines.take(k));
        lemma_program_error_stays(lines, k + 1);
    } else {
        assert(lines.take(k) == lines);
    }
}

impl Parser {
    /// Reads a program, one instruction per line, and sets up a machine at
    /// its start. The first line that is not understood ends the reading.
    pub fn parse_str(input: &str) -> (r: Result<RamMachine, ParseError>)
        ensures
            parsed(r, grammar::lines_of(input@)),
    {
        let text = chars_of(input);
        let lines = Parser::split_lines(text.as_slice());
        Parser::parse_program(&lines)
    }

    /// Reads a program from its lines and sets up a machine at its start.
    /// The first line that is not understood ends the reading.
    pub fn parse_lines(lines: Vec<&str>) -> (r: Result<RamMachine, ParseError>)
        ensures
            parsed(r, str_texts(lines@)),
    {
        let mut converted: Vec<Vec<char>> = Vec::new();
        let mut i: usize = 0;
        while i < lines.len()
            invariant
                i <= lines.len(),
                texts(converted@) == str_texts(lines@).take(i as int),
            decreases lines.len() - i,
        {
            let ghost before = texts(converted@);
            let line = chars_of(lines[i]);
            converted.push(line);
            assert(texts(converted@) =~= before.push(lines@[i as int]@));
            assert(str_texts(lines@).take(i + 1) =~= str_texts(lines@).take(i as int).push(
                lines@[i as int]@,
            ));
            i += 1;
        }
        assert(str_texts(lines@).take(lines.len() as int) == str_texts(lines@));
        Parser::parse_program(&converted)
    }

    /// The lines of a text.
    pub fn split_lines(text: &[char]) -> (lines: Vec<Vec<char>>)
        ensures
            texts(lines@) == grammar::lines_of(text@),
    {
        let feed: [char; 1] = ['\n'];
        assert(feed@ =~= seq!['\n']);
        let mut lines: Vec<Vec<char>> = Vec::new();
        let mut rest = text;
        assert(texts(lines@) =~= Seq::<Seq<char>>::empty());
        while rest.len() > 0
            invariant
                feed@ == seq!['\n'],
                grammar::lines_of(text@) == texts(lines@) + grammar::lines_of(rest@),
            decreases rest.len(),
        {
            let ghost before = texts(lines@);
            match find_first(rest, feed.as_slice()) {
                Some(at) => {
                    proof {
                        lemma_find(rest@, feed@);
                    }
                    let mut line = slice_subrange(rest, 0, at);
                    if line.len() > 0 && line[line.len() - 1] == '\r' {
                        line = slice_subrange(line, 0, line.len() - 1);
                    }
                    assert(line@ == grammar::before_line_feed(rest@.subrange(0, at as int)));
                    lines.push(slice_to_vec(line));
                    assert(texts(lines@) =~= before + seq![line@]);
                    let ghost old_rest = rest@;
                    rest = slice_subrange(rest, at + 1, rest.len());
                    assert(rest@ == after(old_rest, at + 1));
                    assert(before + grammar::lines_of(old_rest) =~= before + seq![line@]
                        + grammar::lines_of(rest@));
                },
                None => {
                    lines.push(slice_to_vec(rest));
                    assert(texts(lines@) =~= before + seq![rest@]);
                    assert(grammar::lines_of(rest@) == seq![rest@]);
                    return lines;
                },
            }
        }
        assert(grammar::lines_of(rest@) =~= Seq::<Seq<char>>::empty());
        assert(texts(lines@) + Seq::<Seq<char>>::empty() =~= texts(lines@));
        lines
    }

    /// Reads each line in turn and sets up a machine at the start of the
    /// program. The first line that is not understood ends the reading.
    pub fn parse_program(lines: &Vec<Vec<char>>) -> (r: Result<RamMachine, ParseError>)
        ensures
            parsed(r, texts(lines@)),
    {
        let mut instructions: Vec<Instruction> = Vec::new();
        let mut i: usize = 0;
        assert(program_view(instructions@) =~= Seq::empty());
        while i < lines.len()
            invariant
                i <= lines.len(),
                grammar::program(texts(lines@).take(i as int)) == Ok::<
                    Seq<InstructionView>,
                    Seq<char>,
                >(program_view(instructions@)),
            decreases lines.len() - i,
        {
            let ghost before = program_view(instructions@);
            assert(texts(lines@).take(i + 1).drop_last() == texts(lines@).take(i as int));
            assert(texts(lines@).take(i + 1).last() == lines@[i as int]@);
            match Parser::parse_line(lines[i].as_slice()) {
                Some(instruction) => {
                    instructions.push(instruction);
                    assert(program_view(instructions@) =~= before.push(instruction@));
                },
                None => {
                    proof {
                        lemma_program_error_stays(texts(lines@), i + 1);
                    }
                    return Err(ParseError { line: string_of(lines[i].as_slice()) });
                },
            }
            i += 1;
        }
        assert(texts(lines@).take(lines.len() as int) == texts(lines@));
        Ok(RamMachine::new(instructions))
    }

    /// Reads one source line: an instruction with its comment, or a
    /// placeholder where the line holds no instruction.
    pub fn parse_line(line: &[char]) -> (r: Option<Instruction>)
        ensures
            instruction_view(r) == grammar::source_line(line@),
    {
        let hash_sign: [char; 1] = ['#'];
        assert(hash_sign@ =~= seq!['#']);
        let t = trim(line);
        match find_first(t, hash_sign.as_slice()) {
            Some(hash) => {
                assert(hash + 1 <= t.len()) by {
                    lemma_find(t@, hash_sign@);
                }
                let comment = string_of(trim(slice_subrange(t, hash + 1, t.len())));
                let code = trim(slice_subrange(t, 0, hash));
                if code.len() == 0 {
                    Some(
                        Instruction {
                            label: None,
                            op: InstructionOp::Empty,
                            comment: Some(comment),
                        },
                    )
                } else {
                    match Parser::parse_instruction(code) {
                        Some(instruction) => Some(
                            Instruction {
                                label: instruction.label,
                                op: instruction.op,
                                comment: Some(comment),
                            },
                        ),
                        None => None,
                    }
                }
            },
            None => {
                if t.len() == 0 {
                    Some(Instruction::new(InstructionOp::Empty))
                } else {
                    Parser::parse_instruction(t)
                }
            },
        }
    }

    /// Parts a line into its label, if it has one, and the text of its
    /// operation.
    pub fn split_line(line: &[char]) -> (r: (Option<&[char]>, &[char]))
        ensures
            (slice_view(r.0), r.1@) == grammar::split_line(line@),
    {
        let colon_sign: [char; 1] = [':'];
        assert(colon_sign@ =~= seq![':']);
        if let Some(colon) = find_first(line, colon_sign.as_slice()) {
            assert(colon + 1 <= line.len()) by {
                lemma_find(line@, colon_sign@);
            }
            let rest = slice_subrange(line, colon + 1, line.len());
            let next = trim_start(rest);
            if !(next.len() > 0 && next[0] == '=') {
                assert(!starts_with(next@, seq!['='])) by {
                    if next@.len() > 0 {
                        assert(next@.subrange(0, 1)[0] == next@[0]);
                    }
                }
                return (Some(trim(slice_subrange(line, 0, colon))), trim(rest));
            }
            assert(next@.subrange(0, 1) =~= seq!['=']);
        }
        (None, trim(line))
    }

    /// Reads a line without comment: an optional label and an operation.
    pub fn parse_instruction(line: &[char]) -> (r: Option<Instruction>)
        ensures
            instruction_view(r) == grammar::instruction(line@),
    {
        let (label, text) = Parser::split_line(line);
        match Parser::parse_operation(text) {
            Some(op) => {
                let instruction = Instruction::new(op);
                match label {
                    Some(label) => {
                        let name = string_of(label);
                        Some(instruction.with_label(name.as_str()))
                    },
                    None => Some(instruction),
                }
            },
            None => None,
        }
    }

    /// Reads an operation: the forms are tried in a fixed order, each on
    /// the whole text, and the first that matches decides.
    pub fn parse_operation(text: &[char]) -> (r: Option<InstructionOp>)
        ensures
            op_view(r) == grammar::operation(text@),
    {
        if let Some(op) = Parser::parse_assign_from_const(text) {
            return Some(op);
        }
        if let Some(op) = Parser::parse_assign_from_register(text) {
            return Some(op);
        }
        if let Some(op) = Parser::parse_load(text) {
            return Some(op);
        }
        if let Some(op) = Parser::parse_store(text) {
            return Some(op);
        }
        if let Some(op) = Parser::parse_arithmetic_op(text) {
            return Some(op);
        }
        if let Some(op) = Parser::parse_jump(text) {
            return Some(op);
        }
        if let Some(op) = Parser::parse_cond_jump_rel(text) {
            return Some(op);
        }
        if let Some(op) = Parser::parse_halt(text) {
            return Some(op);
        }
        if let Some(op) = Parser::parse_read(text) {
            return Some(op);
        }
        Parser::parse_write(text)
    }

    /// Reads an arithmetic operator.
    pub fn parse_op(input: &[char]) -> (r: Option<Op>)
        ensures
            r == grammar::operator(input@),
    {
        let t = trim(input);
        if t.len() != 1 {
            return None;
        }
        let c = t[0];
        assert(t@ =~= seq![c]);
        if c == '+' {
            Some(Op::Add)
        } else if c == '-' {
            Some(Op::Sub)
        } else if c == '*' {
            Some(Op::Mul)
        } else if c == '/' {
            Some(Op::Div)
        } else {
            None
        }
    }

    /// Reads a relation.
    pub fn parse_rel(input: &[char]) -> (r: Option<Rel>)
        ensures
            r == grammar::relation(input@),
    {
        let t = trim(input);
        if t.len() == 1 {
            let c = t[0];
            assert(t@ =~= seq![c]);
            if c == '<' {
                Some(Rel::Lt)
            } else if c == '>' {
                Some(Rel::Gt)
            } else {
                None
            }
        } else if t.len() == 2 {
            let c = t[0];
            let d = t[1];
            assert(t@ =~= seq![c, d]);
            if d != '=' {
                None
            } else if c == '<' {
                Some(Rel::Le)
            } else if c == '>' {
                Some(Rel::Ge)
            } else if c == '=' {
                Some(Rel::Eq)
            } else if c == '!' {
                Some(Rel::Ne)
            } else {
                None
            }
        } else {
            None
        }
    }

    /// Reads an address.
    pub fn parse_register(input: &[char]) -> (r: Option<Number>)
        ensures
            r == grammar::register(input@),
    {
        match without_first(input, 'R') {
            Some(numeral) => match read_unsigned(numeral, 0x7FFF_FFFF) {
                Some(n) => Some(n as Number),
                None => None,
            },
            None => None,
        }
    }

    /// Reads a constant.
    pub fn parse_value(input: &[char]) -> (r: Option<Number>)
        ensures
            r == grammar::value(input@),
    {
        read_signed(trim(input))
    }

    /// Reads an indirect address.
    pub fn parse_memory_access(input: &[char]) -> (r: Option<Number>)
        ensures
            r == grammar::memory_access(input@),
    {
        match without_first(input, '[') {
            Some(rest) => match without_last(rest, ']') {
                Some(inner) => Parser::parse_register(inner),
                None => None,
            },
            None => None,
        }
    }

    /// The two sides of an assignment.
    pub fn parse_assignment(line: &[char]) -> (r: Option<(&[char], &[char])>)
        ensures
            pair_view(r) == grammar::assignment(line@),
    {
        let sign: [char; 2] = [':', '='];
        assert(sign@ =~= assign_sign());
        match split_once_only(line, sign.as_slice()) {
            Some((left, right)) => Some((trim(left), trim(right))),
            None => None,
        }
    }

    /// Reads `Ra := c`.
    pub fn parse_assign_from_const(line: &[char]) -> (r: Option<InstructionOp>)
        ensures
            op_view(r) == grammar::assign_from_const(line@),
    {
        match Parser::parse_assignment(line) {
            Some((left, right)) => match (
                Parser::parse_register(left),
                Parser::parse_value(right),
            ) {
                (Some(target), Some(value)) => Some(InstructionOp::AssignFromConst(target, value)),
                _ => None,
            },
            None => None,
        }
    }

    /// Reads `Ra := Rb`.
    pub fn parse_assign_from_register(line: &[char]) -> (r: Option<InstructionOp>)
        ensures
            op_view(r) == grammar::assign_from_register(line@),
    {
        match Parser::parse_assignment(line) {
            Some((left, right)) => match (
                Parser::parse_register(left),
                Parser::parse_register(right),
            ) {
                (Some(target), Some(source)) => Some(
                    InstructionOp::AssignFromRegister(target, source),
                ),
                _ => None,
            },
            None => None,
        }
    }

    /// Reads `Ra := [Rb]`.
    pub fn parse_load(line: &[char]) -> (r: Option<InstructionOp>)
        ensures
            op_view(r) == grammar::load(line@),
    {
        match Parser::parse_assignment(line) {
            Some((left, right)) => match (
                Parser::parse_register(left),
                Parser::parse_memory_access(right),
            ) {
                (Some(target), Some(source)) => Some(InstructionOp::Load(target, source)),
                _ => None,
            },
            None => None,
        }
    }

    /// Reads `[Ra] := Rb`.
    pub fn parse_store(line: &[char]) -> (r: Option<InstructionOp>)
        ensures
            op_view(r) == grammar::store(line@),
    {
        match Parser::parse_assignment(line) {
            Some((left, right)) => match (
                Parser::parse_memory_access(left),
                Parser::parse_register(right),
            ) {
                (Some(target), Some(source)) => Some(InstructionOp::Store(target, source)),
                _ => None,
            },
            None => None,
        }
    }

    /// Reads `Ra := Rb op Rc` or `Ra := Rb op c`.
    pub fn parse_arithmetic_op(line: &[char]) -> (r: Option<InstructionOp>)
        ensures
            op_view(r) == grammar::arithmetic_op(line@),
    {
        match Parser::parse_assignment(line) {
            Some((left, right)) => match three_words(right) {
                Some((first, second, third)) => match (
                    Parser::parse_register(left),
                    Parser::parse_register(first),
                    Parser::parse_op(second),
                ) {
                    (Some(target), Some(source1), Some(op)) => {
                        if let Some(source2) = Parser::parse_register(third) {
                            return Some(
                                InstructionOp::ArithmeticRegOpReg(target, source1, op, source2),
                            );
                        }
                        if let Some(value) = Parser::parse_value(third) {
                            return Some(
                                InstructionOp::ArithmeticRegOpConst(target, source1, op, value),
                            );
                        }
                        None
                    },
                    _ => None,
                },
                None => None,
            },
            None => None,
        }
    }

    /// Reads `goto label`.
    pub fn parse_jump(line: &[char]) -> (r: Option<InstructionOp>)
        ensures
            op_view(r) == grammar::jump(line@),
    {
        let word: [char; 4] = ['g', 'o', 't', 'o'];
        assert(word@ =~= goto_word());
        match without_prefix(line, word.as_slice()) {
            Some(rest) => {
                let label = trim(rest);
                match find_first(label, word.as_slice()) {
                    Some(_) => None,
                    None => Some(InstructionOp::Jump(string_of(label))),
                }
            },
            None => None,
        }
    }

    /// Reads `if (Ra rel Rb) goto label` or `if (Ra rel c) goto label`.
    pub fn parse_cond_jump_rel(line: &[char]) -> (r: Option<InstructionOp>)
        ensures
            op_view(r) == grammar::cond_jump_rel(line@),
    {
        let if_chars: [char; 2] = ['i', 'f'];
        assert(if_chars@ =~= if_word());
        let goto_chars: [char; 4] = ['g', 'o', 't', 'o'];
        assert(goto_chars@ =~= goto_word());
        let rest = match without_prefix(line, if_chars.as_slice()) {
            Some(rest) => rest,
            None => {
                return None;
            },
        };
        let (before, target) = match split_once_only(trim(rest), goto_chars.as_slice()) {
            Some(parts) => parts,
            None => {
                return None;
            },
        };
        let condition = match Parser::parse_in_parentheses(trim(before)) {
            Some(condition) => condition,
            None => {
                return None;
            },
        };
        match three_words(condition) {
            Some((first, second, third)) => match (
                Parser::parse_register(first),
                Parser::parse_rel(second),
            ) {
                (Some(reg1), Some(rel)) => {
                    if let Some(value) = Parser::parse_value(third) {
                        return Some(
                            InstructionOp::CondJumpRegRelConst(
                                reg1,
                                rel,
                                value,
                                string_of(trim(target)),
                            ),
                        );
                    }
                    if let Some(reg2) = Parser::parse_register(third) {
                        return Some(
                            InstructionOp::CondJumpRegRelReg(
                                reg1,
                                rel,
                                reg2,
                                string_of(trim(target)),
                            ),
                        );
                    }
                    None
                },
                _ => None,
            },
            None => None,
        }
    }

    /// What stands between an opening and a closing parenthesis.
    pub fn parse_in_parentheses(text: &[char]) -> (r: Option<&[char]>)
        ensures
            slice_view(r) == grammar::in_parentheses(text@),
    {
        match without_first(text, '(') {
            Some(rest) => without_last(rest, ')'),
            None => None,
        }
    }

    /// Reads `halt`.
    pub fn parse_halt(line: &[char]) -> (r: Option<InstructionOp>)
        ensures
            op_view(r) == grammar::halt(line@),
    {
        let t = trim(line);
        if t.len() == 4 && t[0] == 'h' && t[1] == 'a' && t[2] == 'l' && t[3] == 't' {
            assert(t@ =~= halt_word());
            Some(InstructionOp::Halt)
        } else {
            None
        }
    }

    /// What stands between the parentheses of a call of `word`.
    pub fn parse_call_argument<'a>(text: &'a [char], word: &[char]) -> (r: Option<&'a [char]>)
        ensures
            slice_view(r) == grammar::call_argument(text@, word@),
    {
        match without_prefix(text, word) {
            Some(rest) => match without_first(trim(rest), '(') {
                Some(inner) => match without_last(trim(inner), ')') {
                    Some(argument) => Some(trim(argument)),
                    None => None,
                },
                None => None,
            },
            None => None,
        }
    }

    /// Reads `Ra := read()`.
    pub fn parse_read(line: &[char]) -> (r: Option<InstructionOp>)
        ensures
            op_view(r) == grammar::read(line@),
    {
        let word: [char; 4] = ['r', 'e', 'a', 'd'];
        assert(word@ =~= read_word());
        match Parser::parse_assignment(line) {
            Some((left, right)) => match Parser::parse_call_argument(right, word.as_slice()) {
                Some(argument) => {
                    if argument.len() == 0 {
                        match Parser::parse_register(left) {
                            Some(register) => Some(InstructionOp::Read(register)),
                            None => None,
                        }
                    } else {
                        None
                    }
                },
                None => None,
            },
            None => None,
        }
    }

    /// Reads `write(Ra)`.
    pub fn parse_write(line: &[char]) -> (r: Option<InstructionOp>)
        ensures
            op_view(r) == grammar::write(line@),
    {
        let word: [char; 5] = ['w', 'r', 'i', 't', 'e'];
        assert(word@ =~= write_word());
        match Parser::parse_call_argument(line, word.as_slice()) {
            Some(argument) => match Parser::parse_register(argument) {
                Some(register) => Some(InstructionOp::Write(register)),
                None => None,
            },
            None => None,
        }
    }
}

} // verus!
