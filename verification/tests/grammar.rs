use rusty_tape::parser::{ParseError, Parser};
use rusty_tape::ram::instruction::Instruction;
use rusty_tape::ram::instruction_op::InstructionOp;
use rusty_tape::ram::instruction_op::InstructionOp::{
    ArithmeticRegOpConst, ArithmeticRegOpReg, AssignFromConst, AssignFromRegister,
    CondJumpRegRelConst, CondJumpRegRelReg, Empty, Halt, Jump, Load, Read, Store, Write,
};
use rusty_tape::ram::op::Op;
use rusty_tape::ram::rel::Rel;

fn chars(text: &str) -> Vec<char> {
    text.chars().collect()
}

fn text(chars: &[char]) -> String {
    chars.iter().collect()
}

fn operation(source: &str) -> Option<InstructionOp> {
    Parser::parse_operation(&chars(source))
}

fn line(source: &str) -> Option<Instruction> {
    Parser::parse_line(&chars(source))
}

fn program(source: &str) -> Vec<Instruction> {
    Parser::parse_str(source).unwrap().get_program().clone()
}

fn samples() -> Vec<InstructionOp> {
    vec![
        AssignFromConst(0, -42),
        AssignFromConst(2147483647, 2147483647),
        AssignFromConst(7, i32::MIN),
        AssignFromRegister(1, 0),
        Load(3, 120),
        Store(120, 3),
        ArithmeticRegOpReg(1, 2, Op::Add, 3),
        ArithmeticRegOpReg(1, 2, Op::Sub, 3),
        ArithmeticRegOpReg(1, 2, Op::Mul, 3),
        ArithmeticRegOpReg(1, 2, Op::Div, 3),
        ArithmeticRegOpConst(1, 2, Op::Sub, -3),
        ArithmeticRegOpConst(1, 2, Op::Add, 0),
        Jump("end".to_string()),
        Jump("".to_string()),
        Jump("two words".to_string()),
        CondJumpRegRelReg(0, Rel::Lt, 1, "a".to_string()),
        CondJumpRegRelReg(0, Rel::Gt, 1, "a".to_string()),
        CondJumpRegRelReg(0, Rel::Le, 1, "a".to_string()),
        CondJumpRegRelReg(0, Rel::Ge, 1, "a".to_string()),
        CondJumpRegRelReg(0, Rel::Eq, 1, "a".to_string()),
        CondJumpRegRelReg(0, Rel::Ne, 1, "a".to_string()),
        CondJumpRegRelConst(5, Rel::Ge, -4, "far away".to_string()),
        CondJumpRegRelConst(5, Rel::Ne, 0, "".to_string()),
        Read(9),
        Write(10),
        Halt,
    ]
}

#[test]
fn text_of_each_operation() {
    assert_eq!(AssignFromConst(0, -42).to_string(), "R0 := -42");
    assert_eq!(AssignFromRegister(1, 0).to_string(), "R1 := R0");
    assert_eq!(Load(3, 120).to_string(), "R3 := [R120]");
    assert_eq!(Store(120, 3).to_string(), "[R120] := R3");
    assert_eq!(ArithmeticRegOpReg(1, 2, Op::Add, 3).to_string(), "R1 := R2 + R3");
    assert_eq!(ArithmeticRegOpReg(1, 2, Op::Div, 3).to_string(), "R1 := R2 / R3");
    assert_eq!(ArithmeticRegOpConst(1, 2, Op::Sub, -3).to_string(), "R1 := R2 - -3");
    assert_eq!(ArithmeticRegOpConst(1, 2, Op::Mul, 10).to_string(), "R1 := R2 * 10");
    assert_eq!(Jump("end".to_string()).to_string(), "goto end");
    assert_eq!(
        CondJumpRegRelReg(0, Rel::Le, 1, "a".to_string()).to_string(),
        "if (R0 <= R1) goto a"
    );
    assert_eq!(
        CondJumpRegRelConst(5, Rel::Ne, -4, "far away".to_string()).to_string(),
        "if (R5 != -4) goto far away"
    );
    assert_eq!(Read(9).to_string(), "R9 := read()");
    assert_eq!(Write(10).to_string(), "write(R10)");
    assert_eq!(Halt.to_string(), "halt");
    assert_eq!(Empty.to_string(), "");
    assert_eq!(AssignFromConst(7, i32::MIN).to_string(), "R7 := -2147483648");
    assert_eq!(AssignFromConst(2147483647, 0).to_string(), "R2147483647 := 0");
}

#[test]
fn text_of_each_relation_and_operator() {
    let mut out = Vec::new();
    for rel in [Rel::Lt, Rel::Gt, Rel::Le, Rel::Ge, Rel::Eq, Rel::Ne] {
        rel.push_symbol(&mut out);
        out.push(' ');
    }
    for op in [Op::Add, Op::Sub, Op::Mul, Op::Div] {
        op.push_symbol(&mut out);
    }
    assert_eq!(text(&out), "< > <= >= == != +-*/");
}

#[test]
fn written_operations_read_back() {
    for op in samples() {
        let written = op.to_string();
        assert_eq!(operation(&written), Some(op.clone()), "{}", written);
        let parsed = line(&written).unwrap();
        assert_eq!(parsed.op, op);
        assert_eq!(parsed.label, None);
        assert_eq!(parsed.comment, None);
    }
}

#[test]
fn read_operations_write_and_read_back() {
    let sources = [
        "R1:=5",
        "R+1  :=   +5",
        "R01 := R002",
        "R1 := [R2]",
        "[R1]:=R2",
        "R1 := R2   *   R3",
        "R1 := R2 / -0",
        "gotoend",
        "goto",
        "goto   a  b ",
        "goto a := b",
        "if(R1 < 2)goto x",
        "if  ( R1   >=   R2 )   goto   far   away",
        "if (R1 == 1) goto",
        "R1 := read ( )",
        "write ( R1 )",
        " halt ",
    ];
    for source in sources {
        let op = operation(source).unwrap();
        let written = op.to_string();
        assert_eq!(operation(&written), Some(op), "{} -> {}", source, written);
    }
}

#[test]
fn written_operations_read_back_as_lines() {
    let source = "a: R1 := 5 # one\nb: if (R1 > 0) goto a\ngoto   # nowhere\nc: write(R1)";
    for instruction in program(source) {
        let written = instruction.op.to_string();
        assert_eq!(line(&written), Some(Instruction::new(instruction.op)), "{}", written);
    }
}

#[test]
fn jump_to_a_label_with_a_colon_reads_back_as_an_operation_only() {
    let parsed = line("x: goto a:b").unwrap();
    assert_eq!(parsed.label, Some("x".to_string()));
    assert_eq!(parsed.op, Jump("a:b".to_string()));
    let written = parsed.op.to_string();
    assert_eq!(written, "goto a:b");
    assert_eq!(operation(&written), Some(parsed.op));
    // read as a line, the text begins with the label `goto a`
    assert_eq!(split(&written), (Some("goto a".to_string()), "b".to_string()));
    assert_eq!(line(&written), None);
}

#[test]
fn placeholder_does_not_read_back_as_an_operation() {
    assert_eq!(operation(&Empty.to_string()), None);
    assert_eq!(line(&Empty.to_string()).unwrap().op, Empty);
}

#[test]
fn addresses() {
    assert_eq!(Parser::parse_register(&chars("R3")), Some(3));
    assert_eq!(Parser::parse_register(&chars("R129")), Some(129));
    assert_eq!(Parser::parse_register(&chars("R0")), Some(0));
    assert_eq!(Parser::parse_register(&chars("R007")), Some(7));
    assert_eq!(Parser::parse_register(&chars("R+5")), Some(5));
    assert_eq!(Parser::parse_register(&chars("R2147483647")), Some(2147483647));
    assert_eq!(Parser::parse_register(&chars("R2147483648")), None);
    assert_eq!(Parser::parse_register(&chars("R99999999999999999999999")), None);
    assert_eq!(Parser::parse_register(&chars("R00000000000000000000001")), Some(1));
    assert_eq!(Parser::parse_register(&chars("R")), None);
    assert_eq!(Parser::parse_register(&chars("R+")), None);
    assert_eq!(Parser::parse_register(&chars("R-0")), None);
    assert_eq!(Parser::parse_register(&chars("R-1")), None);
    assert_eq!(Parser::parse_register(&chars("R 5")), None);
    assert_eq!(Parser::parse_register(&chars(" R5")), None);
    assert_eq!(Parser::parse_register(&chars("R5 ")), None);
    assert_eq!(Parser::parse_register(&chars("r5")), None);
    assert_eq!(Parser::parse_register(&chars("5")), None);
    assert_eq!(Parser::parse_register(&chars("R5x")), None);
    assert_eq!(Parser::parse_register(&chars("")), None);
}

#[test]
fn constants() {
    assert_eq!(Parser::parse_value(&chars("1")), Some(1));
    assert_eq!(Parser::parse_value(&chars("-7")), Some(-7));
    assert_eq!(Parser::parse_value(&chars("7734")), Some(7734));
    assert_eq!(Parser::parse_value(&chars("  42\t")), Some(42));
    assert_eq!(Parser::parse_value(&chars("+5")), Some(5));
    assert_eq!(Parser::parse_value(&chars("-0")), Some(0));
    assert_eq!(Parser::parse_value(&chars("0012")), Some(12));
    assert_eq!(Parser::parse_value(&chars("2147483647")), Some(i32::MAX));
    assert_eq!(Parser::parse_value(&chars("-2147483648")), Some(i32::MIN));
    assert_eq!(Parser::parse_value(&chars("2147483648")), None);
    assert_eq!(Parser::parse_value(&chars("-2147483649")), None);
    assert_eq!(Parser::parse_value(&chars("99999999999999999999")), None);
    assert_eq!(Parser::parse_value(&chars("")), None);
    assert_eq!(Parser::parse_value(&chars("-")), None);
    assert_eq!(Parser::parse_value(&chars("+")), None);
    assert_eq!(Parser::parse_value(&chars("+-5")), None);
    assert_eq!(Parser::parse_value(&chars("--5")), None);
    assert_eq!(Parser::parse_value(&chars("1 2")), None);
    assert_eq!(Parser::parse_value(&chars("12a")), None);
    assert_eq!(Parser::parse_value(&chars("R1")), None);
    assert_eq!(Parser::parse_value(&chars("١٢")), None);
}

#[test]
fn indirect_addresses() {
    assert_eq!(Parser::parse_memory_access(&chars("[R1]")), Some(1));
    assert_eq!(Parser::parse_memory_access(&chars("[R123]")), Some(123));
    assert_eq!(Parser::parse_memory_access(&chars("[ R1]")), None);
    assert_eq!(Parser::parse_memory_access(&chars("[R1 ]")), None);
    assert_eq!(Parser::parse_memory_access(&chars("[R1")), None);
    assert_eq!(Parser::parse_memory_access(&chars("R1]")), None);
    assert_eq!(Parser::parse_memory_access(&chars("[]")), None);
    assert_eq!(Parser::parse_memory_access(&chars("[")), None);
    assert_eq!(Parser::parse_memory_access(&chars("[[R1]]")), None);
}

#[test]
fn operators_and_relations() {
    assert_eq!(Parser::parse_op(&chars(" + ")), Some(Op::Add));
    assert_eq!(Parser::parse_op(&chars("++")), None);
    assert_eq!(Parser::parse_op(&chars("")), None);
    assert_eq!(Parser::parse_rel(&chars(" <= ")), Some(Rel::Le));
    assert_eq!(Parser::parse_rel(&chars("=")), None);
    assert_eq!(Parser::parse_rel(&chars("<>")), None);
    assert_eq!(Parser::parse_rel(&chars("< =")), None);
    assert_eq!(Parser::parse_rel(&chars("===")), None);
    assert_eq!(Parser::parse_rel(&chars("")), None);
}

#[test]
fn each_form_alone() {
    assert_eq!(Parser::parse_assign_from_const(&chars("R1 := 5")), Some(AssignFromConst(1, 5)));
    assert_eq!(Parser::parse_assign_from_const(&chars("R1 := R5")), None);
    assert_eq!(
        Parser::parse_assign_from_register(&chars("R1 := R5")),
        Some(AssignFromRegister(1, 5))
    );
    assert_eq!(Parser::parse_assign_from_register(&chars("R1 := 5")), None);
    assert_eq!(Parser::parse_load(&chars("R1 := [R5]")), Some(Load(1, 5)));
    assert_eq!(Parser::parse_load(&chars("[R1] := [R5]")), None);
    assert_eq!(Parser::parse_store(&chars("[R1] := R5")), Some(Store(1, 5)));
    assert_eq!(Parser::parse_store(&chars("[R1] := 5")), None);
    assert_eq!(
        Parser::parse_arithmetic_op(&chars("R1 := R2 + R3")),
        Some(ArithmeticRegOpReg(1, 2, Op::Add, 3))
    );
    assert_eq!(
        Parser::parse_arithmetic_op(&chars("R1 := R2 + 3")),
        Some(ArithmeticRegOpConst(1, 2, Op::Add, 3))
    );
    assert_eq!(Parser::parse_arithmetic_op(&chars("R1 := 2 + R3")), None);
    assert_eq!(Parser::parse_arithmetic_op(&chars("R1 := R2+R3")), None);
    assert_eq!(Parser::parse_arithmetic_op(&chars("R1 := R2 + R3 + R4")), None);
    assert_eq!(Parser::parse_arithmetic_op(&chars("R1 := R2 % R3")), None);
    assert_eq!(Parser::parse_arithmetic_op(&chars("R1 := R2 + x")), None);
    assert_eq!(Parser::parse_jump(&chars("goto end")), Some(Jump("end".to_string())));
    assert_eq!(Parser::parse_jump(&chars(" goto end")), None);
    assert_eq!(Parser::parse_jump(&chars("go to end")), None);
    assert_eq!(
        Parser::parse_cond_jump_rel(&chars("if (R1 < R2) goto end")),
        Some(CondJumpRegRelReg(1, Rel::Lt, 2, "end".to_string()))
    );
    assert_eq!(
        Parser::parse_cond_jump_rel(&chars("if (R1 < 2) goto end")),
        Some(CondJumpRegRelConst(1, Rel::Lt, 2, "end".to_string()))
    );
    assert_eq!(Parser::parse_cond_jump_rel(&chars("if (1 < R2) goto end")), None);
    assert_eq!(Parser::parse_cond_jump_rel(&chars("if (R1<R2) goto end")), None);
    assert_eq!(Parser::parse_cond_jump_rel(&chars("if R1 < R2 goto end")), None);
    assert_eq!(Parser::parse_cond_jump_rel(&chars("if (R1 < R2) end")), None);
    assert_eq!(Parser::parse_cond_jump_rel(&chars("if (R1 < R2 goto end")), None);
    assert_eq!(Parser::parse_cond_jump_rel(&chars("if (R1 < R2 R3) goto end")), None);
    assert_eq!(Parser::parse_cond_jump_rel(&chars("when (R1 < R2) goto end")), None);
    assert_eq!(Parser::parse_halt(&chars("halt")), Some(Halt));
    assert_eq!(Parser::parse_halt(&chars("  halt ")), Some(Halt));
    assert_eq!(Parser::parse_halt(&chars("halt now")), None);
    assert_eq!(Parser::parse_halt(&chars("Halt")), None);
    assert_eq!(Parser::parse_read(&chars("R1 := read()")), Some(Read(1)));
    assert_eq!(Parser::parse_read(&chars("R1 := read ( ) ")), Some(Read(1)));
    assert_eq!(Parser::parse_read(&chars("R1 := read(R2)")), None);
    assert_eq!(Parser::parse_read(&chars("R1 := read")), None);
    assert_eq!(Parser::parse_read(&chars("[R1] := read()")), None);
    assert_eq!(Parser::parse_read(&chars("read()")), None);
    assert_eq!(Parser::parse_write(&chars("write(R1)")), Some(Write(1)));
    assert_eq!(Parser::parse_write(&chars("write ( R1 )")), Some(Write(1)));
    assert_eq!(Parser::parse_write(&chars("write(R1")), None);
    assert_eq!(Parser::parse_write(&chars("write()")), None);
    assert_eq!(Parser::parse_write(&chars("write(5)")), None);
    assert_eq!(Parser::parse_write(&chars(" write(R1)")), None);
}

#[test]
fn assignment_needs_exactly_one_sign() {
    assert_eq!(operation("R1 := := 5"), None);
    assert_eq!(operation("R1 := 5 := 6"), None);
    assert_eq!(operation("R1 = 5"), None);
    assert_eq!(operation("R1 : = 5"), None);
    assert_eq!(operation(":= 5"), None);
    assert_eq!(operation("R1 :="), None);
    let source = chars(" a :=  b c ");
    let sides = Parser::parse_assignment(&source).unwrap();
    assert_eq!((text(sides.0), text(sides.1)), ("a".to_string(), "b c".to_string()));
    assert!(Parser::parse_assignment(&chars("a := b := c")).is_none());
    assert!(Parser::parse_assignment(&chars("a = b")).is_none());
}

#[test]
fn jump_label_is_the_trimmed_rest() {
    assert_eq!(operation("goto   far   away  "), Some(Jump("far   away".to_string())));
    assert_eq!(operation("goto"), Some(Jump("".to_string())));
    assert_eq!(operation("gotoend"), Some(Jump("end".to_string())));
    assert_eq!(operation("goto R1 := 5"), Some(Jump("R1 := 5".to_string())));
}

#[test]
fn jump_label_holds_no_second_goto() {
    assert_eq!(operation("goto goto"), None);
    assert_eq!(operation("goto a goto b"), None);
    assert_eq!(operation("gotogoto"), None);
    assert_eq!(operation("if (R1 < 2) goto a goto b"), None);
    assert_eq!(operation("if (R1 < 2) goto goto"), None);
    assert_eq!(operation("goto got o"), Some(Jump("got o".to_string())));
}

#[test]
fn forms_do_not_match_in_part() {
    assert_eq!(operation("R1 := 5 6"), None);
    assert_eq!(operation("R1 := R2 R3"), None);
    assert_eq!(operation("R1 := [R2] 3"), None);
    assert_eq!(operation("halt halt"), None);
    assert_eq!(operation("write(R1) write(R2)"), None);
    assert_eq!(operation(""), None);
    assert_eq!(operation("nonsense"), None);
}

fn split(source: &str) -> (Option<String>, String) {
    let source = chars(source);
    let (label, rest) = Parser::split_line(&source);
    (label.map(text), text(rest))
}

#[test]
fn label_split() {
    assert_eq!(split("skip:    R0 := R0 + R1"), (Some("skip".to_string()), "R0 := R0 + R1".to_string()));
    assert_eq!(split("  R0 := R1  "), (None, "R0 := R1".to_string()));
    assert_eq!(split("R0 :  = R1"), (None, "R0 :  = R1".to_string()));
    assert_eq!(split(" my label :halt"), (Some("my label".to_string()), "halt".to_string()));
    assert_eq!(split("end:"), (Some("end".to_string()), "".to_string()));
    assert_eq!(split("a :"), (Some("a".to_string()), "".to_string()));
    assert_eq!(split("a:=:b"), (None, "a:=:b".to_string()));
    assert_eq!(split(": halt"), (Some("".to_string()), "halt".to_string()));
    assert_eq!(split("a: b: halt"), (Some("a".to_string()), "b: halt".to_string()));
    assert_eq!(split("halt"), (None, "halt".to_string()));
}

#[test]
fn labelled_instructions() {
    assert_eq!(
        Parser::parse_instruction(&chars("skip:    R0 := R0 + R1")),
        Some(Instruction::new(ArithmeticRegOpReg(0, 0, Op::Add, 1)).with_label("skip"))
    );
    assert_eq!(
        Parser::parse_instruction(&chars("end: halt")),
        Some(Instruction::new(Halt).with_label("end"))
    );
    assert_eq!(
        Parser::parse_instruction(&chars("R0 := R1")),
        Some(Instruction::new(AssignFromRegister(0, 1)))
    );
    assert_eq!(Parser::parse_instruction(&chars("end:")), None);
    assert_eq!(Parser::parse_instruction(&chars("end: ")), None);
    assert_eq!(Parser::parse_instruction(&chars("a: b: halt")), None);
    assert_eq!(Parser::parse_instruction(&chars("goto x:")), None);
    assert_eq!(
        Parser::parse_instruction(&chars("l: goto x:")),
        Some(Instruction::new(Jump("x:".to_string())).with_label("l"))
    );
}

#[test]
fn comments_and_placeholders() {
    assert_eq!(
        line("R0 := 0  # counter"),
        Some(Instruction::new(AssignFromConst(0, 0)).with_comment("counter"))
    );
    assert_eq!(line("   # only a note  "), Some(Instruction::new(Empty).with_comment("only a note")));
    assert_eq!(line("#"), Some(Instruction::new(Empty).with_comment("")));
    assert_eq!(line(""), Some(Instruction::new(Empty)));
    assert_eq!(line("   \t "), Some(Instruction::new(Empty)));
    assert_eq!(
        line("x: halt # a # b"),
        Some(Instruction::new(Halt).with_label("x").with_comment("a # b"))
    );
    assert_eq!(line("halt#"), Some(Instruction::new(Halt).with_comment("")));
    assert_eq!(line("bogus # note"), None);
    assert_eq!(line("goto a#b"), Some(Instruction::new(Jump("a".to_string())).with_comment("b")));
}

#[test]
fn placeholders_are_kept_in_the_program() {
    let parsed = program("\n# head\nR0 := 1\n\nhalt # done\n");
    assert_eq!(
        parsed,
        vec![
            Instruction::new(Empty),
            Instruction::new(Empty).with_comment("head"),
            Instruction::new(AssignFromConst(0, 1)),
            Instruction::new(Empty),
            Instruction::new(Halt).with_comment("done"),
        ]
    );
    let machine = Parser::parse_str("\n# head\nR0 := 1\n\nhalt # done\n").unwrap();
    assert_eq!(machine.get_instruction_pointer(), 2);
}

#[test]
fn lines_of_a_text() {
    let split = |source: &str| -> Vec<String> {
        Parser::split_lines(&chars(source)).iter().map(|l| text(l)).collect()
    };
    assert_eq!(split(""), Vec::<String>::new());
    assert_eq!(split("a"), vec!["a"]);
    assert_eq!(split("a\n"), vec!["a"]);
    assert_eq!(split("a\nb"), vec!["a", "b"]);
    assert_eq!(split("a\n\nb\n"), vec!["a", "", "b"]);
    assert_eq!(split("\n"), vec![""]);
    assert_eq!(split("a\r\nb\r\n"), vec!["a", "b"]);
    assert_eq!(split("a\r"), vec!["a\r"]);
    assert_eq!(split("a\r\r\nb"), vec!["a\r", "b"]);
    assert_eq!(split("a\rb\n"), vec!["a\rb"]);
}

#[test]
fn lines_are_those_of_the_standard_library() {
    let pieces = ["", "a", "b c", "\n", "\r", "\r\n", "\n\n", " \t", "#x", "\r\r"];
    for first in pieces {
        for second in pieces {
            for third in pieces {
                let source = format!("{}{}{}", first, second, third);
                let expected: Vec<String> = source.lines().map(|l| l.to_string()).collect();
                let found: Vec<String> =
                    Parser::split_lines(&chars(&source)).iter().map(|l| text(l)).collect();
                assert_eq!(found, expected, "{:?}", source);
            }
        }
    }
}

#[test]
fn numbers_read_back_over_a_range() {
    let mut values: Vec<i32> = (-300..300).collect();
    values.extend([i32::MIN, i32::MIN + 1, i32::MAX - 1, i32::MAX, 1_000_000_007, -999_999_999]);
    for value in values {
        let address = value.wrapping_abs().max(0);
        for op in [
            AssignFromConst(address, value),
            ArithmeticRegOpConst(address, 3, Op::Sub, value),
            CondJumpRegRelConst(address, Rel::Ge, value, "l".to_string()),
            Load(address, address),
        ] {
            assert_eq!(operation(&op.to_string()), Some(op.clone()), "{:?}", op);
        }
    }
}

#[test]
fn empty_source_is_an_empty_program() {
    assert_eq!(program(""), Vec::new());
    assert_eq!(program("\n"), vec![Instruction::new(Empty)]);
}

#[test]
fn unknown_line_fails_with_its_text() {
    let error = Parser::parse_str("R0 := 1\n  bogus line  # why\nalso bogus\nR1 := 2").unwrap_err();
    assert_eq!(error, ParseError { line: "  bogus line  # why".to_string() });
    let error = Parser::parse_str("R0 := 1\r\nR0 = 1\r\n").unwrap_err();
    assert_eq!(error.line, "R0 = 1");
    let error = Parser::parse_lines(vec!["halt", "R1 := R2 +", "nope"]).unwrap_err();
    assert_eq!(error.line, "R1 := R2 +");
}

#[test]
fn literal_out_of_range_fails() {
    assert!(Parser::parse_str("R0 := 2147483648").is_err());
    assert!(Parser::parse_str("R0 := -2147483649").is_err());
    assert!(Parser::parse_str("R2147483648 := 0").is_err());
    assert!(Parser::parse_str("R0 := R1 + 2147483648").is_err());
    assert!(Parser::parse_str("if (R0 < 2147483648) goto x").is_err());
    assert!(Parser::parse_str("R0 := 2147483647").is_ok());
}

#[test]
fn parse_lines_reads_like_parse_str() {
    let from_lines = Parser::parse_lines(vec!["a: R0 := 1 # one", "", "goto a"]).unwrap();
    let from_text = Parser::parse_str("a: R0 := 1 # one\n\ngoto a").unwrap();
    assert_eq!(from_lines.get_program(), from_text.get_program());
    assert_eq!(
        from_lines.get_program(),
        &vec![
            Instruction::new(AssignFromConst(0, 1)).with_label("a").with_comment("one"),
            Instruction::new(Empty),
            Instruction::new(Jump("a".to_string())),
        ]
    );
}

#[test]
fn instruction_builders() {
    let plain = Instruction::new(Halt);
    assert_eq!(plain.label, None);
    assert_eq!(plain.op, Halt);
    assert_eq!(plain.comment, None);
    let labelled = plain.clone().with_label("l");
    assert_eq!(labelled.label, Some("l".to_string()));
    assert_eq!(labelled.comment, None);
    let both = labelled.with_comment("c").with_label("m");
    assert_eq!(both.label, Some("m".to_string()));
    assert_eq!(both.comment, Some("c".to_string()));
    assert_eq!(both.op, Halt);
    assert!(Empty.is_empty());
    assert!(!Halt.is_empty());
}

#[test]
fn unicode_white_space_is_trimmed() {
    assert_eq!(
        line("\u{2003}R0\u{a0}:=\u{3000}7\u{2028}"),
        Some(Instruction::new(AssignFromConst(0, 7)))
    );
    assert_eq!(
        operation("R1 := R2\u{2009}+\u{2009}R3"),
        Some(ArithmeticRegOpReg(1, 2, Op::Add, 3))
    );
    assert_eq!(operation("goto caf\u{e9}"), Some(Jump("caf\u{e9}".to_string())));
}
