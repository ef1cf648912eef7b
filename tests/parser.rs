use mipsy::{
    parse_mips, ErrorLocation, MPArgument, MPDirective, MPInstruction, MPItem, ParseError, Register,
    RegisterError,
};

fn inst(name: &str, arguments: Vec<(MPArgument, u32)>, col: u32) -> MPItem {
    MPItem::Instruction(MPInstruction { name: name.to_string(), arguments, col })
}

fn reg(r: Register, col: u32) -> (MPArgument, u32) {
    (MPArgument::Register(r), col)
}

fn num(n: i32, col: u32) -> (MPArgument, u32) {
    (MPArgument::Number(n), col)
}

const ADD_S: &str = " # add 17 and 25  and print result

main:                    #  x, y, z in $t0, $t1, $t2,
    li   $t0, 17         # x = 17;

    li   $t1, 25         # y = 25;

    add  $t2, $t1, $t0   # z = x + y

    move $a0, $t2        # printf(\"%d\", a0);
    li   $v0, 1
    syscall

    li   $a0, '\\n'       # printf(\"%c\", '\\n');
    li   $v0, 11
    syscall

    li   $v0, 0          # return 0
    jr   $ra
";

#[test]
fn add_s() {
    let program = parse_mips(ADD_S).unwrap();
    let expected = vec![
        (MPItem::Label("main".to_string()), 3),
        (inst("li", vec![reg(Register::T0, 10), num(17, 15)], 5), 4),
        (inst("li", vec![reg(Register::T1, 10), num(25, 15)], 5), 6),
        (inst("add", vec![reg(Register::T2, 10), reg(Register::T1, 15), reg(Register::T0, 20)], 5), 8),
        (inst("move", vec![reg(Register::A0, 10), reg(Register::T2, 15)], 5), 10),
        (inst("li", vec![reg(Register::V0, 10), num(1, 15)], 5), 11),
        (inst("syscall", vec![], 5), 12),
        (inst("li", vec![reg(Register::A0, 10), (MPArgument::Char('\n'), 15)], 5), 14),
        (inst("li", vec![reg(Register::V0, 10), num(11, 15)], 5), 15),
        (inst("syscall", vec![], 5), 16),
        (inst("li", vec![reg(Register::V0, 10), num(0, 15)], 5), 18),
        (inst("jr", vec![reg(Register::RA, 10)], 5), 19),
    ];
    assert_eq!(program.items(), &expected[..]);
}

#[test]
fn typo_fails_at_start_of_line() {
    let source = ADD_S.replace("add  $t2", "@dd  $t2");
    assert_eq!(parse_mips(&source), Err(ParseError::Syntax(ErrorLocation { line: 8, col: 5 })));
}

#[test]
fn bad_register_fails_the_whole_parse() {
    let source = ADD_S.replace("move $a0", "move $t10");
    assert_eq!(
        parse_mips(&source),
        Err(ParseError::Register(
            ErrorLocation { line: 10, col: 10 },
            RegisterError::NamedRegisterOutOfRange { reg_name: 't', reg_index: 10 }
        ))
    );
}

#[test]
fn missing_operand_after_comma_fails() {
    assert_eq!(parse_mips("main:\n  li $t0,\n"), Err(ParseError::Syntax(ErrorLocation { line: 2, col: 3 })));
}

#[test]
fn empty_and_comment_only_sources() {
    assert_eq!(parse_mips("").unwrap().items().len(), 0);
    assert_eq!(parse_mips("  # nothing here\n\n# or here").unwrap().items().len(), 0);
}

#[test]
fn tabs_count_to_the_next_stop() {
    let program = parse_mips("\tli\t$t0, -3").unwrap();
    assert_eq!(
        program.items(),
        &[(inst("li", vec![reg(Register::T0, 17), num(-3, 22)], 9), 1)][..]
    );
}

#[test]
fn label_and_instruction_on_one_line() {
    let program = parse_mips("loop: j loop # forever\n").unwrap();
    assert_eq!(
        program.items(),
        &[
            (MPItem::Label("loop".to_string()), 1),
            (inst("j", vec![(MPArgument::Label("loop".to_string()), 9)], 7), 1),
        ][..]
    );
}

#[test]
fn directives_with_operands() {
    let program = parse_mips(".data\nnums: .word 1, -2, +3\n").unwrap();
    let word = MPDirective {
        name: "word".to_string(),
        arguments: vec![num(1, 13), num(-2, 16), num(3, 20)],
        col: 7,
    };
    let data = MPDirective { name: "data".to_string(), arguments: vec![], col: 1 };
    assert_eq!(
        program.items(),
        &[
            (MPItem::Directive(data), 1),
            (MPItem::Label("nums".to_string()), 2),
            (MPItem::Directive(word), 2),
        ][..]
    );
}

#[test]
fn numeric_register_operands() {
    let program = parse_mips("addi $8, $0, 5").unwrap();
    assert_eq!(
        program.items(),
        &[(inst("addi", vec![reg(Register::T0, 6), reg(Register::ZERO, 10), num(5, 14)], 1), 1)][..]
    );
}

#[test]
fn number_too_large_fails() {
    assert_eq!(parse_mips("li $t0, 2147483648"), Err(ParseError::Syntax(ErrorLocation { line: 1, col: 1 })));
    assert!(parse_mips("li $t0, -2147483648").is_ok());
}

#[test]
fn items_mut_edits_the_program() {
    let mut program = parse_mips("a:\nb:").unwrap();
    program.items_mut().pop();
    assert_eq!(program.items(), &[(MPItem::Label("a".to_string()), 1)][..]);
}

#[test]
fn string_literal_operands() {
    let program = parse_mips("msg: .asciiz \"hi,\\t\\\"you\\\"\\n\"").unwrap();
    let d = MPDirective {
        name: "asciiz".to_string(),
        arguments: vec![(MPArgument::Text("hi,\t\"you\"\n".to_string()), 14)],
        col: 6,
    };
    assert_eq!(
        program.items(),
        &[(MPItem::Label("msg".to_string()), 1), (MPItem::Directive(d), 1)][..]
    );
}

#[test]
fn unterminated_string_fails() {
    assert_eq!(parse_mips(".asciiz \"oops\n\""), Err(ParseError::Syntax(ErrorLocation { line: 1, col: 1 })));
}

#[test]
fn memory_operands() {
    let program = parse_mips("lw $t0, 4($sp)\nsw $t1, ($a0)\nlb $t2, -8($fp)").unwrap();
    assert_eq!(
        program.items(),
        &[
            (inst("lw", vec![reg(Register::T0, 4), (MPArgument::Offset(4, Register::SP), 9)], 1), 1),
            (inst("sw", vec![reg(Register::T1, 4), (MPArgument::Offset(0, Register::A0), 9)], 1), 2),
            (inst("lb", vec![reg(Register::T2, 4), (MPArgument::Offset(-8, Register::FP), 9)], 1), 3),
        ][..]
    );
}

#[test]
fn character_literals() {
    let program = parse_mips("li $a0, 'x'\nli $a1, '\\''").unwrap();
    assert_eq!(
        program.items(),
        &[
            (inst("li", vec![reg(Register::A0, 4), (MPArgument::Char('x'), 9)], 1), 1),
            (inst("li", vec![reg(Register::A1, 4), (MPArgument::Char('\''), 9)], 1), 2),
        ][..]
    );
    assert_eq!(parse_mips("li $a0, 'xy'"), Err(ParseError::Syntax(ErrorLocation { line: 1, col: 1 })));
}

#[test]
fn register_errors_carry_the_operand_place() {
    assert_eq!(
        parse_mips("main:\n  lw $t0, 4($x9)"),
        Err(ParseError::Register(
            ErrorLocation { line: 2, col: 13 },
            RegisterError::UnknownRegister("x9".to_string())
        ))
    );
    assert_eq!(
        parse_mips(".word 1\nadd $t0, $32, $t1"),
        Err(ParseError::Register(
            ErrorLocation { line: 2, col: 10 },
            RegisterError::NumRegisterOutOfRange(32)
        ))
    );
}

#[test]
fn operands_continue_after_comma_across_lines_and_comments() {
    let program = parse_mips("li $t0, # the value:\n    5\nsyscall").unwrap();
    assert_eq!(
        program.items(),
        &[
            (inst("li", vec![reg(Register::T0, 4), num(5, 5)], 1), 1),
            (inst("syscall", vec![], 1), 3),
        ][..]
    );
}

#[test]
fn register_error_on_a_continuation_line() {
    assert_eq!(
        parse_mips("add $t0,\n  $t99, $t1"),
        Err(ParseError::Register(
            ErrorLocation { line: 2, col: 3 },
            RegisterError::NamedRegisterOutOfRange { reg_name: 't', reg_index: 99 }
        ))
    );
}
