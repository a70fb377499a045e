use ram_asm::error::{InvalidArgument, ParseError};
use ram_asm::grammar::{is_valid_label, parse_register, parse_value};
use ram_asm::parser::{
    parse, parse_instruction, parse_line, parse_with_label, parse_with_register, parse_with_value,
};
use ram_asm::stmt::{Label, RegisterValue, Stmt, Value};

#[test]
fn test_label_is_not_valid() {
    let line = "фывфыфыв:";
    let result = parse_line(line, 0);

    assert_eq!(result, Err(ParseError::LabelIsNotValid(0)));
}

#[test]
fn test_unsupported_syntax() {
    let line = "LOAD 1 2";
    let result = parse_line(line, 0);

    assert_eq!(result, Err(ParseError::UnsupportedSyntax(0)));
}

#[test]
fn test_unsupported_opcode() {
    let line = "KoKotinf 1 2";
    let result = parse_line(line, 0);

    assert_eq!(result, Err(ParseError::UnsupportedSyntax(0)));
}

#[test]
fn test_argument_is_required() {
    let line = "LOAD";
    let result = parse_line(line, 0);

    assert_eq!(result, Err(ParseError::ArgumentIsRequired(0)));
}

#[test]
fn test_pure_argument_not_allowed() {
    let line = "STORE =1";
    let result = parse_line(line, 0);

    assert_eq!(result, Err(ParseError::pure_argument_not_allowed(0)));
}

#[test]
fn test_argument_value_must_be_numeric() {
    let line = "STORE *a";
    let result = parse_line(line, 0);

    assert_eq!(result, Err(ParseError::argument_value_must_be_numeric(0)));
}

#[test]
fn test_argument_is_not_valid() {
    let line = "STORE a";
    let result = parse_line(line, 0);

    assert_eq!(result, Err(ParseError::not_valid_argument(0)));
}

fn label(s: &str) -> Label {
    Label::new(s.to_string())
}

#[test]
fn valid_label_declaration() {
    assert_eq!(parse_line("loop_1:", 4), Ok(Some(Stmt::Label("loop_1".to_string(), 4))));
    assert_eq!(parse_line("_x:", 0), Ok(Some(Stmt::Label("_x".to_string(), 0))));
}

#[test]
fn invalid_label_declarations() {
    assert_eq!(parse_line("1abc:", 2), Err(ParseError::LabelIsNotValid(2)));
    assert_eq!(parse_line(":", 2), Err(ParseError::LabelIsNotValid(2)));
    assert_eq!(parse_line("a-b:", 2), Err(ParseError::LabelIsNotValid(2)));
}

#[test]
fn blank_and_comment_lines_give_nothing() {
    assert_eq!(parse_line("", 0), Ok(None));
    assert_eq!(parse_line("   \t ", 0), Ok(None));
    assert_eq!(parse_line("# only a comment", 0), Ok(None));
    assert_eq!(parse_line("   # indented comment", 0), Ok(None));
}

#[test]
fn comment_after_instruction_is_dropped() {
    assert_eq!(
        parse_line("LOAD =5 # then more words here", 1),
        Ok(Some(Stmt::Load(Value::Pure(5), 1)))
    );
    assert_eq!(parse_line("HALT#stop", 1), Ok(Some(Stmt::Halt(1))));
}

#[test]
fn too_many_tokens_before_opcode_lookup() {
    assert_eq!(parse_line("UNKNOWNOP 1 2", 3), Err(ParseError::UnsupportedSyntax(3)));
    assert_eq!(parse_line("a: b c", 3), Err(ParseError::UnsupportedSyntax(3)));
}

#[test]
fn unknown_opcode_is_reported_upper_cased() {
    assert_eq!(
        parse_line("UNKNOWNOP 1", 5),
        Err(ParseError::UnsupportedOpcode(5, "UNKNOWNOP".to_string()))
    );
    assert_eq!(
        parse_line("frob", 5),
        Err(ParseError::UnsupportedOpcode(5, "FROB".to_string()))
    );
}

#[test]
fn opcodes_are_case_insensitive() {
    let expected = Ok(Some(Stmt::Load(Value::Register(RegisterValue::Direct(7)), 0)));
    assert_eq!(parse_line("load 7", 0), expected);
    assert_eq!(parse_line("Load 7", 0), expected);
    assert_eq!(parse_line("LOAD 7", 0), expected);
}

#[test]
fn jump_synonyms() {
    assert_eq!(parse_line("JMP L", 0), Ok(Some(Stmt::Jump(label("L"), 0))));
    assert_eq!(parse_line("JUMP L", 0), Ok(Some(Stmt::Jump(label("L"), 0))));
    assert_eq!(parse_line("jz end", 1), Ok(Some(Stmt::JumpIfZero(label("end"), 1))));
    assert_eq!(parse_line("JZERO end", 1), Ok(Some(Stmt::JumpIfZero(label("end"), 1))));
    assert_eq!(parse_line("JGZ top", 2), Ok(Some(Stmt::JumpGreaterThanZero(label("top"), 2))));
    assert_eq!(parse_line("JGTZ top", 2), Ok(Some(Stmt::JumpGreaterThanZero(label("top"), 2))));
    assert_eq!(parse_line("JMP 9x", 2), Err(ParseError::LabelIsNotValid(2)));
    assert_eq!(parse_line("JMP", 2), Err(ParseError::ArgumentIsRequired(2)));
}

#[test]
fn value_operands() {
    assert_eq!(parse_line("LOAD =5", 0), Ok(Some(Stmt::Load(Value::Pure(5), 0))));
    assert_eq!(
        parse_line("LOAD *3", 0),
        Ok(Some(Stmt::Load(Value::Register(RegisterValue::Indirect(3)), 0)))
    );
    assert_eq!(
        parse_line("LOAD 3", 0),
        Ok(Some(Stmt::Load(Value::Register(RegisterValue::Direct(3)), 0)))
    );
    assert_eq!(parse_line("ADD =-12", 1), Ok(Some(Stmt::Add(Value::Pure(-12), 1))));
    assert_eq!(parse_line("SUB =+4", 1), Ok(Some(Stmt::Sub(Value::Pure(4), 1))));
    assert_eq!(
        parse_line("MUL +2", 1),
        Ok(Some(Stmt::Mul(Value::Register(RegisterValue::Direct(2)), 1)))
    );
    assert_eq!(
        parse_line("DIV *0", 1),
        Ok(Some(Stmt::Div(Value::Register(RegisterValue::Indirect(0)), 1)))
    );
    assert_eq!(parse_line("WRITE =1", 1), Ok(Some(Stmt::Output(Value::Pure(1), 1))));
    assert_eq!(parse_line("OUTPUT =1", 1), Ok(Some(Stmt::Output(Value::Pure(1), 1))));
}

#[test]
fn value_operand_errors() {
    let numeric = InvalidArgument::ArgumentValueMustBeNumeric;
    assert_eq!(parse_line("LOAD =x", 0), Err(ParseError::ArgumentIsNotValid(0, numeric)));
    assert_eq!(parse_line("LOAD *-1", 0), Err(ParseError::ArgumentIsNotValid(0, numeric)));
    assert_eq!(parse_line("LOAD =", 0), Err(ParseError::ArgumentIsNotValid(0, numeric)));
    assert_eq!(
        parse_line("LOAD =9223372036854775808", 0),
        Err(ParseError::ArgumentIsNotValid(0, numeric))
    );
    assert_eq!(
        parse_line("LOAD =-9223372036854775808", 0),
        Ok(Some(Stmt::Load(Value::Pure(i64::MIN), 0)))
    );
    assert_eq!(
        parse_line("LOAD -3", 0),
        Err(ParseError::ArgumentIsNotValid(0, InvalidArgument::ArgumentIsNotValid))
    );
    assert_eq!(
        parse_line("LOAD x", 0),
        Err(ParseError::ArgumentIsNotValid(0, InvalidArgument::ArgumentIsNotValid))
    );
}

#[test]
fn register_operands() {
    assert_eq!(
        parse_line("STORE 4", 0),
        Ok(Some(Stmt::Store(RegisterValue::Direct(4), 0)))
    );
    assert_eq!(
        parse_line("STORE *4", 0),
        Ok(Some(Stmt::Store(RegisterValue::Indirect(4), 0)))
    );
    assert_eq!(
        parse_line("READ 1", 0),
        Ok(Some(Stmt::Input(RegisterValue::Direct(1), 0)))
    );
    assert_eq!(
        parse_line("input *2", 0),
        Ok(Some(Stmt::Input(RegisterValue::Indirect(2), 0)))
    );
    assert_eq!(parse_line("READ", 6), Err(ParseError::ArgumentIsRequired(6)));
}

#[test]
fn halt_ignores_its_argument() {
    assert_eq!(parse_line("HALT", 8), Ok(Some(Stmt::Halt(8))));
    assert_eq!(parse_line("halt 3", 8), Ok(Some(Stmt::Halt(8))));
}

#[test]
fn operand_grammars_directly() {
    assert_eq!(parse_value("=5", 1), Ok(Value::Pure(5)));
    assert_eq!(parse_value("17", 1), Ok(Value::Register(RegisterValue::Direct(17))));
    assert_eq!(parse_register("*8", 1), Ok(RegisterValue::Indirect(8)));
    assert_eq!(
        parse_register("=8", 1),
        Err(ParseError::ArgumentIsNotValid(1, InvalidArgument::PureArgumentIsNotAllowed))
    );
}

#[test]
fn label_predicate() {
    assert!(is_valid_label("a"));
    assert!(is_valid_label("_"));
    assert!(is_valid_label("Loop_2"));
    assert!(!is_valid_label(""));
    assert!(!is_valid_label("2x"));
    assert!(!is_valid_label("ab-c"));
    assert!(!is_valid_label("фыв"));
}

#[test]
fn family_functions() {
    assert_eq!(
        parse_with_value("MUL", "=3", 2),
        Ok(Stmt::Mul(Value::Pure(3), 2))
    );
    assert_eq!(parse_with_label("JGTZ", "x", 2), Ok(Stmt::JumpGreaterThanZero(label("x"), 2)));
    assert_eq!(
        parse_with_register("INPUT", "3", 2),
        Ok(Stmt::Input(RegisterValue::Direct(3), 2))
    );
}

#[test]
fn instruction_from_upper_cased_opcode() {
    assert_eq!(parse_instruction("HALT", None, 0), Ok(Stmt::Halt(0)));
    assert_eq!(
        parse_instruction("ADD", Some("*1"), 0),
        Ok(Stmt::Add(Value::Register(RegisterValue::Indirect(1)), 0))
    );
    assert_eq!(parse_instruction("STORE", None, 0), Err(ParseError::ArgumentIsRequired(0)));
    assert_eq!(
        parse_instruction("load", Some("1"), 0),
        Err(ParseError::UnsupportedOpcode(0, "load".to_string()))
    );
}

#[test]
fn whole_source_skips_blank_lines_and_keeps_numbers() {
    let src = "start:\n  LOAD =1 # one\n\n# note\nSTORE =2\r\nJMP start\nHALT\n";
    let out = parse(src);
    assert_eq!(
        out,
        vec![
            Ok(Stmt::Label("start".to_string(), 0)),
            Ok(Stmt::Load(Value::Pure(1), 1)),
            Err(ParseError::pure_argument_not_allowed(4)),
            Ok(Stmt::Jump(label("start"), 5)),
            Ok(Stmt::Halt(6)),
        ]
    );
}

#[test]
fn whole_source_without_final_newline_and_empty() {
    assert_eq!(parse(""), vec![]);
    assert_eq!(parse("\n\n  \n"), vec![]);
    assert_eq!(parse("\nhalt"), vec![Ok(Stmt::Halt(1))]);
    assert_eq!(parse("x y z\r\nhalt"), vec![Err(ParseError::UnsupportedSyntax(0)), Ok(Stmt::Halt(1))]);
}

#[test]
fn reparsing_gives_the_same_results() {
    let src = "a:\nLOAD 3\nfoo 1\nJZ a";
    assert_eq!(parse(src), parse(src));
}

#[test]
fn unicode_whitespace_separates_tokens() {
    assert_eq!(
        parse_line("LOAD\u{3000}=2", 0),
        Ok(Some(Stmt::Load(Value::Pure(2), 0)))
    );
}

#[test]
fn surrounding_whitespace_is_ignored() {
    assert_eq!(parse_line("  \tSTORE *2  ", 1), parse_line("STORE *2", 1));
    assert_eq!(parse_line(" a: ", 1), Ok(Some(Stmt::Label("a".to_string(), 1))));
}
