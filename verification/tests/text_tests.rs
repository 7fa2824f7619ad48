use misri::instr::Func;
use misri::instr::Instr;
use misri::instr::Operand;
use misri::instr::Program;
use misri::instr::ArithOp;
use misri::instr::RelOp;
use misri::parser::Parser;
use misri::text::chars_of;
use misri::text::decimal_string;
use misri::text::is_whitespace;
use misri::text::natural_string;
use misri::text::parse_range;
use misri::text::parse_trimmed;

fn parsed(text: &str) -> Option<i64> {
    let chars = chars_of(text);
    parse_trimmed(&chars, 0, chars.len())
}

#[test]
fn decimal_text() {
    assert_eq!(decimal_string(0), "0");
    assert_eq!(decimal_string(7), "7");
    assert_eq!(decimal_string(-7), "-7");
    assert_eq!(decimal_string(1234567890), "1234567890");
    assert_eq!(decimal_string(i64::MAX), i64::MAX.to_string());
    assert_eq!(decimal_string(i64::MIN), i64::MIN.to_string());
    assert_eq!(natural_string(0), "0");
    assert_eq!(natural_string(10), "10");
    assert_eq!(natural_string(u64::MAX), "18446744073709551615");
}

#[test]
fn integers_from_text() {
    assert_eq!(parsed("0"), Some(0));
    assert_eq!(parsed("42"), Some(42));
    assert_eq!(parsed("+42"), Some(42));
    assert_eq!(parsed("-42"), Some(-42));
    assert_eq!(parsed("  -42\r\n"), Some(-42));
    assert_eq!(parsed("0042"), Some(42));
    assert_eq!(parsed("-0"), Some(0));
    assert_eq!(parsed("9223372036854775807"), Some(i64::MAX));
    assert_eq!(parsed("-9223372036854775808"), Some(i64::MIN));
    assert_eq!(parsed("9223372036854775808"), None);
    assert_eq!(parsed("-9223372036854775809"), None);
    assert_eq!(parsed("99999999999999999999999"), None);
    assert_eq!(parsed(""), None);
    assert_eq!(parsed("   "), None);
    assert_eq!(parsed("+"), None);
    assert_eq!(parsed("-"), None);
    assert_eq!(parsed("--1"), None);
    assert_eq!(parsed("+-1"), None);
    assert_eq!(parsed("1 2"), None);
    assert_eq!(parsed("12a"), None);
    assert_eq!(parsed("1_000"), None);
    assert_eq!(parsed("\u{663}"), None);
}

#[test]
fn integers_from_a_range() {
    let chars = chars_of("ab-12cd");
    assert_eq!(parse_range(&chars, 2, 5), Some(-12));
    assert_eq!(parse_range(&chars, 3, 5), Some(12));
    assert_eq!(parse_range(&chars, 3, 4), Some(1));
    assert_eq!(parse_range(&chars, 2, 3), None);
    assert_eq!(parse_range(&chars, 3, 3), None);
    assert_eq!(parse_range(&chars, 1, 5), None);
    assert_eq!(parse_range(&chars, 2, 6), None);
    assert_eq!(parse_trimmed(&chars, 7, 7), None);
    assert_eq!(parse_range(&chars, 3, 8), None);
    assert_eq!(parse_range(&chars, 5, 3), None);
    assert_eq!(parse_trimmed(&chars, 3, 8), None);
    assert_eq!(parse_trimmed(&chars, 5, 3), None);
    let spaced = chars_of("x  7 y");
    assert_eq!(parse_trimmed(&spaced, 1, 5), Some(7));
    assert_eq!(parse_range(&spaced, 1, 5), None);
}

#[test]
fn white_space_is_what_rust_trims() {
    for c in ['\u{0}', '\u{8}', '\u{9}', '\u{a}', '\u{b}', '\u{c}', '\u{d}', '\u{e}', ' ', '!',
        '0', 'a', '\u{85}', '\u{a0}', '\u{1680}', '\u{180e}', '\u{1fff}', '\u{2000}', '\u{2005}',
        '\u{200a}', '\u{200b}', '\u{2028}', '\u{2029}', '\u{202f}', '\u{205f}', '\u{2060}',
        '\u{3000}', '\u{feff}']
    {
        assert_eq!(is_whitespace(c), c.is_whitespace());
    }
}

#[test]
fn characters_of_a_text() {
    assert_eq!(chars_of(""), Vec::<char>::new());
    assert_eq!(chars_of("a\u{e9}\u{4e16}"), vec!['a', '\u{e9}', '\u{4e16}']);
}

#[test]
fn operands_and_operators_as_text() {
    assert_eq!(Operand::from(("x", 3)).to_string(), "x_3");
    assert_eq!(Operand::from("tmp").to_string(), "tmp_0");
    assert_eq!(Operand::from(-12).to_string(), "-12");
    assert_eq!(ArithOp::Add.to_string(), "+");
    assert_eq!(ArithOp::Sub.to_string(), "-");
    assert_eq!(ArithOp::Mul.to_string(), "*");
    assert_eq!(ArithOp::Div.to_string(), "/");
    assert_eq!(RelOp::LT.to_string(), "<");
    assert_eq!(RelOp::LE.to_string(), "<=");
    assert_eq!(RelOp::GT.to_string(), ">");
    assert_eq!(RelOp::GE.to_string(), ">=");
    assert_eq!(RelOp::EQ.to_string(), "==");
    assert_eq!(RelOp::NE.to_string(), "!=");
}

#[test]
fn instructions_as_text() {
    let x = || Operand::from(("x", 0));
    let y = || Operand::from(("y", 1));
    let z = || Operand::from(7);
    assert_eq!(Instr::Assign(x(), y()).to_string(), "x_0 := y_1");
    assert_eq!(
        Instr::Arith(x(), y(), ArithOp::Mul, z()).to_string(),
        "x_0 := y_1 * 7"
    );
    assert_eq!(Instr::Deref(x(), y()).to_string(), "x_0 := &y_1");
    assert_eq!(Instr::Store(x(), y()).to_string(), "*x_0 := y_1");
    assert_eq!(Instr::Load(x(), y()).to_string(), "x_0 := *y_1");
    assert_eq!(Instr::Label(String::from("l")).to_string(), "LABEL l :");
    assert_eq!(Instr::new_goto("l").to_string(), "GOTO l ");
    assert_eq!(
        Instr::Cond {
            x: x(),
            op: RelOp::GE,
            y: z(),
            name: String::from("l"),
            id: 4
        }
        .to_string(),
        "IF x_0 >= 7 GOTO l"
    );
    assert_eq!(Instr::Return(z()).to_string(), "RETURN 7");
    assert_eq!(Instr::Dec(x(), 24).to_string(), "DEC x_0 24");
    assert_eq!(Instr::Arg(x()).to_string(), "ARG x_0");
    assert_eq!(
        Instr::Call {
            x: x(),
            name: String::from("f"),
            id: 2
        }
        .to_string(),
        "x_0 := CALL f"
    );
    assert_eq!(Instr::Param(x()).to_string(), "PARAM x_0");
    assert_eq!(Instr::Read(x()).to_string(), "READ x_0");
    assert_eq!(Instr::Write(x()).to_string(), "WRITE x_0");
}

#[test]
fn functions_and_programs_as_text() {
    let func = Func {
        name: String::from("f"),
        body: vec![
            Instr::Label(String::from("top")),
            Instr::Arg(Operand::from(1)),
            Instr::new_goto("top"),
        ],
        nreg: 0,
        id: 0,
    };
    assert_eq!(
        func.to_string(),
        "FUNCTION f :\nLABEL top :\n  ARG 1\n  GOTO top \n"
    );
    let mut program = Program::new();
    assert_eq!(program.to_string(), "");
    program.push_front(func.clone());
    program.push_front(Func {
        name: String::from("main"),
        body: Vec::new(),
        nreg: 0,
        id: 0,
    });
    assert_eq!(
        program.to_string(),
        "FUNCTION main :\n\n\nFUNCTION f :\nLABEL top :\n  ARG 1\n  GOTO top \n\n\n"
    );
    assert_eq!(program.clone().to_string(), program.to_string());
    let mut parsed = Parser::from("FUNCTION main :\n x := #1 + y\n RETURN x")
        .unwrap()
        .parse()
        .unwrap();
    parsed.init().unwrap();
    assert_eq!(
        parsed.to_string(),
        "FUNCTION main :\n  x_0 := 1 + y_1\n  RETURN x_0\n\n\n"
    );
}
