use misri::exec::Interpreter;
use misri::instr::ArithOp;
use misri::instr::RelOp;
use misri::parser::Parser;
use misri::value::Fault;
use misri::value::Heap;
use misri::value::Value;

fn machine(code: &str, input: &str) -> Interpreter {
    let mut parser = Parser::from(code).unwrap();
    let program = parser.parse().unwrap();
    Interpreter::new(program, input).unwrap()
}

fn config(code: &str, input: &str, output: &str) {
    let mut interpreter = machine(code, input);
    assert!(matches!(interpreter.exec(usize::MAX), Ok(Some(_))));

    assert_eq!(interpreter.output().as_bytes(), output.as_bytes());
}

fn fault(code: &str, input: &str) -> Fault {
    let mut interpreter = machine(code, input);
    interpreter.exec(usize::MAX).unwrap_err()
}

#[test]
fn test_exec() {
    config(
        "FUNCTION main :
             x := #114 * #514
             y := #0 - x
             WRITE y
             RETURN #0
             ",
        "",
        "-58596\n",
    );
}

#[test]
fn test_arg() {
    config(
        "FUNCTION id :
            PARAM n
            RETURN n
            
            FUNCTION main :
            ARG #114
            x := CALL id
            ARG #514
            y := CALL id
            WRITE x
            WRITE y
            RETURN #0
            ",
        "",
        "114\n514\n",
    );
}

const FIB: &str = " FUNCTION fib :
             PARAM n
             IF n != #0 GOTO br1
             RETURN #0
             LABEL br1 :
             IF n != #1 GOTO br2
             RETURN #1
             LABEL br2 :
             t1 := n - #1
             ARG t1
             r1 := CALL fib
             t2 := n - #2
             ARG t2
             r2 := CALL fib
             u := r1 + r2
             RETURN u
 
             FUNCTION main :
             READ n
             ARG n
             s := CALL fib
             WRITE s
             RETURN #0
            ";

#[test]
fn test_fib() {
    config(FIB, "10\n", "55\n")
}

#[test]
fn test_arr() {
    config(
        "FUNCTION display :
             PARAM arr1
             c := *arr1
             WRITE c
             d := arr1 + #4
             c := *d
             WRITE c
             RETURN #0

             FUNCTION main :
             DEC tmp_1 24
             arr2 := &tmp_1
             *arr2 := #114
             tmp := arr2 + #4
             *tmp := #514
             ARG arr2
             uu  := CALL display
             RETURN #0
            ",
        "",
        "114\n\
            514\n",
    );
}

#[test]
fn fibonacci_of_other_numbers() {
    config(FIB, "0", "0\n");
    config(FIB, "1\n", "1\n");
    config(FIB, "  15  \r\n", "610\n");
}

#[test]
fn a_program_without_main_is_not_run() {
    let mut parser = Parser::from("FUNCTION f :\nWRITE #1\nRETURN #0").unwrap();
    let program = parser.parse().unwrap();
    assert!(matches!(
        Interpreter::new(program, ""),
        Err(Fault::ResolutionError)
    ));
}

#[test]
fn the_count_of_instructions() {
    let mut interpreter = machine(
        "FUNCTION main :
         x := #1
         LABEL l :
         x := x + #1
         IF x < #4 GOTO l
         RETURN x",
        "",
    );
    assert_eq!(interpreter.exec(usize::MAX), Ok(Some(10)));
    assert_eq!(interpreter.exec(usize::MAX), Ok(Some(0)));
    assert_eq!(interpreter.output(), "");
}

#[test]
fn a_run_that_is_cut_off_can_go_on() {
    let code = "FUNCTION main :
         x := #0
         LABEL l :
         x := x + #1
         WRITE x
         GOTO l";
    let mut interpreter = machine(code, "");
    assert_eq!(interpreter.exec(0), Ok(None));
    assert_eq!(interpreter.output(), "");
    assert_eq!(interpreter.exec(5), Ok(None));
    assert_eq!(interpreter.output(), "1\n");
    assert_eq!(interpreter.exec(4), Ok(None));
    assert_eq!(interpreter.output(), "1\n2\n");
    assert_eq!(interpreter.take_output(), "1\n2\n");
    assert_eq!(interpreter.output(), "");
    assert_eq!(interpreter.exec(4), Ok(None));
    assert_eq!(interpreter.output(), "3\n");
}

#[test]
fn steps_one_at_a_time() {
    let mut interpreter = machine(
        "FUNCTION f :
         RETURN #7
         FUNCTION main :
         GOTO l
         x := #1
         LABEL l :
         y := CALL f
         WRITE y
         RETURN #0",
        "",
    );
    assert_eq!(interpreter.step(), Ok(Some(2)));
    assert_eq!(interpreter.step(), Ok(Some(3)));
    assert_eq!(interpreter.step(), Ok(Some(0)));
    assert_eq!(interpreter.step(), Ok(Some(4)));
    assert_eq!(interpreter.output(), "");
    assert_eq!(interpreter.step(), Ok(Some(5)));
    assert_eq!(interpreter.output(), "7\n");
    assert_eq!(interpreter.step(), Ok(None));
    assert_eq!(interpreter.step(), Ok(None));
    assert_eq!(interpreter.exec(usize::MAX), Ok(Some(0)));
    assert_eq!(interpreter.output(), "7\n");
}

#[test]
fn arguments_are_taken_last_first() {
    config(
        "FUNCTION sub :
         PARAM a
         PARAM b
         c := a - b
         RETURN c
         FUNCTION main :
         ARG #3
         ARG #10
         x := CALL sub
         WRITE x
         RETURN #0",
        "",
        "7\n",
    );
}

#[test]
fn registers_of_callers_survive_calls() {
    config(
        "FUNCTION clobber :
         PARAM n
         a := #99
         b := #98
         c := #97
         IF n == #0 GOTO done
         m := n - #1
         ARG m
         r := CALL clobber
         LABEL done :
         RETURN n
         FUNCTION main :
         a := #1
         b := #2
         ARG #3
         c := CALL clobber
         WRITE a
         WRITE b
         WRITE c
         ARG #5
         a := CALL clobber
         WRITE a
         WRITE b
         RETURN #0",
        "",
        "1\n2\n3\n5\n2\n",
    );
}

#[test]
fn fresh_registers_in_every_call() {
    config(
        "FUNCTION f :
         WRITE seen
         seen := #1
         RETURN seen
         FUNCTION main :
         x := CALL f
         y := CALL f
         RETURN #0",
        "",
        "0\n0\n",
    );
}

#[test]
fn reads_lines_of_input() {
    config(
        "FUNCTION main :
         READ a
         READ b
         READ c
         s := a + b
         s := s * c
         WRITE s
         RETURN #0",
        " 4\n-6 \n+3",
        "-6\n",
    );
}

#[test]
fn malformed_and_absent_input() {
    let read = "FUNCTION main :\nREAD x\nWRITE x\nRETURN #0";
    assert_eq!(fault(read, ""), Fault::InputError);
    assert_eq!(fault(read, "\n5\n"), Fault::InputError);
    assert_eq!(fault(read, "five\n"), Fault::InputError);
    assert_eq!(fault(read, "5 6\n"), Fault::InputError);
    assert_eq!(fault(read, "-\n"), Fault::InputError);
    assert_eq!(fault(read, "9223372036854775808\n"), Fault::InputError);
    config(read, "-9223372036854775808\n", "-9223372036854775808\n");
    config(read, "9223372036854775807", "9223372036854775807\n");
    config(read, "\u{a0}12\u{3000}\n34", "12\n");
}

#[test]
fn a_fault_leaves_the_machine_as_it_was() {
    let mut interpreter = machine(
        "FUNCTION main :
         WRITE #1
         READ x
         WRITE x
         RETURN #0",
        "oops\n12\n",
    );
    assert_eq!(interpreter.exec(usize::MAX), Err(Fault::InputError));
    assert_eq!(interpreter.output(), "1\n");
    assert_eq!(interpreter.step(), Err(Fault::InputError));
    assert_eq!(interpreter.exec(5), Err(Fault::InputError));
    assert_eq!(interpreter.output(), "1\n");
}

#[test]
fn input_can_be_fed_later() {
    let mut interpreter = machine(
        "FUNCTION main :
         READ x
         READ y
         z := x + y
         WRITE z
         RETURN #0",
        "",
    );
    assert!(interpreter.wants_input());
    interpreter.feed("1");
    assert!(interpreter.wants_input());
    interpreter.feed("2\n");
    assert!(!interpreter.wants_input());
    assert_eq!(interpreter.step(), Ok(Some(1)));
    assert!(interpreter.wants_input());
    interpreter.feed("30");
    assert_eq!(interpreter.exec(usize::MAX), Ok(Some(3)));
    assert!(!interpreter.wants_input());
    assert_eq!(interpreter.take_output(), "42\n");
}

#[test]
fn invalid_operations() {
    assert_eq!(
        fault("FUNCTION main :\nx := #1 / #0\nRETURN #0", ""),
        Fault::InvalidOperation
    );
    assert_eq!(
        fault("FUNCTION main :\nx := *y\nRETURN #0", ""),
        Fault::InvalidOperation
    );
    assert_eq!(
        fault("FUNCTION main :\n*y := #1\nRETURN #0", ""),
        Fault::InvalidOperation
    );
    assert_eq!(
        fault("FUNCTION main :\nDEC a 2\nDEC b 2\nc := a + b\nRETURN #0", ""),
        Fault::InvalidOperation
    );
    assert_eq!(
        fault("FUNCTION main :\nDEC a 2\nIF a == a GOTO l\nLABEL l :\nRETURN #0", ""),
        Fault::InvalidOperation
    );
    assert_eq!(
        fault("FUNCTION main :\nDEC a 2\nIF #0 < a GOTO l\nLABEL l :\nRETURN #0", ""),
        Fault::InvalidOperation
    );
    assert_eq!(
        fault("FUNCTION main :\nDEC a -1\nRETURN #0", ""),
        Fault::InvalidOperation
    );
    assert_eq!(
        fault("FUNCTION main :\nDEC a 9223372036854775807\nRETURN #0", ""),
        Fault::InvalidOperation
    );
    assert_eq!(
        fault("FUNCTION main :\nDEC a 2\nb := a + #2\n*b := #1\nRETURN #0", ""),
        Fault::InvalidOperation
    );
    assert_eq!(
        fault("FUNCTION main :\nDEC a 2\nDEC b 2\n*a := b\nRETURN #0", ""),
        Fault::InvalidOperation
    );
    assert_eq!(
        fault(
            "FUNCTION main :\nx := #9223372036854775807 + #1\nRETURN #0",
            ""
        ),
        Fault::InvalidOperation
    );
    assert_eq!(
        fault("FUNCTION main :\nDEC a 0\nWRITE a\nRETURN #0", ""),
        Fault::InvalidOperation
    );
}

#[test]
fn control_flow_errors() {
    assert_eq!(
        fault("FUNCTION main :\nx := #1", ""),
        Fault::ControlFlowError
    );
    assert_eq!(
        fault("FUNCTION f :\nx := #1\nFUNCTION main :\ny := CALL f\nRETURN #0", ""),
        Fault::ControlFlowError
    );
    assert_eq!(fault("FUNCTION main :", ""), Fault::ControlFlowError);
}

#[test]
fn argument_stack_error() {
    assert_eq!(
        fault("FUNCTION main :\nPARAM x\nRETURN #0", ""),
        Fault::ArgumentStackError
    );
    assert_eq!(
        fault(
            "FUNCTION f :\nPARAM a\nPARAM b\nRETURN a\nFUNCTION main :\nARG #1\nx := CALL f\nRETURN #0",
            ""
        ),
        Fault::ArgumentStackError
    );
}

#[test]
fn pointers_are_written_as_the_cells_they_address() {
    config(
        "FUNCTION main :
         DEC a 3
         p := a + #2
         *p := #9
         WRITE a
         WRITE p
         q := p - #2
         *q := #4
         WRITE a
         t := *p
         WRITE t
         RETURN #0",
        "",
        "0\n9\n4\n9\n",
    );
}

#[test]
fn buffers_are_distinct() {
    config(
        "FUNCTION main :
         DEC a 2
         DEC b 2
         *a := #1
         *b := #2
         WRITE a
         WRITE b
         RETURN #0",
        "",
        "1\n2\n",
    );
}

#[test]
fn relations_and_operators() {
    let five = Value::new_int(5);
    let six = Value::new_int(6);
    assert_eq!(RelOp::LT.holds(&five, &six), Ok(true));
    assert_eq!(RelOp::LE.holds(&six, &six), Ok(true));
    assert_eq!(RelOp::GT.holds(&five, &six), Ok(false));
    assert_eq!(RelOp::GE.holds(&five, &six), Ok(false));
    assert_eq!(RelOp::EQ.holds(&five, &five), Ok(true));
    assert_eq!(RelOp::NE.holds(&five, &five), Ok(false));
    let mut heap = Heap::new();
    let p = Value::new_ptr(&mut heap, 1);
    assert_eq!(RelOp::EQ.holds(&p, &p), Err(Fault::InvalidOperation));
    assert_eq!(RelOp::LT.holds(&five, &p), Err(Fault::InvalidOperation));
    assert_eq!(ArithOp::Add.apply(five, six), Ok(Value::ValInt(11)));
    assert_eq!(ArithOp::Sub.apply(five, six), Ok(Value::ValInt(-1)));
    assert_eq!(ArithOp::Mul.apply(five, six), Ok(Value::ValInt(30)));
    assert_eq!(ArithOp::Div.apply(six, five), Ok(Value::ValInt(1)));
    assert_eq!(
        ArithOp::Div.apply(six, p),
        Ok(Value::ValPtr {
            mem: 0,
            size: 1,
            ptr: 0
        })
    );
    assert_eq!(ArithOp::Add.apply(p, p), Err(Fault::InvalidOperation));
}

#[test]
fn a_write_to_an_immediate_changes_nothing() {
    config(
        "FUNCTION main :
         READ #5
         WRITE #5
         RETURN #0",
        "7\n",
        "5\n",
    );
}

#[test]
fn the_instruction_that_runs_next() {
    let mut interpreter = machine(
        "FUNCTION main :
         x := #1 / #0
         RETURN #0",
        "",
    );
    assert_eq!(interpreter.current().unwrap().to_string(), "x_0 := 1 / 0");
    assert_eq!(interpreter.step(), Err(Fault::InvalidOperation));
    assert_eq!(interpreter.current().unwrap().to_string(), "x_0 := 1 / 0");
    let mut off_the_end = machine("FUNCTION main :\nLABEL l :", "");
    assert_eq!(off_the_end.step(), Ok(Some(1)));
    assert!(matches!(off_the_end.current(), Err(Fault::ControlFlowError)));
}
