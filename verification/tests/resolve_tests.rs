use misri::instr::Func;
use misri::instr::Instr;
use misri::instr::Operand;
use misri::instr::Program;
use misri::instr::RelOp;
use misri::parser::Parser;
use misri::resolve::Binding;
use misri::value::Fault;

fn parse(text: &str) -> Program {
    Parser::from(text).unwrap().parse().unwrap()
}

#[test]
fn test_init() {
    let mut parser = Parser::from(
        "FUNCTION foo :
         PARAM n
         i := #1
         s := #0
         LABEL loop :
         i := i + #1
         s := s + i
         IF i <= #100 GOTO loop
         RETURN s
         
         FUNCTION main :
         READ n2
         ARG n2
         s := CALL foo
         WRITE s
         RETURN #0",
    )
    .unwrap();

    let mut program = parser.parse().unwrap();
    program.init().unwrap();
    assert_eq!(
        program.funcs[0].body[6],
        Instr::Cond {
            x: Operand::Reg {
                name: String::from("i"),
                id: 1
            },
            op: RelOp::LE,
            y: Operand::from(100),
            name: String::from("loop"),
            id: 3
        }
    );
    assert_eq!(
        program.funcs[1].body[2],
        Instr::Call {
            x: Operand::Reg {
                name: String::from("s"),
                id: 1
            },
            name: String::from("foo"),
            id: 0
        }
    );
    assert_eq!(program.entry, 1);
}

#[test]
fn slots_in_order_of_first_use() {
    let mut program = parse(
        "FUNCTION main :
         c := a + b
         a := c
         d := #1 * c
         RETURN b",
    );
    program.init().unwrap();
    let main = &program.funcs[0];
    assert_eq!(main.nreg, 4);
    assert_eq!(main.id, 0);
    let reg = |name: &str, id: usize| Operand::from((name, id));
    assert_eq!(
        main.body[0],
        Instr::Arith(
            reg("c", 0),
            reg("a", 1),
            misri::instr::ArithOp::Add,
            reg("b", 2)
        )
    );
    assert_eq!(main.body[1], Instr::Assign(reg("a", 1), reg("c", 0)));
    assert_eq!(
        main.body[2],
        Instr::Arith(
            reg("d", 3),
            Operand::from(1),
            misri::instr::ArithOp::Mul,
            reg("c", 0)
        )
    );
    assert_eq!(main.body[3], Instr::Return(reg("b", 2)));
}

#[test]
fn slots_are_per_function() {
    let mut program = parse(
        "FUNCTION f :
         PARAM x
         y := x
         RETURN y
         FUNCTION main :
         y := #1
         ARG y
         x := CALL f
         RETURN x",
    );
    program.init().unwrap();
    assert_eq!(program.funcs[0].nreg, 2);
    assert_eq!(program.funcs[1].nreg, 2);
    assert_eq!(program.funcs[0].id, 0);
    assert_eq!(program.funcs[1].id, 1);
    assert_eq!(
        program.funcs[0].body[0],
        Instr::Param(Operand::from(("x", 0)))
    );
    assert_eq!(
        program.funcs[1].body[0],
        Instr::Assign(Operand::from(("y", 0)), Operand::from(1))
    );
    assert_eq!(
        program.funcs[1].body[2],
        Instr::Call {
            x: Operand::from(("x", 1)),
            name: String::from("f"),
            id: 0
        }
    );
}

#[test]
fn jumps_forward_and_backward() {
    let mut program = parse(
        "FUNCTION main :
         GOTO end
         LABEL start :
         IF #1 == #1 GOTO start
         LABEL end :
         GOTO start
         RETURN #0",
    );
    program.init().unwrap();
    let body = &program.funcs[0].body;
    assert_eq!(
        body[0],
        Instr::Goto {
            name: String::from("end"),
            id: 3
        }
    );
    assert_eq!(
        body[2],
        Instr::Cond {
            x: Operand::from(1),
            op: RelOp::EQ,
            y: Operand::from(1),
            name: String::from("start"),
            id: 1
        }
    );
    assert_eq!(
        body[4],
        Instr::Goto {
            name: String::from("start"),
            id: 1
        }
    );
    assert_eq!(program.funcs[0].nreg, 0);
}

#[test]
fn labels_are_per_function() {
    let mut program = parse(
        "FUNCTION f :
         LABEL here :
         RETURN #0
         FUNCTION main :
         GOTO here",
    );
    let before = program.to_string();
    assert_eq!(program.init(), Err(Fault::ResolutionError));
    assert_eq!(program.to_string(), before);
}

#[test]
fn the_last_of_two_labels_and_of_two_functions_wins() {
    let mut program = parse(
        "FUNCTION f :
         RETURN #1
         FUNCTION main :
         LABEL l :
         x := CALL f
         LABEL l :
         GOTO l
         FUNCTION f :
         RETURN #2",
    );
    program.init().unwrap();
    assert_eq!(
        program.funcs[1].body[3],
        Instr::Goto {
            name: String::from("l"),
            id: 2
        }
    );
    assert_eq!(
        program.funcs[1].body[1],
        Instr::Call {
            x: Operand::from(("x", 0)),
            name: String::from("f"),
            id: 2
        }
    );
    assert_eq!(program.funcs[2].id, 2);
}

#[test]
fn missing_main_is_a_resolution_error() {
    let mut program = parse("FUNCTION f :\nRETURN #0");
    assert_eq!(program.init(), Err(Fault::ResolutionError));
    assert_eq!(program.entry, 0);
    assert_eq!(Program::new().init(), Err(Fault::ResolutionError));
}

#[test]
fn unknown_label_is_a_resolution_error() {
    let mut program = parse("FUNCTION main :\nIF x < y GOTO nowhere\nRETURN #0");
    assert_eq!(program.init(), Err(Fault::ResolutionError));
    if let Instr::Cond { x, id, .. } = &program.funcs[0].body[0] {
        assert_eq!(*id, 0);
        assert_eq!(*x, Operand::from("x"));
    } else {
        panic!("the program was changed");
    }
    assert_eq!(program.funcs[0].nreg, 0);
}

#[test]
fn unknown_callee_is_a_resolution_error() {
    let mut program = parse("FUNCTION main :\nx := CALL nobody\nRETURN #0");
    assert_eq!(program.init(), Err(Fault::ResolutionError));
    assert_eq!(program.funcs[0].nreg, 0);
}

#[test]
fn a_function_resolves_by_itself() {
    let mut program = parse(
        "FUNCTION f :
         LABEL top :
         a := CALL other
         GOTO top",
    );
    let mut func = program.funcs.pop_front().unwrap();
    func.id = 9;
    let resolved = func.resolved().unwrap();
    assert_eq!(resolved.nreg, 1);
    assert_eq!(resolved.id, 9);
    assert_eq!(
        resolved.body[1],
        Instr::Call {
            x: Operand::from(("a", 0)),
            name: String::from("other"),
            id: 0
        }
    );
    assert_eq!(func.init(), Ok(()));
    assert_eq!(func.body, resolved.body);
    assert_eq!(
        func.body[2],
        Instr::Goto {
            name: String::from("top"),
            id: 0
        }
    );
}

#[test]
fn resolving_twice_gives_the_same() {
    let text = "FUNCTION fib :
         PARAM n
         IF n != #0 GOTO br1
         RETURN #0
         LABEL br1 :
         t1 := n - #1
         ARG t1
         r1 := CALL fib
         RETURN r1
         FUNCTION main :
         READ n
         ARG n
         s := CALL fib
         WRITE s
         RETURN #0";
    let mut first = parse(text);
    let mut second = parse(text);
    first.init().unwrap();
    second.init().unwrap();
    assert_eq!(first.entry, second.entry);
    assert_eq!(first.to_string(), second.to_string());
    for (a, b) in first.funcs.iter().zip(second.funcs.iter()) {
        assert_eq!(a.body, b.body);
        assert_eq!(a.nreg, b.nreg);
        assert_eq!(a.id, b.id);
    }
    let once = first.clone();
    first.init().unwrap();
    assert_eq!(first.entry, once.entry);
    for (a, b) in first.funcs.iter().zip(once.funcs.iter()) {
        assert_eq!(a.body, b.body);
        assert_eq!(a.nreg, b.nreg);
        assert_eq!(a.id, b.id);
    }
}

#[test]
fn stale_numbers_do_not_matter() {
    let mut program = Program::new();
    program.push_front(Func {
        name: String::from("main"),
        body: vec![
            Instr::Label(String::from("l")),
            Instr::Assign(Operand::from(("a", 7)), Operand::from(("b", 7))),
            Instr::Goto {
                name: String::from("l"),
                id: 55,
            },
            Instr::Call {
                x: Operand::from(("b", 3)),
                name: String::from("main"),
                id: 12,
            },
        ],
        nreg: 40,
        id: 41,
    });
    program.entry = 42;
    program.init().unwrap();
    assert_eq!(program.entry, 0);
    let main = &program.funcs[0];
    assert_eq!(main.nreg, 2);
    assert_eq!(main.id, 0);
    assert_eq!(
        main.body[1],
        Instr::Assign(Operand::from(("a", 0)), Operand::from(("b", 1)))
    );
    assert_eq!(
        main.body[2],
        Instr::Goto {
            name: String::from("l"),
            id: 0
        }
    );
    assert_eq!(
        main.body[3],
        Instr::Call {
            x: Operand::from(("b", 1)),
            name: String::from("main"),
            id: 0
        }
    );
}

#[test]
fn binding_gives_out_slots_once() {
    let mut binding = Binding::new();
    assert_eq!(binding.len(), 0);
    assert_eq!(binding.get(&String::from("a")), None);
    binding.insert(&String::from("a"));
    binding.insert(&String::from("b"));
    binding.insert(&String::from("a"));
    assert_eq!(binding.len(), 2);
    assert_eq!(binding.get(&String::from("a")), Some(0));
    assert_eq!(binding.get(&String::from("b")), Some(1));
    assert_eq!(binding.get(&String::from("c")), None);
}

#[test]
fn operands_and_instructions_bind_in_order() {
    let mut binding = Binding::new();
    let mut imm = Operand::from(5);
    imm.init(&mut binding);
    assert_eq!(imm, Operand::from(5));
    assert_eq!(binding.len(), 0);
    let mut instr = Instr::Cond {
        x: Operand::from("p"),
        op: RelOp::NE,
        y: Operand::from("q"),
        name: String::from("l"),
        id: 4,
    };
    instr.bind(&mut binding);
    assert_eq!(
        instr,
        Instr::Cond {
            x: Operand::from(("p", 0)),
            op: RelOp::NE,
            y: Operand::from(("q", 1)),
            name: String::from("l"),
            id: 4,
        }
    );
    let mut label = Instr::Label(String::from("z"));
    label.bind(&mut binding);
    let mut jump = Instr::new_goto("z");
    jump.bind(&mut binding);
    assert_eq!(binding.len(), 2);
    let mut store = Instr::Store(Operand::from("q"), Operand::from("r"));
    store.bind(&mut binding);
    assert_eq!(
        store,
        Instr::Store(Operand::from(("q", 1)), Operand::from(("r", 2)))
    );
}

#[test]
fn operands_from_names_and_integers() {
    assert_eq!(
        Operand::from("x"),
        Operand::Reg {
            name: String::from("x"),
            id: 0
        }
    );
    assert_eq!(Operand::from(String::from("x")), Operand::from("x"));
    assert_eq!(
        Operand::from(("x", 3)),
        Operand::Reg {
            name: String::from("x"),
            id: 3
        }
    );
    assert_eq!(Operand::from(-4), Operand::Imm(-4));
    assert_eq!(Operand::from("x").clone(), Operand::from("x"));
    assert_eq!(
        Instr::new_goto("l"),
        Instr::Goto {
            name: String::from("l"),
            id: 0
        }
    );
    assert_eq!(Instr::new_goto("l").clone(), Instr::new_goto("l"));
}
