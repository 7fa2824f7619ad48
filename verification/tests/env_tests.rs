use misri::env::Env;
use misri::instr::Func;
use misri::instr::Operand;
use misri::instr::Program;
use misri::value::Fault;
use misri::value::Heap;
use misri::value::Value;
use std::collections::VecDeque;

#[test]
fn test_get_set() {
    let mut heap = Heap::new();
    let mut env = Env::new(&Program {
        funcs: VecDeque::from([Func {
            name: String::from("foo"),
            body: Vec::new(),
            nreg: 2,
            id: 0,
        }]),
        entry: 0,
    })
    .unwrap();

    env.set(Operand::from(("x", 0)), Value::new_int(114)).unwrap();
    env.set(Operand::from(("x", 0)), Value::new_int(514)).unwrap();
    env.set(Operand::from(("p", 1)), Value::new_ptr(&mut heap, 514))
        .unwrap();
    assert_eq!(
        env.get(&Operand::from(("x", 0))).unwrap(),
        Value::new_int(514)
    );
    assert!(env
        .get(&Operand::from(("p", 1)))
        .unwrap()
        .alike(&Value::new_ptr(&mut heap, 514), &heap));

    env.push_frame(&Func {
        name: String::new(),
        body: Vec::new(),
        nreg: 2,
        id: 0,
    });
    env.set(Operand::from(("x", 0)), Value::new_int(1919)).unwrap();
    assert_eq!(
        env.get(&Operand::from(("x", 0))).unwrap(),
        Value::new_int(1919)
    );

    env.pop_frame().unwrap();
    assert_eq!(
        env.get(&Operand::from(("x", 0))).unwrap(),
        Value::new_int(514)
    );
    assert!(env
        .get(&Operand::from(("p", 1)))
        .unwrap()
        .alike(&Value::new_ptr(&mut heap, 514), &heap));
}

fn one_function(nreg: usize) -> Program {
    Program {
        funcs: VecDeque::from([Func {
            name: String::from("main"),
            body: Vec::new(),
            nreg,
            id: 0,
        }]),
        entry: 0,
    }
}

#[test]
fn fresh_registers_hold_zero() {
    let env = Env::new(&one_function(3)).unwrap();
    for id in 0..3 {
        assert_eq!(env.get(&Operand::from(("r", id))), Ok(Value::ValInt(0)));
    }
    assert_eq!(env.pc(), Ok(0));
    assert_eq!(env.pc_next(), Ok(1));
}

#[test]
fn slot_out_of_range_is_a_control_flow_error() {
    let mut env = Env::new(&one_function(2)).unwrap();
    assert_eq!(
        env.get(&Operand::from(("r", 2))),
        Err(Fault::ControlFlowError)
    );
    assert_eq!(
        env.set(Operand::from(("r", 2)), Value::new_int(1)),
        Err(Fault::ControlFlowError)
    );
    assert_eq!(env.get(&Operand::from(7)), Ok(Value::ValInt(7)));
    assert_eq!(env.set(Operand::from(7), Value::new_int(1)), Ok(()));
}

#[test]
fn entry_out_of_range_is_a_control_flow_error() {
    let mut program = one_function(1);
    program.entry = 1;
    assert!(matches!(Env::new(&program), Err(Fault::ControlFlowError)));
}

#[test]
fn arguments_are_last_in_first_out() {
    let mut env = Env::new(&one_function(0)).unwrap();
    assert_eq!(env.pop_arg(), Err(Fault::ArgumentStackError));
    env.push_arg(Value::new_int(1));
    env.push_arg(Value::new_int(2));
    assert_eq!(env.pop_arg(), Ok(Value::ValInt(2)));
    assert_eq!(env.pop_arg(), Ok(Value::ValInt(1)));
    assert_eq!(env.pop_arg(), Err(Fault::ArgumentStackError));
}

#[test]
fn frames_and_program_counter() {
    let mut env = Env::new(&one_function(1)).unwrap();
    env.pc_set(5).unwrap();
    assert_eq!(env.pc(), Ok(5));
    assert!(env.caller_frame().is_none());
    env.push_frame(&Func {
        name: String::from("callee"),
        body: Vec::new(),
        nreg: 4,
        id: 3,
    });
    assert_eq!(env.pc(), Ok(0));
    assert_eq!(env.top_frame().unwrap().func, 3);
    assert_eq!(env.caller_frame().unwrap().pc, 5);
    env.top_frame_mut().unwrap().pc = 9;
    assert_eq!(env.pc_next(), Ok(10));
    assert_eq!(env.pop_frame(), Ok(()));
    assert_eq!(env.pc(), Ok(5));
    assert_eq!(env.pop_frame(), Ok(()));
    assert_eq!(env.pop_frame(), Err(Fault::ControlFlowError));
    assert_eq!(env.pc(), Err(Fault::ControlFlowError));
    assert_eq!(env.pc_next(), Err(Fault::ControlFlowError));
    assert_eq!(env.pc_set(1), Err(Fault::ControlFlowError));
    assert!(env.top_frame().is_none());
    assert!(env.top_frame_mut().is_none());
    assert_eq!(
        env.get(&Operand::from(("r", 0))),
        Err(Fault::ControlFlowError)
    );
}
