//! The interpreter: a machine that runs a resolved program one instruction at
//! a time.
use vstd::prelude::*;
use vstd::std_specs::ops::AddSpec;
use vstd::std_specs::ops::SubSpec;
use vstd::std_specs::ops::MulSpec;
use vstd::std_specs::ops::DivSpec;
use vstd::string::StringExecFns;
use std::collections::VecDeque;
use crate::env::Env;
use crate::env::EnvView;
use crate::env::fresh_frame;
use crate::env::initial_env;
use crate::env::spec_get;
use crate::env::spec_pc_set;
use crate::env::spec_set;
use crate::instr::ArithOp;
use crate::instr::Instr;
use crate::instr::InstrView;
use crate::instr::Operand;
use crate::instr::OperandView;
use crate::instr::Program;
use crate::instr::ProgramView;
use crate::instr::RelOp;
use crate::instr::spec_fetch;
use crate::resolve::resolve_program;
use crate::text::chars_of;
use crate::text::parse_int;
use crate::text::parse_trimmed;
use crate::text::trim;
use crate::value::Fault;
use crate::value::Heap;
use crate::value::Value;
use crate::value::allocatable;
use crate::value::spec_load;
use crate::value::spec_render;
use crate::value::spec_store;
use crate::value::zeroed;

verus! {

/// What an arithmetic instruction computes.
pub open spec fn spec_arith(op: ArithOp, y: Value, z: Value) -> Result<Value, Fault> {
    match op {
        ArithOp::Add => y.add_spec(z),
        ArithOp::Sub => y.sub_spec(z),
        ArithOp::Mul => y.mul_spec(z),
        ArithOp::Div => y.div_spec(z),
    }
}

/// Whether the relation `op` holds of two integers. A comparison that involves
/// a pointer is an invalid operation.
pub open spec fn spec_relate(op: RelOp, x: Value, y: Value) -> Result<bool, Fault> {
    match (x, y) {
        (Value::ValInt(a), Value::ValInt(b)) => Ok(
            match op {
                RelOp::LT => a < b,
                RelOp::LE => a <= b,
                RelOp::GT => a > b,
                RelOp::GE => a >= b,
                RelOp::EQ => a == b,
                RelOp::NE => a != b,
            },
        ),
        _ => Err(Fault::InvalidOperation),
    }
}

impl ArithOp {
    /// Applies the operator to two values.
    pub fn apply(&self, y: Value, z: Value) -> (value: Result<Value, Fault>)
        ensures
            value == spec_arith(*self, y, z),
    {
        match self {
            ArithOp::Add => y + z,
            ArithOp::Sub => y - z,
            ArithOp::Mul => y * z,
            ArithOp::Div => y / z,
        }
    }
}

impl RelOp {
    /// Whether the relation holds of two values.
    pub fn holds(&self, x: &Value, y: &Value) -> (holds: Result<bool, Fault>)
        ensures
            holds == spec_relate(*self, *x, *y),
    {
        match (x, y) {
            (Value::ValInt(a), Value::ValInt(b)) => Ok(
                match self {
                    RelOp::LT => *a < *b,
                    RelOp::LE => *a <= *b,
                    RelOp::GT => *a > *b,
                    RelOp::GE => *a >= *b,
                    RelOp::EQ => *a == *b,
                    RelOp::NE => *a != *b,
                },
            ),
            _ => Err(Fault::InvalidOperation),
        }
    }
}

/// The state of the machine: the frames and pending arguments, the buffers,
/// the input that was not read yet and the output written so far.
pub struct MachineView {
    pub env: EnvView,
    pub heap: Seq<Seq<i64>>,
    pub input: Seq<char>,
    pub output: Seq<char>,
}

/// What one instruction leads to.
pub enum Outcome {
    /// The machine goes on in state `machine`, with `pc` as the program counter
    /// that the running frame is to get.
    Go { machine: MachineView, pc: usize },
    /// The entry function returned: the run is over.
    Halt,
    /// The run is aborted.
    Stop(Fault),
}

/// The length of the first line of `input`, its line feed included.
pub open spec fn line_len(input: Seq<char>) -> int
    decreases input.len(),
{
    if input.len() == 0 {
        0
    } else if input.first() == '\n' {
        1
    } else {
        1 + line_len(input.drop_first())
    }
}

/// The machine goes on with the instruction after the running one.
pub open spec fn goes_on(m: MachineView) -> Outcome {
    Outcome::Go { machine: m, pc: (m.env.top().pc + 1) as usize }
}

/// The machine writes `value` to `x` and goes on.
pub open spec fn writes(m: MachineView, x: OperandView, value: Value) -> Outcome {
    match spec_set(m.env, x, value) {
        Ok(env) => goes_on(MachineView { env, ..m }),
        Err(fault) => Outcome::Stop(fault),
    }
}

/// The machine writes the value of `y` to `x` and goes on.
pub open spec fn copies(m: MachineView, x: OperandView, y: OperandView) -> Outcome {
    match spec_get(m.env, y) {
        Ok(value) => writes(m, x, value),
        Err(fault) => Outcome::Stop(fault),
    }
}

/// What an arithmetic instruction leads to.
pub open spec fn computes(
    m: MachineView,
    x: OperandView,
    y: OperandView,
    op: ArithOp,
    z: OperandView,
) -> Outcome {
    match spec_get(m.env, y) {
        Ok(vy) => match spec_get(m.env, z) {
            Ok(vz) => match spec_arith(op, vy, vz) {
                Ok(value) => writes(m, x, value),
                Err(fault) => Outcome::Stop(fault),
            },
            Err(fault) => Outcome::Stop(fault),
        },
        Err(fault) => Outcome::Stop(fault),
    }
}

/// What a store of the value of `y` through the pointer in `x` leads to.
pub open spec fn stores(m: MachineView, x: OperandView, y: OperandView) -> Outcome {
    match spec_get(m.env, y) {
        Ok(value) => match spec_get(m.env, x) {
            Ok(address) => match spec_store(address, value, m.heap) {
                Ok(heap) => goes_on(MachineView { heap, ..m }),
                Err(fault) => Outcome::Stop(fault),
            },
            Err(fault) => Outcome::Stop(fault),
        },
        Err(fault) => Outcome::Stop(fault),
    }
}

/// What a load to `x` through the pointer in `y` leads to.
pub open spec fn loads(m: MachineView, x: OperandView, y: OperandView) -> Outcome {
    match spec_get(m.env, y) {
        Ok(address) => match spec_load(address, m.heap) {
            Ok(value) => writes(m, x, value),
            Err(fault) => Outcome::Stop(fault),
        },
        Err(fault) => Outcome::Stop(fault),
    }
}

/// What pushing the value of `x` as an argument leads to.
pub open spec fn passes(m: MachineView, x: OperandView) -> Outcome {
    match spec_get(m.env, x) {
        Ok(value) => goes_on(
            MachineView { env: EnvView { args: m.env.args.push(value), ..m.env }, ..m },
        ),
        Err(fault) => Outcome::Stop(fault),
    }
}

/// What binding the argument that was pushed last to `x` leads to.
pub open spec fn receives(m: MachineView, x: OperandView) -> Outcome {
    if m.env.args.len() > 0 {
        writes(
            MachineView { env: EnvView { args: m.env.args.drop_last(), ..m.env }, ..m },
            x,
            m.env.args.last(),
        )
    } else {
        Outcome::Stop(Fault::ArgumentStackError)
    }
}

/// What reading an integer to `x` leads to: the first line of the input is
/// consumed, and what is left of it without the white space around it must
/// write an integer.
pub open spec fn reads(m: MachineView, x: OperandView) -> Outcome {
    let n = line_len(m.input);
    match parse_int(trim(m.input.take(n))) {
        Some(i) => writes(MachineView { input: m.input.skip(n), ..m }, x, Value::ValInt(i)),
        None => Outcome::Stop(Fault::InputError),
    }
}

/// What writing the value of `x` out leads to: its text and a line feed are
/// added to the output.
pub open spec fn prints(m: MachineView, x: OperandView) -> Outcome {
    match spec_get(m.env, x) {
        Ok(value) => match spec_render(value, m.heap) {
            Ok(text) => goes_on(MachineView { output: m.output + text + seq!['\n'], ..m }),
            Err(fault) => Outcome::Stop(fault),
        },
        Err(fault) => Outcome::Stop(fault),
    }
}

/// What allocating a buffer of `size` cells for `x` leads to. A size that no
/// buffer can have is an invalid operation.
pub open spec fn allocates(m: MachineView, x: OperandView, size: i64) -> Outcome {
    if allocatable(size as int) {
        let pointer = Value::ValPtr { mem: m.heap.len() as usize, size: size as usize, ptr: 0 };
        match spec_set(m.env, x, pointer) {
            Ok(env) => goes_on(
                MachineView { env, heap: m.heap.push(zeroed(size as nat)), ..m },
            ),
            Err(fault) => Outcome::Stop(fault),
        }
    } else {
        Outcome::Stop(Fault::InvalidOperation)
    }
}

/// What a call of the function at index `id` leads to: a fresh frame of the
/// callee becomes the running one, and the caller's frame stays as it is, its
/// program counter on the call.
pub open spec fn calls(program: ProgramView, m: MachineView, id: usize) -> Outcome {
    if id < program.funcs.len() {
        let callee = program.funcs[id as int];
        Outcome::Go {
            machine: MachineView {
                env: EnvView {
                    stack: m.env.stack.push(fresh_frame(callee.nreg, callee.id)),
                    ..m.env
                },
                ..m
            },
            pc: 0,
        }
    } else {
        Outcome::Stop(Fault::ControlFlowError)
    }
}

/// What a return of the value of `x` leads to. In the entry function the
/// machine halts. Elsewhere the running frame is left, the value is written to
/// the destination of the call that the caller is parked on, and the caller goes
/// on after that call; a caller that is missing, or not parked on a call, is a
/// control-flow error.
pub open spec fn comes_back(program: ProgramView, m: MachineView, x: OperandView) -> Outcome {
    if m.env.top().func == program.entry {
        Outcome::Halt
    } else {
        match spec_get(m.env, x) {
            Ok(value) => if m.env.stack.len() > 1 {
                match spec_fetch(program, m.env.stack[m.env.stack.len() - 2]) {
                    Ok(InstrView::Call { x: dest, .. }) => writes(
                        MachineView {
                            env: EnvView { stack: m.env.stack.drop_last(), ..m.env },
                            ..m
                        },
                        dest,
                        value,
                    ),
                    _ => Outcome::Stop(Fault::ControlFlowError),
                }
            } else {
                Outcome::Stop(Fault::ControlFlowError)
            },
            Err(fault) => Outcome::Stop(fault),
        }
    }
}

/// What a conditional jump leads to.
pub open spec fn branches(
    m: MachineView,
    x: OperandView,
    op: RelOp,
    y: OperandView,
    id: usize,
) -> Outcome {
    match spec_get(m.env, x) {
        Ok(vx) => match spec_get(m.env, y) {
            Ok(vy) => match spec_relate(op, vx, vy) {
                Ok(holds) => if holds {
                    Outcome::Go { machine: m, pc: id }
                } else {
                    goes_on(m)
                },
                Err(fault) => Outcome::Stop(fault),
            },
            Err(fault) => Outcome::Stop(fault),
        },
        Err(fault) => Outcome::Stop(fault),
    }
}

/// What the instruction `instr` leads to in state `m`.
pub open spec fn perform(program: ProgramView, m: MachineView, instr: InstrView) -> Outcome {
    match instr {
        InstrView::Arith(x, y, op, z) => computes(m, x, y, op, z),
        InstrView::Assign(x, y) => copies(m, x, y),
        InstrView::Deref(x, y) => copies(m, x, y),
        InstrView::Store(x, y) => stores(m, x, y),
        InstrView::Load(x, y) => loads(m, x, y),
        InstrView::Arg(x) => passes(m, x),
        InstrView::Param(x) => receives(m, x),
        InstrView::Label(_) => goes_on(m),
        InstrView::Read(x) => reads(m, x),
        InstrView::Write(x) => prints(m, x),
        InstrView::Dec(x, size) => allocates(m, x, size),
        InstrView::Call { id, .. } => calls(program, m, id),
        InstrView::Return(x) => comes_back(program, m, x),
        InstrView::Goto { id, .. } => Outcome::Go { machine: m, pc: id },
        InstrView::Cond { x, op, y, id, .. } => branches(m, x, op, y, id),
    }
}

/// What the next instruction leads to in state `m`: the instruction that the
/// running frame's program counter points to is fetched and performed. A
/// machine without a frame is a control-flow error.
pub open spec fn step_spec(program: ProgramView, m: MachineView) -> Outcome {
    if m.env.stack.len() == 0 {
        Outcome::Stop(Fault::ControlFlowError)
    } else {
        match spec_fetch(program, m.env.top()) {
            Ok(instr) => perform(program, m, instr),
            Err(fault) => Outcome::Stop(fault),
        }
    }
}

/// Whether a step that returned `next` and left the machine in state `after`
/// did what `outcome` says: on a fault, and where the run is over, the machine is
/// left as it was.
pub open spec fn agrees(
    before: MachineView,
    outcome: Outcome,
    next: Result<Option<usize>, Fault>,
    after: MachineView,
) -> bool {
    match outcome {
        Outcome::Go { machine, pc } => next == Ok::<Option<usize>, Fault>(Some(pc)) && after
            == machine,
        Outcome::Halt => next == Ok::<Option<usize>, Fault>(None) && after == before,
        Outcome::Stop(fault) => next == Err::<Option<usize>, Fault>(fault) && after == before,
    }
}

/// The state in which a run of `program` on `input` starts.
pub open spec fn initial_machine(program: ProgramView, input: Seq<char>) -> MachineView {
    MachineView { env: initial_env(program), heap: Seq::empty(), input, output: Seq::empty() }
}

/// A machine that runs a resolved program. It reads its input from a buffer
/// that can be added to, and writes its output to a buffer that can be taken
/// from.
pub struct Interpreter {
    program: Program,
    env: Env,
    heap: Heap,
    input: VecDeque<char>,
    output: String,
}

impl View for Interpreter {
    type V = MachineView;

    closed spec fn view(&self) -> MachineView {
        MachineView {
            env: self.env@,
            heap: self.heap@,
            input: self.input@,
            output: self.output@,
        }
    }
}

impl Interpreter {
    /// The program that the machine runs.
    pub closed spec fn program(&self) -> ProgramView {
        self.program@
    }

    /// Resolves `program` and makes the machine that runs it on `input`. A
    /// program that cannot be resolved is not run at all.
    pub fn new(program: Program, input: &str) -> (made: Result<Interpreter, Fault>)
        ensures
            match resolve_program(program@) {
                Ok(resolved) => made is Ok && made->Ok_0.program() == resolved && made->Ok_0@
                    == initial_machine(resolved, input@),
                Err(fault) => made is Err && made->Err_0 == fault,
            },
    {
        let ghost raw = program@;
        let mut program = program;
        match program.init() {
            Ok(()) => {},
            Err(fault) => {
                return Err(fault);
            },
        }
        proof {
            crate::resolve::lemma_resolved_entry(raw);
        }
        let env = match Env::new(&program) {
            Ok(env) => env,
            Err(fault) => {
                return Err(fault);
            },
        };
        let mut queue: VecDeque<char> = VecDeque::new();
        let chars = chars_of(input);
        let mut k: usize = 0;
        while k < chars.len()
            invariant
                k <= chars@.len(),
                queue@ == chars@.take(k as int),
            decreases chars@.len() - k,
        {
            queue.push_back(chars[k]);
            assert(chars@.take(k as int + 1) =~= chars@.take(k as int).push(chars@[k as int]));
            k += 1;
        }
        assert(chars@.take(k as int) =~= chars@);
        Ok(Interpreter { program, env, heap: Heap::new(), input: queue, output: String::new() })
    }
}

impl Interpreter {
    /// The first line of the input that was not read yet, its line feed
    /// included.
    fn peek_line(&self) -> (line: Vec<char>)
        ensures
            line@ == self@.input.take(line_len(self@.input)),
            0 <= line_len(self@.input) <= self@.input.len(),
    {
        let ghost input = self.input@;
        let mut line: Vec<char> = Vec::new();
        let mut k: usize = 0;
        assert(input.skip(0) =~= input);
        while k < self.input.len()
            invariant
                k <= input.len(),
                input == self.input@,
                line@ == input.take(k as int),
                line_len(input) == k + line_len(input.skip(k as int)),
            decreases input.len() - k,
        {
            let c = self.input[k];
            line.push(c);
            assert(input.take(k as int + 1) =~= input.take(k as int).push(c));
            assert(input.skip(k as int).first() == c);
            assert(input.skip(k as int).drop_first() =~= input.skip(k as int + 1));
            k += 1;
            if c == '\n' {
                return line;
            }
        }
        line
    }

    /// Takes the first `n` characters off the input.
    fn consume(&mut self, n: usize)
        requires
            n <= old(self)@.input.len(),
        ensures
            final(self)@ == (MachineView { input: old(self)@.input.skip(n as int), ..old(self)@ }),
            final(self).program() == old(self).program(),
    {
        let mut k: usize = 0;
        assert(self.input@.skip(0) =~= self.input@);
        while k < n
            invariant
                k <= n <= old(self)@.input.len(),
                self.input@ == old(self)@.input.skip(k as int),
                self.env@ == old(self).env@,
                self.heap@ == old(self).heap@,
                self.output@ == old(self).output@,
                self.program@ == old(self).program@,
            decreases n - k,
        {
            let _ = self.input.pop_front();
            assert(self.input@ =~= old(self)@.input.skip(k as int + 1));
            k += 1;
        }
    }

    /// Writes `value` to `x` and goes on at `next`.
    fn write_to(&mut self, x: Operand, value: Value, next: usize) -> (done: Result<
        Option<usize>,
        Fault,
    >)
        ensures
            final(self).program() == old(self).program(),
            match spec_set(old(self)@.env, x@, value) {
                Ok(env) => done == Ok::<Option<usize>, Fault>(Some(next)) && final(self)@ == (
                MachineView { env, ..old(self)@ }),
                Err(fault) => done == Err::<Option<usize>, Fault>(fault) && final(self)@
                    == old(self)@,
            },
    {
        match self.env.set(x, value) {
            Ok(()) => Ok(Some(next)),
            Err(fault) => Err(fault),
        }
    }

    /// What an arithmetic instruction does.
    fn do_arith(&mut self, x: Operand, y: Operand, op: ArithOp, z: Operand, after: usize) -> (next:
        Result<Option<usize>, Fault>)
        requires
            old(self)@.env.stack.len() > 0,
            after == old(self)@.env.top().pc + 1,
        ensures
            final(self).program() == old(self).program(),
            agrees(old(self)@, computes(old(self)@, x@, y@, op, z@), next, final(self)@),
    {
        let vy = match self.env.get(&y) {
            Ok(value) => value,
            Err(fault) => {
                return Err(fault);
            },
        };
        let vz = match self.env.get(&z) {
            Ok(value) => value,
            Err(fault) => {
                return Err(fault);
            },
        };
        match op.apply(vy, vz) {
            Ok(value) => self.write_to(x, value, after),
            Err(fault) => Err(fault),
        }
    }

    /// What an assignment does.
    fn do_copy(&mut self, x: Operand, y: Operand, after: usize) -> (next: Result<
        Option<usize>,
        Fault,
    >)
        requires
            old(self)@.env.stack.len() > 0,
            after == old(self)@.env.top().pc + 1,
        ensures
            final(self).program() == old(self).program(),
            agrees(old(self)@, copies(old(self)@, x@, y@), next, final(self)@),
    {
        match self.env.get(&y) {
            Ok(value) => self.write_to(x, value, after),
            Err(fault) => Err(fault),
        }
    }

    /// What a store does.
    fn do_store(&mut self, x: Operand, y: Operand, after: usize) -> (next: Result<
        Option<usize>,
        Fault,
    >)
        requires
            old(self)@.env.stack.len() > 0,
            after == old(self)@.env.top().pc + 1,
        ensures
            final(self).program() == old(self).program(),
            agrees(old(self)@, stores(old(self)@, x@, y@), next, final(self)@),
    {
        let value = match self.env.get(&y) {
            Ok(value) => value,
            Err(fault) => {
                return Err(fault);
            },
        };
        let address = match self.env.get(&x) {
            Ok(value) => value,
            Err(fault) => {
                return Err(fault);
            },
        };
        match address.store(&mut self.heap, value) {
            Ok(()) => Ok(Some(after)),
            Err(fault) => Err(fault),
        }
    }

    /// What a load does.
    fn do_load(&mut self, x: Operand, y: Operand, after: usize) -> (next: Result<
        Option<usize>,
        Fault,
    >)
        requires
            old(self)@.env.stack.len() > 0,
            after == old(self)@.env.top().pc + 1,
        ensures
            final(self).program() == old(self).program(),
            agrees(old(self)@, loads(old(self)@, x@, y@), next, final(self)@),
    {
        let address = match self.env.get(&y) {
            Ok(value) => value,
            Err(fault) => {
                return Err(fault);
            },
        };
        match address.load(&self.heap) {
            Ok(value) => self.write_to(x, value, after),
            Err(fault) => Err(fault),
        }
    }

    /// What pushing an argument does.
    fn do_arg(&mut self, x: Operand, after: usize) -> (next: Result<Option<usize>, Fault>)
        requires
            old(self)@.env.stack.len() > 0,
            after == old(self)@.env.top().pc + 1,
        ensures
            final(self).program() == old(self).program(),
            agrees(old(self)@, passes(old(self)@, x@), next, final(self)@),
    {
        match self.env.get(&x) {
            Ok(value) => {
                self.env.push_arg(value);
                Ok(Some(after))
            },
            Err(fault) => Err(fault),
        }
    }

    /// What binding a parameter does.
    fn do_param(&mut self, x: Operand, after: usize) -> (next: Result<Option<usize>, Fault>)
        requires
            old(self)@.env.stack.len() > 0,
            after == old(self)@.env.top().pc + 1,
        ensures
            final(self).program() == old(self).program(),
            agrees(old(self)@, receives(old(self)@, x@), next, final(self)@),
    {
        let value = match self.env.pop_arg() {
            Ok(value) => value,
            Err(fault) => {
                return Err(fault);
            },
        };
        match self.env.set(x, value) {
            Ok(()) => Ok(Some(after)),
            Err(fault) => {
                self.env.push_arg(value);
                assert(self.env@.args =~= old(self).env@.args);
                Err(fault)
            },
        }
    }

    /// What reading an integer does.
    fn do_read(&mut self, x: Operand, after: usize) -> (next: Result<Option<usize>, Fault>)
        requires
            old(self)@.env.stack.len() > 0,
            after == old(self)@.env.top().pc + 1,
        ensures
            final(self).program() == old(self).program(),
            agrees(old(self)@, reads(old(self)@, x@), next, final(self)@),
    {
        let line = self.peek_line();
        assert(line@.subrange(0, line@.len() as int) =~= line@);
        let value = match parse_trimmed(&line, 0, line.len()) {
            Some(i) => Value::new_int(i),
            None => {
                return Err(Fault::InputError);
            },
        };
        match self.env.get(&x) {
            Ok(_) => {},
            Err(fault) => {
                return Err(fault);
            },
        }
        self.consume(line.len());
        self.write_to(x, value, after)
    }

    /// What writing a value out does.
    fn do_write(&mut self, x: Operand, after: usize) -> (next: Result<Option<usize>, Fault>)
        requires
            old(self)@.env.stack.len() > 0,
            after == old(self)@.env.top().pc + 1,
        ensures
            final(self).program() == old(self).program(),
            agrees(old(self)@, prints(old(self)@, x@), next, final(self)@),
    {
        let value = match self.env.get(&x) {
            Ok(value) => value,
            Err(fault) => {
                return Err(fault);
            },
        };
        match value.render(&self.heap) {
            Ok(text) => {
                self.output.append(text.as_str());
                self.output.push('\n');
                assert(self.output@ =~= old(self).output@ + text@ + seq!['\n']);
                Ok(Some(after))
            },
            Err(fault) => Err(fault),
        }
    }

    /// What allocating a buffer does.
    fn do_dec(&mut self, x: Operand, size: i64, after: usize) -> (next: Result<
        Option<usize>,
        Fault,
    >)
        requires
            old(self)@.env.stack.len() > 0,
            after == old(self)@.env.top().pc + 1,
        ensures
            final(self).program() == old(self).program(),
            agrees(old(self)@, allocates(old(self)@, x@, size), next, final(self)@),
    {
        if size < 0 || size as u64 > (isize::MAX as u64) / 8 {
            return Err(Fault::InvalidOperation);
        }
        match self.env.get(&x) {
            Ok(_) => {},
            Err(fault) => {
                return Err(fault);
            },
        }
        let pointer = Value::new_ptr(&mut self.heap, size as usize);
        self.write_to(x, pointer, after)
    }

    /// What a call does.
    fn do_call(&mut self, id: usize) -> (next: Result<Option<usize>, Fault>)
        ensures
            final(self).program() == old(self).program(),
            agrees(old(self)@, calls(old(self).program(), old(self)@, id), next, final(self)@),
    {
        if id < self.program.funcs.len() {
            self.env.push_frame(&self.program.funcs[id]);
            Ok(Some(0))
        } else {
            Err(Fault::ControlFlowError)
        }
    }

    /// What a return does.
    fn do_return(&mut self, x: Operand) -> (next: Result<Option<usize>, Fault>)
        requires
            old(self)@.env.stack.len() > 0,
        ensures
            final(self).program() == old(self).program(),
            agrees(
                old(self)@,
                comes_back(old(self).program(), old(self)@, x@),
                next,
                final(self)@,
            ),
    {
        match self.env.top_frame() {
            Some(frame) => {
                if frame.func == self.program.entry {
                    return Ok(None);
                }
            },
            None => {},
        }
        let value = match self.env.get(&x) {
            Ok(value) => value,
            Err(fault) => {
                return Err(fault);
            },
        };
        let (dest, resume) = match self.env.caller_frame() {
            Some(caller) => match self.program.fetch(caller) {
                Ok(Instr::Call { x: dest, .. }) => {
                    match &dest {
                        Operand::Reg { id, .. } => {
                            if caller.get(id).is_none() {
                                return Err(Fault::ControlFlowError);
                            }
                        },
                        Operand::Imm(_) => {},
                    }
                    (dest, caller.pc + 1)
                },
                _ => {
                    return Err(Fault::ControlFlowError);
                },
            },
            None => {
                return Err(Fault::ControlFlowError);
            },
        };
        match self.env.pop_frame() {
            Ok(()) => {},
            Err(fault) => {
                return Err(fault);
            },
        }
        self.write_to(dest, value, resume)
    }

    /// What a conditional jump does.
    fn do_cond(&mut self, x: Operand, op: RelOp, y: Operand, id: usize, after: usize) -> (next:
        Result<Option<usize>, Fault>)
        requires
            old(self)@.env.stack.len() > 0,
            after == old(self)@.env.top().pc + 1,
        ensures
            final(self).program() == old(self).program(),
            agrees(old(self)@, branches(old(self)@, x@, op, y@, id), next, final(self)@),
    {
        let vx = match self.env.get(&x) {
            Ok(value) => value,
            Err(fault) => {
                return Err(fault);
            },
        };
        let vy = match self.env.get(&y) {
            Ok(value) => value,
            Err(fault) => {
                return Err(fault);
            },
        };
        match op.holds(&vx, &vy) {
            Ok(holds) => if holds {
                Ok(Some(id))
            } else {
                Ok(Some(after))
            },
            Err(fault) => Err(fault),
        }
    }

    /// Performs the instruction that the running frame's program counter points
    /// to, but for the program counter, and returns the program counter that
    /// the running frame is to get, or nothing where the entry function returned.
    fn dispatch(&mut self) -> (next: Result<Option<usize>, Fault>)
        ensures
            final(self).program() == old(self).program(),
            agrees(old(self)@, step_spec(old(self).program(), old(self)@), next, final(self)@),
    {
        let (instr, pc) = match self.env.top_frame() {
            Some(frame) => match self.program.fetch(frame) {
                Ok(instr) => (instr, frame.pc),
                Err(fault) => {
                    return Err(fault);
                },
            },
            None => {
                return Err(Fault::ControlFlowError);
            },
        };
        let after = pc + 1;
        match instr {
            Instr::Arith(x, y, op, z) => self.do_arith(x, y, op, z, after),
            Instr::Assign(x, y) => self.do_copy(x, y, after),
            Instr::Deref(x, y) => self.do_copy(x, y, after),
            Instr::Store(x, y) => self.do_store(x, y, after),
            Instr::Load(x, y) => self.do_load(x, y, after),
            Instr::Arg(x) => self.do_arg(x, after),
            Instr::Param(x) => self.do_param(x, after),
            Instr::Label(_) => Ok(Some(after)),
            Instr::Read(x) => self.do_read(x, after),
            Instr::Write(x) => self.do_write(x, after),
            Instr::Dec(x, size) => self.do_dec(x, size, after),
            Instr::Call { id, .. } => self.do_call(id),
            Instr::Return(x) => self.do_return(x),
            Instr::Goto { id, .. } => Ok(Some(id)),
            Instr::Cond { x, op, y, id, .. } => self.do_cond(x, op, y, id, after),
        }
    }
}

/// The instruction that runs next in `m`.
pub open spec fn next_instr(program: ProgramView, m: MachineView) -> Result<InstrView, Fault> {
    if m.env.stack.len() > 0 {
        spec_fetch(program, m.env.top())
    } else {
        Err(Fault::ControlFlowError)
    }
}

/// Whether the instruction that runs next in `m` is a read.
pub open spec fn about_to_read(program: ProgramView, m: MachineView) -> bool {
    next_instr(program, m) matches Ok(InstrView::Read(_))
}

/// `m` with `pc` as the program counter of the running frame.
pub open spec fn parked(m: MachineView, pc: usize) -> MachineView {
    MachineView { env: spec_pc_set(m.env, pc), ..m }
}

/// How a run ended: in state `machine`, after `steps` instructions that the
/// machine went on from. `end` is `Ok(true)` where the entry function returned,
/// `Ok(false)` where the run was cut off, and the fault where it was aborted.
pub struct Run {
    pub machine: MachineView,
    pub steps: nat,
    pub end: Result<bool, Fault>,
}

/// The run of `program` from state `m` that goes on from at most `limit`
/// instructions.
pub open spec fn run(program: ProgramView, m: MachineView, limit: nat) -> Run
    decreases limit,
{
    if limit == 0 {
        Run { machine: m, steps: 0, end: Ok(false) }
    } else {
        match step_spec(program, m) {
            Outcome::Go { machine, pc } => {
                let rest = run(program, parked(machine, pc), (limit - 1) as nat);
                Run { steps: rest.steps + 1, ..rest }
            },
            Outcome::Halt => Run { machine: m, steps: 0, end: Ok(true) },
            Outcome::Stop(fault) => Run { machine: m, steps: 0, end: Err(fault) },
        }
    }
}

/// A machine that goes on has a running frame.
pub proof fn lemma_go_has_frame(program: ProgramView, m: MachineView)
    ensures
        step_spec(program, m) matches Outcome::Go { machine, .. } ==> machine.env.stack.len() > 0,
{
}

impl Interpreter {
    /// Performs one instruction: the one that the running frame's program
    /// counter points to. Returns the program counter that the running frame
    /// has got, or nothing where the entry function returned. On a fault, and
    /// where the entry function returned, the machine is left as it was.
    pub fn step(&mut self) -> (next: Result<Option<usize>, Fault>)
        ensures
            final(self).program() == old(self).program(),
            match step_spec(old(self).program(), old(self)@) {
                Outcome::Go { machine, pc } => next == Ok::<Option<usize>, Fault>(Some(pc))
                    && final(self)@ == parked(machine, pc),
                Outcome::Halt => next == Ok::<Option<usize>, Fault>(None) && final(self)@
                    == old(self)@,
                Outcome::Stop(fault) => next == Err::<Option<usize>, Fault>(fault) && final(self)@
                    == old(self)@,
            },
    {
        proof {
            lemma_go_has_frame(self.program(), self@);
        }
        match self.dispatch() {
            Ok(Some(next_pc)) => match self.env.pc_set(next_pc) {
                Ok(()) => Ok(Some(next_pc)),
                Err(fault) => Err(fault),
            },
            Ok(None) => Ok(None),
            Err(fault) => Err(fault),
        }
    }

    /// Runs the program until the entry function returns, a fault aborts the
    /// run, or the machine has gone on from `limit` instructions. Returns the
    /// number of instructions that the machine went on from where the entry
    /// function returned, and nothing where the run was cut off; the machine can
    /// then be run on.
    pub fn exec(&mut self, limit: usize) -> (done: Result<Option<usize>, Fault>)
        ensures
            final(self).program() == old(self).program(),
            final(self)@ == run(old(self).program(), old(self)@, limit as nat).machine,
            done == match run(old(self).program(), old(self)@, limit as nat).end {
                Ok(true) => Ok::<Option<usize>, Fault>(
                    Some(run(old(self).program(), old(self)@, limit as nat).steps as usize),
                ),
                Ok(false) => Ok(None),
                Err(fault) => Err(fault),
            },
            run(old(self).program(), old(self)@, limit as nat).steps <= limit,
    {
        let ghost program = self.program();
        let ghost start = self@;
        let mut instr_cnt: usize = 0;
        while instr_cnt < limit
            invariant
                instr_cnt <= limit,
                self.program() == program,
                program == old(self).program(),
                start == old(self)@,
                run(program, start, limit as nat).machine == run(
                    program,
                    self@,
                    (limit - instr_cnt) as nat,
                ).machine,
                run(program, start, limit as nat).end == run(
                    program,
                    self@,
                    (limit - instr_cnt) as nat,
                ).end,
                run(program, start, limit as nat).steps == instr_cnt + run(
                    program,
                    self@,
                    (limit - instr_cnt) as nat,
                ).steps,
            decreases limit - instr_cnt,
        {
            match self.step() {
                Ok(Some(_)) => {},
                Ok(None) => {
                    return Ok(Some(instr_cnt));
                },
                Err(fault) => {
                    return Err(fault);
                },
            }
            instr_cnt += 1;
        }
        Ok(None)
    }

    /// The instruction that runs next: the one that a fault of the next step
    /// is about.
    pub fn current(&self) -> (instr: Result<Instr, Fault>)
        ensures
            match next_instr(self.program(), self@) {
                Ok(view) => instr is Ok && instr->Ok_0@ == view,
                Err(fault) => instr is Err && instr->Err_0 == fault,
            },
    {
        match self.env.top_frame() {
            Some(frame) => self.program.fetch(frame),
            None => Err(Fault::ControlFlowError),
        }
    }

    /// The output written and not taken yet.
    pub fn output(&self) -> (text: &str)
        ensures
            text@ == self@.output,
    {
        self.output.as_str()
    }

    /// Takes the output written so far out of the machine.
    pub fn take_output(&mut self) -> (text: String)
        ensures
            text@ == old(self)@.output,
            final(self)@ == (MachineView { output: Seq::empty(), ..old(self)@ }),
            final(self).program() == old(self).program(),
    {
        let mut text = String::new();
        std::mem::swap(&mut self.output, &mut text);
        text
    }

    /// Adds `text` to the end of the input.
    pub fn feed(&mut self, text: &str)
        ensures
            final(self)@ == (MachineView { input: old(self)@.input + text@, ..old(self)@ }),
            final(self).program() == old(self).program(),
    {
        let chars = chars_of(text);
        let mut k: usize = 0;
        assert(self.input@ =~= old(self)@.input + chars@.take(0));
        while k < chars.len()
            invariant
                k <= chars@.len(),
                self.input@ == old(self)@.input + chars@.take(k as int),
                self.env@ == old(self).env@,
                self.heap@ == old(self).heap@,
                self.output@ == old(self).output@,
                self.program@ == old(self).program@,
            decreases chars@.len() - k,
        {
            self.input.push_back(chars[k]);
            assert(chars@.take(k as int + 1) =~= chars@.take(k as int).push(chars@[k as int]));
            assert(self.input@ =~= old(self)@.input + chars@.take(k as int + 1));
            k += 1;
        }
        assert(chars@.take(k as int) =~= chars@);
    }

    /// Whether the machine is about to read and the input holds no whole line
    /// for it.
    pub fn wants_input(&self) -> (wants: bool)
        ensures
            wants == (about_to_read(self.program(), self@) && !self@.input.contains('\n')),
    {
        let reads = match self.env.top_frame() {
            Some(frame) => match self.program.fetch(frame) {
                Ok(Instr::Read(_)) => true,
                _ => false,
            },
            None => false,
        };
        if !reads {
            return false;
        }
        let mut k: usize = 0;
        while k < self.input.len()
            invariant
                k <= self.input@.len(),
                forall|j: int| 0 <= j < k ==> self.input@[j] != '\n',
            decreases self.input@.len() - k,
        {
            if self.input[k] == '\n' {
                return false;
            }
            k += 1;
        }
        true
    }
}

/// The state that the machine is in after one instruction, where it goes on.
pub open spec fn next_state(program: ProgramView, m: MachineView) -> Option<MachineView> {
    match step_spec(program, m) {
        Outcome::Go { machine, pc } => Some(parked(machine, pc)),
        _ => None,
    }
}

/// One instruction changes no frame but the running one and, where it is a
/// return, the caller's: every frame below both the running frame before and
/// the running frame after is as it was. A call leaves the caller's frame as
/// it was, too.
pub proof fn lemma_step_keeps_frames_below(program: ProgramView, m: MachineView, i: int)
    requires
        next_state(program, m) is Some,
        0 <= i < m.env.stack.len(),
        i < next_state(program, m)->Some_0.env.stack.len() - 1,
    ensures
        next_state(program, m)->Some_0.env.stack[i] == m.env.stack[i],
{
}

/// Whether the machine has more than `depth` frames before each of the first
/// `n` instructions of its run from `m`, and after the last of them.
pub open spec fn stays_deeper(program: ProgramView, m: MachineView, depth: int, n: nat) -> bool {
    forall|k: nat| k <= n ==> (#[trigger] run(program, m, k)).machine.env.stack.len() > depth
}

/// While a run has more than `depth` frames, its lowest `depth` frames stay
/// as they were: what a callee and the functions that it calls do, at whatever
/// depth of recursion, changes neither a register nor the program counter of
/// a frame of its callers.
pub proof fn lemma_callers_frames_stay(program: ProgramView, m: MachineView, depth: int, n: nat)
    requires
        0 <= depth,
        stays_deeper(program, m, depth, n),
    ensures
        run(program, m, n).machine.env.stack.take(depth) == m.env.stack.take(depth),
    decreases n,
{
    assert(run(program, m, 0).machine == m);
    if n > 0 {
        match step_spec(program, m) {
            Outcome::Go { machine, pc } => {
                let next = parked(machine, pc);
                assert(run(program, m, 1).machine == next) by {
                    assert(run(program, next, 0).machine == next);
                }
                assert forall|k: nat| k <= (n - 1) as nat implies (#[trigger] run(
                    program,
                    next,
                    k,
                )).machine.env.stack.len() > depth by {
                    assert(run(program, m, k + 1).machine == run(program, next, k).machine);
                }
                lemma_callers_frames_stay(program, next, depth, (n - 1) as nat);
                assert forall|i: int| 0 <= i < depth implies next.env.stack[i]
                    == m.env.stack[i] by {
                    lemma_step_keeps_frames_below(program, m, i);
                }
                assert(next.env.stack.take(depth) =~= m.env.stack.take(depth));
            },
            _ => {},
        }
    }
}

/// A call starts its callee in a frame of its own whose registers all hold the
/// integer zero, whatever earlier calls left behind, and leaves every other
/// frame, the pending arguments, the buffers, the input and the output as they
/// were.
pub proof fn lemma_call_starts_fresh(program: ProgramView, m: MachineView)
    requires
        m.env.stack.len() > 0,
        spec_fetch(program, m.env.top()) matches Ok(InstrView::Call { .. }),
        next_state(program, m) is Some,
    ensures
        ({
            let id = spec_fetch(program, m.env.top())->Ok_0->Call_id;
            let next = next_state(program, m)->Some_0;
            &&& id < program.funcs.len()
            &&& next.env.stack.len() == m.env.stack.len() + 1
            &&& next.env.stack.take(m.env.stack.len() as int) == m.env.stack
            &&& next.env.top().pc == 0
            &&& next.env.top().func == program.funcs[id as int].id
            &&& next.env.top().regs.len() == program.funcs[id as int].nreg
            &&& forall|slot: int|
                0 <= slot < next.env.top().regs.len() ==> next.env.top().regs[slot]
                    == Value::ValInt(0)
            &&& next.env.args == m.env.args
            &&& next.heap == m.heap
            &&& next.input == m.input
            &&& next.output == m.output
        }),
{
    let next = next_state(program, m)->Some_0;
    assert(next.env.stack.take(m.env.stack.len() as int) =~= m.env.stack);
}

/// A return that is not the entry function's hands its value to the caller and
/// changes nothing else of it: the caller goes on after the call that it was
/// parked on, the destination of that call holds the returned value, and every
/// other register of the caller, every frame below it, the pending arguments,
/// the buffers, the input and the output are as they were.
pub proof fn lemma_return_writes_destination(program: ProgramView, m: MachineView)
    requires
        m.env.stack.len() > 0,
        spec_fetch(program, m.env.top()) matches Ok(InstrView::Return(_)),
        next_state(program, m) is Some,
    ensures
        ({
            let x = spec_fetch(program, m.env.top())->Ok_0->Return_0;
            let next = next_state(program, m)->Some_0;
            let depth = m.env.stack.len() - 1;
            let caller = m.env.stack[depth - 1];
            &&& depth >= 1
            &&& next.env.stack.len() == depth
            &&& next.env.stack.take(depth - 1) == m.env.stack.take(depth - 1)
            &&& spec_fetch(program, caller) matches Ok(InstrView::Call { x: dest, .. })
            &&& spec_get(m.env, x) matches Ok(value)
            &&& next.env.top().func == caller.func
            &&& next.env.top().pc == (caller.pc + 1) as usize
            &&& next.env.top().regs.len() == caller.regs.len()
            &&& forall|slot: int|
                0 <= slot < caller.regs.len() ==> next.env.top().regs[slot] == if dest is Reg
                    && dest->id == slot {
                    value
                } else {
                    caller.regs[slot]
                }
            &&& next.env.args == m.env.args
            &&& next.heap == m.heap
            &&& next.input == m.input
            &&& next.output == m.output
        }),
{
    let next = next_state(program, m)->Some_0;
    let depth = m.env.stack.len() - 1;
    assert(next.env.stack.take(depth - 1) =~= m.env.stack.take(depth - 1));
}

} // verus!
