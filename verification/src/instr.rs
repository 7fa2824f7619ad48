//! The instruction set, functions and programs, and the pass that resolves
//! symbolic names into numbers.
use vstd::prelude::*;
use vstd::std_specs::convert::FromSpecImpl;
use std::collections::VecDeque;
use crate::env::Frame;
use crate::env::FrameView;
use crate::value::Fault;

verus! {

/// An operand: a register, known by its name and (once resolved) its slot, or
/// an immediate integer.
#[derive(Debug, PartialEq, Eq, Hash)]
pub enum Operand {
    Reg { name: String, id: usize },
    Imm(i64),
}

/// What an operand stands for.
pub enum OperandView {
    Reg { name: Seq<char>, id: usize },
    Imm(i64),
}

impl View for Operand {
    type V = OperandView;

    open spec fn view(&self) -> OperandView {
        match *self {
            Operand::Reg { name, id } => OperandView::Reg { name: name@, id },
            Operand::Imm(i) => OperandView::Imm(i),
        }
    }
}

impl Clone for Operand {
    fn clone(&self) -> (copy: Operand)
        ensures
            copy == *self,
    {
        match self {
            Operand::Reg { name, id } => Operand::Reg { name: name.clone(), id: *id },
            Operand::Imm(i) => Operand::Imm(*i),
        }
    }
}

impl From<i64> for Operand {
    fn from(i: i64) -> (operand: Operand) {
        Operand::Imm(i)
    }
}

impl FromSpecImpl<i64> for Operand {
    open spec fn obeys_from_spec() -> bool {
        true
    }

    open spec fn from_spec(i: i64) -> Operand {
        Operand::Imm(i)
    }
}

impl From<&str> for Operand {
    /// The register of that name, not yet bound to a slot.
    fn from(name: &str) -> (operand: Operand)
        ensures
            operand@ == (OperandView::Reg { name: name@, id: 0 }),
    {
        Operand::Reg { name: name.to_owned(), id: 0 }
    }
}

impl FromSpecImpl<&str> for Operand {
    open spec fn obeys_from_spec() -> bool {
        false
    }

    open spec fn from_spec(name: &str) -> Operand {
        arbitrary()
    }
}

impl From<(&str, usize)> for Operand {
    /// The register of that name in that slot.
    fn from(value: (&str, usize)) -> (operand: Operand)
        ensures
            operand@ == (OperandView::Reg { name: value.0@, id: value.1 }),
    {
        Operand::Reg { name: value.0.to_owned(), id: value.1 }
    }
}

impl FromSpecImpl<(&str, usize)> for Operand {
    open spec fn obeys_from_spec() -> bool {
        false
    }

    open spec fn from_spec(value: (&str, usize)) -> Operand {
        arbitrary()
    }
}

impl From<String> for Operand {
    fn from(value: String) -> (operand: Operand) {
        Operand::Reg { name: value, id: 0 }
    }
}

impl FromSpecImpl<String> for Operand {
    open spec fn obeys_from_spec() -> bool {
        true
    }

    open spec fn from_spec(value: String) -> Operand {
        Operand::Reg { name: value, id: 0 }
    }
}

#[derive(Debug, Clone, Copy, PartialEq, Eq, Structural)]
pub enum ArithOp {
    Add,
    Sub,
    Div,
    Mul,
}

#[derive(Debug, Clone, Copy, PartialEq, Eq, Structural)]
pub enum RelOp {
    LT,
    LE,
    GT,
    GE,
    EQ,
    NE,
}

/// One instruction. A jump carries the name of its label and, once resolved,
/// the index of the label's marker; a call carries the name of its callee and,
/// once resolved, the callee's index in the program.
#[derive(Debug, PartialEq, Eq)]
pub enum Instr {
    Assign(Operand, Operand),
    Arith(Operand, Operand, ArithOp, Operand),
    Deref(Operand, Operand),
    Store(Operand, Operand),
    Load(Operand, Operand),
    Label(String),
    Goto { name: String, id: usize },
    Cond { x: Operand, op: RelOp, y: Operand, name: String, id: usize },
    Return(Operand),
    Dec(Operand, i64),
    Arg(Operand),
    Call { x: Operand, name: String, id: usize },
    Param(Operand),
    Read(Operand),
    Write(Operand),
}

/// What an instruction stands for.
pub enum InstrView {
    Assign(OperandView, OperandView),
    Arith(OperandView, OperandView, ArithOp, OperandView),
    Deref(OperandView, OperandView),
    Store(OperandView, OperandView),
    Load(OperandView, OperandView),
    Label(Seq<char>),
    Goto { name: Seq<char>, id: usize },
    Cond { x: OperandView, op: RelOp, y: OperandView, name: Seq<char>, id: usize },
    Return(OperandView),
    Dec(OperandView, i64),
    Arg(OperandView),
    Call { x: OperandView, name: Seq<char>, id: usize },
    Param(OperandView),
    Read(OperandView),
    Write(OperandView),
}

impl View for Instr {
    type V = InstrView;

    open spec fn view(&self) -> InstrView {
        match *self {
            Instr::Assign(x, y) => InstrView::Assign(x@, y@),
            Instr::Arith(x, y, op, z) => InstrView::Arith(x@, y@, op, z@),
            Instr::Deref(x, y) => InstrView::Deref(x@, y@),
            Instr::Store(x, y) => InstrView::Store(x@, y@),
            Instr::Load(x, y) => InstrView::Load(x@, y@),
            Instr::Label(name) => InstrView::Label(name@),
            Instr::Goto { name, id } => InstrView::Goto { name: name@, id },
            Instr::Cond { x, op, y, name, id } => InstrView::Cond {
                x: x@,
                op,
                y: y@,
                name: name@,
                id,
            },
            Instr::Return(x) => InstrView::Return(x@),
            Instr::Dec(x, size) => InstrView::Dec(x@, size),
            Instr::Arg(x) => InstrView::Arg(x@),
            Instr::Call { x, name, id } => InstrView::Call { x: x@, name: name@, id },
            Instr::Param(x) => InstrView::Param(x@),
            Instr::Read(x) => InstrView::Read(x@),
            Instr::Write(x) => InstrView::Write(x@),
        }
    }
}

impl Clone for Instr {
    fn clone(&self) -> (copy: Instr)
        ensures
            copy == *self,
    {
        match self {
            Instr::Assign(x, y) => Instr::Assign(x.clone(), y.clone()),
            Instr::Arith(x, y, op, z) => Instr::Arith(x.clone(), y.clone(), *op, z.clone()),
            Instr::Deref(x, y) => Instr::Deref(x.clone(), y.clone()),
            Instr::Store(x, y) => Instr::Store(x.clone(), y.clone()),
            Instr::Load(x, y) => Instr::Load(x.clone(), y.clone()),
            Instr::Label(name) => Instr::Label(name.clone()),
            Instr::Goto { name, id } => Instr::Goto { name: name.clone(), id: *id },
            Instr::Cond { x, op, y, name, id } => Instr::Cond {
                x: x.clone(),
                op: *op,
                y: y.clone(),
                name: name.clone(),
                id: *id,
            },
            Instr::Return(x) => Instr::Return(x.clone()),
            Instr::Dec(x, size) => Instr::Dec(x.clone(), *size),
            Instr::Arg(x) => Instr::Arg(x.clone()),
            Instr::Call { x, name, id } => Instr::Call { x: x.clone(), name: name.clone(), id: *id },
            Instr::Param(x) => Instr::Param(x.clone()),
            Instr::Read(x) => Instr::Read(x.clone()),
            Instr::Write(x) => Instr::Write(x.clone()),
        }
    }
}

impl Instr {
    /// The jump to the label of that name, not yet resolved.
    pub fn new_goto(name: &str) -> (instr: Instr)
        ensures
            instr@ == (InstrView::Goto { name: name@, id: 0 }),
    {
        Instr::Goto { name: name.to_owned(), id: 0 }
    }
}

/// The views of a sequence of instructions.
pub open spec fn body_view(body: Seq<Instr>) -> Seq<InstrView> {
    Seq::new(body.len(), |i: int| body[i]@)
}

/// A function: its name, its instructions, and, once resolved, the number of
/// register slots it uses and its index in the program.
#[derive(Debug)]
pub struct Func {
    pub name: String,
    pub body: Vec<Instr>,
    pub nreg: usize,
    pub id: usize,
}

/// What a function stands for.
pub struct FuncView {
    pub name: Seq<char>,
    pub body: Seq<InstrView>,
    pub nreg: usize,
    pub id: usize,
}

impl View for Func {
    type V = FuncView;

    open spec fn view(&self) -> FuncView {
        FuncView { name: self.name@, body: body_view(self.body@), nreg: self.nreg, id: self.id }
    }
}

impl Clone for Func {
    fn clone(&self) -> (copy: Func)
        ensures
            copy@ == self@,
    {
        let body = self.body.clone();
        assert(body@ =~= self.body@);
        Func { name: self.name.clone(), body, nreg: self.nreg, id: self.id }
    }
}

/// The views of a sequence of functions.
pub open spec fn funcs_view(funcs: Seq<Func>) -> Seq<FuncView> {
    Seq::new(funcs.len(), |i: int| funcs[i]@)
}

/// A program: its functions in source order and, once resolved, the index of
/// the entry function.
#[derive(Debug)]
pub struct Program {
    pub funcs: VecDeque<Func>,
    pub entry: usize,
}

/// What a program stands for.
pub struct ProgramView {
    pub funcs: Seq<FuncView>,
    pub entry: usize,
}

impl View for Program {
    type V = ProgramView;

    open spec fn view(&self) -> ProgramView {
        ProgramView { funcs: funcs_view(self.funcs@), entry: self.entry }
    }
}

impl Clone for Program {
    fn clone(&self) -> (copy: Program)
        ensures
            copy@ == self@,
    {
        let mut funcs: VecDeque<Func> = VecDeque::new();
        let mut i: usize = 0;
        while i < self.funcs.len()
            invariant
                i <= self.funcs@.len(),
                funcs@.len() == i,
                funcs_view(funcs@) == funcs_view(self.funcs@).take(i as int),
            decreases self.funcs@.len() - i,
        {
            let copy = self.funcs[i].clone();
            let ghost before = funcs@;
            funcs.push_back(copy);
            assert forall|k: int| 0 <= k < funcs@.len() implies funcs_view(funcs@)[k]
                == funcs_view(self.funcs@)[k] by {
                if k < i {
                    assert(funcs@[k] == before[k]);
                    assert(funcs_view(before)[k] == funcs_view(self.funcs@).take(i as int)[k]);
                }
            }
            assert(funcs_view(funcs@) =~= funcs_view(self.funcs@).take(i as int + 1));
            i += 1;
        }
        assert(funcs_view(self.funcs@).take(i as int) =~= funcs_view(self.funcs@));
        Program { funcs, entry: self.entry }
    }
}

/// The instruction that runs next in `frame`. A frame of a function that the
/// program lacks, or past the end of its function, is a control-flow error.
pub open spec fn spec_fetch(program: ProgramView, frame: FrameView) -> Result<InstrView, Fault> {
    if frame.func < program.funcs.len() && frame.pc < program.funcs[frame.func as int].body.len() {
        Ok(program.funcs[frame.func as int].body[frame.pc as int])
    } else {
        Err(Fault::ControlFlowError)
    }
}

impl Program {
    /// Puts `func` before the functions of the program.
    pub fn push_front(&mut self, func: Func)
        ensures
            final(self)@ == (ProgramView {
                funcs: seq![func@] + old(self)@.funcs,
                entry: old(self)@.entry,
            }),
    {
        self.funcs.push_front(func);
        assert(self@.funcs =~= seq![func@] + old(self)@.funcs);
    }

    /// The program without functions.
    pub fn new() -> (program: Program)
        ensures
            program@ == (ProgramView { funcs: Seq::empty(), entry: 0 }),
    {
        let program = Program { funcs: VecDeque::new(), entry: 0 };
        assert(program@.funcs =~= Seq::<FuncView>::empty());
        program
    }

    /// The instruction that runs next in `frame`.
    pub fn fetch(&self, frame: &Frame) -> (instr: Result<Instr, Fault>)
        ensures
            match spec_fetch(self@, frame@) {
                Ok(view) => instr is Ok && instr->Ok_0@ == view,
                Err(fault) => instr is Err && instr->Err_0 == fault,
            },
            instr is Ok ==> frame@.pc < usize::MAX,
    {
        if frame.func < self.funcs.len() && frame.pc < self.funcs[frame.func].body.len() {
            Ok(self.funcs[frame.func].body[frame.pc].clone())
        } else {
            Err(Fault::ControlFlowError)
        }
    }
}

} // verus!
