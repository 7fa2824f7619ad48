//! The execution state: a stack of call frames and a stack of pending
//! arguments.
use vstd::prelude::*;
use crate::instr::Func;
use crate::instr::Operand;
use crate::instr::OperandView;
use crate::instr::Program;
use crate::value::Fault;
use crate::value::Value;

verus! {

/// One activation of a function: its register slots, the index of the function
/// and the index of the instruction that runs next.
#[derive(Debug)]
pub struct Frame {
    pub map: Vec<Value>,
    pub func: usize,
    pub pc: usize,
}

/// What a frame stands for.
pub struct FrameView {
    pub regs: Seq<Value>,
    pub func: usize,
    pub pc: usize,
}

impl View for Frame {
    type V = FrameView;

    open spec fn view(&self) -> FrameView {
        FrameView { regs: self.map@, func: self.func, pc: self.pc }
    }
}

/// The frame that a call of a function with `nreg` slots and index `func`
/// starts in: every slot holds the integer zero, and the first instruction
/// runs next.
pub open spec fn fresh_frame(nreg: usize, func: usize) -> FrameView {
    FrameView { regs: Seq::new(nreg as nat, |i: int| Value::ValInt(0)), func, pc: 0 }
}

impl Clone for Frame {
    fn clone(&self) -> (copy: Frame)
        ensures
            copy@ == self@,
    {
        let map = self.map.clone();
        assert(map@ =~= self.map@);
        Frame { map, func: self.func, pc: self.pc }
    }
}

impl Frame {
    /// The frame that a call of `func` starts in.
    pub fn new(func: &Func) -> (frame: Frame)
        ensures
            frame@ == fresh_frame(func.nreg, func.id),
    {
        let map = vec![Value::ValInt(0); func.nreg];
        assert(map@ =~= fresh_frame(func.nreg, func.id).regs);
        Frame { map, pc: 0, func: func.id }
    }

    /// The value in slot `id`, if the frame has such a slot.
    pub fn get(&self, id: &usize) -> (value: Option<&Value>)
        ensures
            value == if *id < self@.regs.len() {
                Some(&self@.regs[*id as int])
            } else {
                None
            },
    {
        if *id < self.map.len() {
            Some(&self.map[*id])
        } else {
            None
        }
    }

    /// Puts `value` in slot `id`. A frame without such a slot is left as it was.
    pub fn set(&mut self, id: &usize, value: &Value) -> (done: Result<(), Fault>)
        ensures
            *id < old(self)@.regs.len() ==> done is Ok && final(self)@ == (FrameView {
                regs: old(self)@.regs.update(*id as int, *value),
                ..old(self)@
            }),
            *id >= old(self)@.regs.len() ==> done == Err::<(), Fault>(Fault::ControlFlowError)
                && final(self)@ == old(self)@,
    {
        if *id < self.map.len() {
            self.map[*id] = *value;
            Ok(())
        } else {
            Err(Fault::ControlFlowError)
        }
    }
}

/// The views of a sequence of frames.
pub open spec fn frames_view(frames: Seq<Frame>) -> Seq<FrameView> {
    Seq::new(frames.len(), |i: int| frames[i]@)
}

/// The execution state: the call frames, the running one last, and the
/// arguments that were pushed and not yet taken, the latest last.
#[derive(Debug)]
pub struct Env {
    stack: Vec<Frame>,
    args: Vec<Value>,
}

/// What an execution state stands for.
pub struct EnvView {
    pub stack: Seq<FrameView>,
    pub args: Seq<Value>,
}

impl View for Env {
    type V = EnvView;

    closed spec fn view(&self) -> EnvView {
        EnvView { stack: frames_view(self.stack@), args: self.args@ }
    }
}

impl EnvView {
    /// The running frame.
    pub open spec fn top(self) -> FrameView
        recommends
            self.stack.len() > 0,
    {
        self.stack.last()
    }

    /// The state with `frame` in place of the running frame.
    pub open spec fn with_top(self, frame: FrameView) -> EnvView
        recommends
            self.stack.len() > 0,
    {
        EnvView { stack: self.stack.update(self.stack.len() - 1, frame), args: self.args }
    }
}

/// The value of `operand` in `env`: an immediate is its integer, a register what
/// its slot in the running frame holds. A register without a running frame, or
/// with a slot that the frame lacks, is a control-flow error.
pub open spec fn spec_get(env: EnvView, operand: OperandView) -> Result<Value, Fault> {
    match operand {
        OperandView::Imm(i) => Ok(Value::ValInt(i)),
        OperandView::Reg { id, .. } => if env.stack.len() > 0 && id < env.top().regs.len() {
            Ok(env.top().regs[id as int])
        } else {
            Err(Fault::ControlFlowError)
        },
    }
}

/// `env` after `value` was written to `operand`: the slot of a register in the
/// running frame holds it, and nothing else has changed. A register without a
/// running frame, or with a slot that the frame lacks, is a control-flow error.
/// A write to an immediate changes nothing.
pub open spec fn spec_set(env: EnvView, operand: OperandView, value: Value) -> Result<
    EnvView,
    Fault,
> {
    match operand {
        OperandView::Imm(_) => Ok(env),
        OperandView::Reg { id, .. } => if env.stack.len() > 0 && id < env.top().regs.len() {
            Ok(env.with_top(FrameView { regs: env.top().regs.update(id as int, value), ..env.top() }))
        } else {
            Err(Fault::ControlFlowError)
        },
    }
}

/// `env` with `pc` as the program counter of the running frame.
pub open spec fn spec_pc_set(env: EnvView, pc: usize) -> EnvView
    recommends
        env.stack.len() > 0,
{
    env.with_top(FrameView { pc, ..env.top() })
}

/// The state in which the program `program` starts: one frame, of the entry
/// function, and no pending argument.
pub open spec fn initial_env(program: crate::instr::ProgramView) -> EnvView
    recommends
        program.entry < program.funcs.len(),
{
    let entry = program.funcs[program.entry as int];
    EnvView { stack: seq![fresh_frame(entry.nreg, entry.id)], args: Seq::empty() }
}

impl Env {
    /// The state in which `program` starts. A program whose entry is no index of
    /// a function of it is a control-flow error.
    pub fn new(program: &Program) -> (env: Result<Env, Fault>)
        ensures
            match env {
                Ok(env) => program@.entry < program@.funcs.len() && env@ == initial_env(program@),
                Err(fault) => program@.entry >= program@.funcs.len() && fault
                    == Fault::ControlFlowError,
            },
    {
        if program.entry < program.funcs.len() {
            let mut stack: Vec<Frame> = Vec::new();
            stack.push(Frame::new(&program.funcs[program.entry]));
            let env = Env { stack, args: Vec::new() };
            assert(env@.stack =~= initial_env(program@).stack);
            Ok(env)
        } else {
            Err(Fault::ControlFlowError)
        }
    }

    /// The running frame, if there is one.
    pub fn top_frame(&self) -> (frame: Option<&Frame>)
        ensures
            match frame {
                Some(top) => self@.stack.len() > 0 && top@ == self@.top(),
                None => self@.stack.len() == 0,
            },
    {
        let n = self.stack.len();
        if n > 0 {
            Some(&self.stack[n - 1])
        } else {
            None
        }
    }

    /// The frame that called the running one, if there is one.
    pub fn caller_frame(&self) -> (frame: Option<&Frame>)
        ensures
            match frame {
                Some(caller) => self@.stack.len() > 1 && caller@ == self@.stack[self@.stack.len()
                    - 2],
                None => self@.stack.len() <= 1,
            },
    {
        let n = self.stack.len();
        if n > 1 {
            Some(&self.stack[n - 2])
        } else {
            None
        }
    }

    /// The running frame, to change it, if there is one.
    pub fn top_frame_mut(&mut self) -> (frame: Option<&mut Frame>)
        ensures
            match frame {
                Some(top) => old(self)@.stack.len() > 0 && top@ == old(self)@.top()
                    && final(self)@ == old(self)@.with_top(final(top)@),
                None => old(self)@.stack.len() == 0 && final(self)@ == old(self)@,
            },
    {
        let n = self.stack.len();
        if n > 0 {
            proof {
                let frames = self.stack@;
                assert forall|frame: Frame| #[trigger]
                    frames_view(frames.update(n - 1, frame)) == frames_view(frames).update(
                        n - 1,
                        frame@,
                    ) by {
                    assert(frames_view(frames.update(n - 1, frame)) =~= frames_view(
                        frames,
                    ).update(n - 1, frame@));
                }
            }
            Some(&mut self.stack[n - 1])
        } else {
            None
        }
    }
}

impl Env {
    /// The program counter of the running frame, and one more: the index of the
    /// instruction after the one that runs next. Without a running frame, or
    /// where that index does not fit, a control-flow error.
    pub fn pc_next(&self) -> (next: Result<usize, Fault>)
        ensures
            next == if self@.stack.len() > 0 && self@.top().pc < usize::MAX {
                Ok::<usize, Fault>((self@.top().pc + 1) as usize)
            } else {
                Err(Fault::ControlFlowError)
            },
    {
        match self.top_frame() {
            Some(frame) => if frame.pc < usize::MAX {
                Ok(frame.pc + 1)
            } else {
                Err(Fault::ControlFlowError)
            },
            None => Err(Fault::ControlFlowError),
        }
    }

    /// Sets the program counter of the running frame. Without a running frame, a
    /// control-flow error.
    pub fn pc_set(&mut self, pc: usize) -> (done: Result<(), Fault>)
        ensures
            old(self)@.stack.len() > 0 ==> done is Ok && final(self)@ == spec_pc_set(
                old(self)@,
                pc,
            ),
            old(self)@.stack.len() == 0 ==> done == Err::<(), Fault>(Fault::ControlFlowError)
                && final(self)@ == old(self)@,
    {
        match self.top_frame_mut() {
            Some(frame) => {
                frame.pc = pc;
                Ok(())
            },
            None => Err(Fault::ControlFlowError),
        }
    }

    /// The program counter of the running frame. Without a running frame, a
    /// control-flow error.
    pub fn pc(&self) -> (pc: Result<usize, Fault>)
        ensures
            pc == if self@.stack.len() > 0 {
                Ok::<usize, Fault>(self@.top().pc)
            } else {
                Err(Fault::ControlFlowError)
            },
    {
        match self.top_frame() {
            Some(frame) => Ok(frame.pc),
            None => Err(Fault::ControlFlowError),
        }
    }

    /// The value of `operand`.
    pub fn get(&self, operand: &Operand) -> (value: Result<Value, Fault>)
        ensures
            value == spec_get(self@, operand@),
    {
        match operand {
            Operand::Imm(i) => Ok(Value::new_int(*i)),
            Operand::Reg { id, .. } => match self.top_frame() {
                Some(frame) => match frame.get(id) {
                    Some(value) => Ok(*value),
                    None => Err(Fault::ControlFlowError),
                },
                None => Err(Fault::ControlFlowError),
            },
        }
    }

    /// Writes `value` to `operand`. On a fault the state is left as it was.
    pub fn set(&mut self, operand: Operand, value: Value) -> (done: Result<(), Fault>)
        ensures
            match spec_set(old(self)@, operand@, value) {
                Ok(env) => done is Ok && final(self)@ == env,
                Err(fault) => done == Err::<(), Fault>(fault) && final(self)@ == old(self)@,
            },
    {
        proof {
            let env = self@;
            if env.stack.len() > 0 {
                assert(env.stack.update(env.stack.len() - 1, env.top()) =~= env.stack);
            }
        }
        match operand {
            Operand::Reg { id, .. } => match self.top_frame_mut() {
                Some(frame) => frame.set(&id, &value),
                None => Err(Fault::ControlFlowError),
            },
            Operand::Imm(_) => Ok(()),
        }
    }

    /// Pushes an argument for the next call.
    pub fn push_arg(&mut self, value: Value)
        ensures
            final(self)@ == (EnvView { args: old(self)@.args.push(value), ..old(self)@ }),
    {
        self.args.push(value)
    }

    /// Takes the argument that was pushed last. Where none is pending, an
    /// argument-stack error.
    pub fn pop_arg(&mut self) -> (value: Result<Value, Fault>)
        ensures
            old(self)@.args.len() > 0 ==> value == Ok::<Value, Fault>(old(self)@.args.last())
                && final(self)@ == (EnvView { args: old(self)@.args.drop_last(), ..old(self)@ }),
            old(self)@.args.len() == 0 ==> value == Err::<Value, Fault>(
                Fault::ArgumentStackError,
            ) && final(self)@ == old(self)@,
    {
        match self.args.pop() {
            Some(value) => Ok(value),
            None => Err(Fault::ArgumentStackError),
        }
    }

    /// Enters `func`: its fresh frame becomes the running one.
    pub fn push_frame(&mut self, func: &Func)
        ensures
            final(self)@ == (EnvView {
                stack: old(self)@.stack.push(fresh_frame(func.nreg, func.id)),
                ..old(self)@
            }),
    {
        self.stack.push(Frame::new(func));
        assert(self@.stack =~= old(self)@.stack.push(fresh_frame(func.nreg, func.id)));
    }

    /// Leaves the running frame. Without a running frame, a control-flow error.
    pub fn pop_frame(&mut self) -> (done: Result<(), Fault>)
        ensures
            old(self)@.stack.len() > 0 ==> done is Ok && final(self)@ == (EnvView {
                stack: old(self)@.stack.drop_last(),
                ..old(self)@
            }),
            old(self)@.stack.len() == 0 ==> done == Err::<(), Fault>(Fault::ControlFlowError)
                && final(self)@ == old(self)@,
    {
        match self.stack.pop() {
            Some(_) => {
                assert(self@.stack =~= old(self)@.stack.drop_last());
                Ok(())
            },
            None => Err(Fault::ControlFlowError),
        }
    }
}

} // verus!
