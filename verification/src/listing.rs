//! The text of operands, instructions, functions and programs, as a listing
//! shows them.
use vstd::prelude::*;
use vstd::string::StringExecFns;
use crate::instr::ArithOp;
use crate::instr::Func;
use crate::instr::FuncView;
use crate::instr::Instr;
use crate::instr::InstrView;
use crate::instr::Operand;
use crate::instr::OperandView;
use crate::instr::Program;
use crate::instr::ProgramView;
use crate::instr::RelOp;
use crate::instr::body_view;
use crate::instr::funcs_view;
use crate::text::decimal;
use crate::text::decimal_string;
use crate::text::digits;
use crate::text::natural_string;

verus! {

/// An operand as text: a register as its name, `_` and its slot, an immediate
/// as its integer.
pub open spec fn operand_text(operand: OperandView) -> Seq<char> {
    match operand {
        OperandView::Reg { name, id } => name + "_"@ + digits(id as nat),
        OperandView::Imm(i) => decimal(i as int),
    }
}

/// An arithmetic operator as text.
pub open spec fn arith_text(op: ArithOp) -> Seq<char> {
    match op {
        ArithOp::Add => "+"@,
        ArithOp::Sub => "-"@,
        ArithOp::Mul => "*"@,
        ArithOp::Div => "/"@,
    }
}

/// A relational operator as text.
pub open spec fn rel_text(op: RelOp) -> Seq<char> {
    match op {
        RelOp::LT => "<"@,
        RelOp::LE => "<="@,
        RelOp::GT => ">"@,
        RelOp::GE => ">="@,
        RelOp::EQ => "=="@,
        RelOp::NE => "!="@,
    }
}

/// An instruction as text, in the syntax that the parser reads, but for the
/// slots that registers show.
pub open spec fn instr_text(instr: InstrView) -> Seq<char> {
    match instr {
        InstrView::Assign(x, y) => operand_text(x) + " := "@ + operand_text(y),
        InstrView::Arith(x, y, op, z) => operand_text(x) + " := "@ + operand_text(y) + " "@
            + arith_text(op) + " "@ + operand_text(z),
        InstrView::Deref(x, y) => operand_text(x) + " := &"@ + operand_text(y),
        InstrView::Store(x, y) => "*"@ + operand_text(x) + " := "@ + operand_text(y),
        InstrView::Load(x, y) => operand_text(x) + " := *"@ + operand_text(y),
        InstrView::Label(name) => "LABEL "@ + name + " :"@,
        InstrView::Goto { name, .. } => "GOTO "@ + name + " "@,
        InstrView::Cond { x, op, y, name, .. } => "IF "@ + operand_text(x) + " "@ + rel_text(op)
            + " "@ + operand_text(y) + " GOTO "@ + name,
        InstrView::Return(x) => "RETURN "@ + operand_text(x),
        InstrView::Dec(x, size) => "DEC "@ + operand_text(x) + " "@ + decimal(size as int),
        InstrView::Arg(x) => "ARG "@ + operand_text(x),
        InstrView::Call { x, name, .. } => operand_text(x) + " := CALL "@ + name,
        InstrView::Param(x) => "PARAM "@ + operand_text(x),
        InstrView::Read(x) => "READ "@ + operand_text(x),
        InstrView::Write(x) => "WRITE "@ + operand_text(x),
    }
}

/// A line of a function's listing: a label marker at the margin, any other
/// instruction after two spaces.
pub open spec fn line_text(instr: InstrView) -> Seq<char> {
    if instr is Label {
        instr_text(instr) + "\n"@
    } else {
        "  "@ + instr_text(instr) + "\n"@
    }
}

/// The lines of a sequence of instructions, one after the other.
pub open spec fn lines_text(body: Seq<InstrView>) -> Seq<char>
    decreases body.len(),
{
    if body.len() == 0 {
        Seq::empty()
    } else {
        lines_text(body.drop_last()) + line_text(body.last())
    }
}

/// A function as text: its header and its lines.
pub open spec fn func_text(func: FuncView) -> Seq<char> {
    "FUNCTION "@ + func.name + " :\n"@ + lines_text(func.body)
}

/// The functions of a program as text, two line feeds after each.
pub open spec fn funcs_text(funcs: Seq<FuncView>) -> Seq<char>
    decreases funcs.len(),
{
    if funcs.len() == 0 {
        Seq::empty()
    } else {
        funcs_text(funcs.drop_last()) + func_text(funcs.last()) + "\n\n"@
    }
}

impl Operand {
    /// The operand as text.
    pub fn to_string(&self) -> (text: String)
        ensures
            text@ == operand_text(self@),
    {
        match self {
            Operand::Reg { name, id } => {
                let mut text = name.clone();
                text.append("_");
                text.append(natural_string(*id as u64).as_str());
                text
            },
            Operand::Imm(i) => decimal_string(*i),
        }
    }
}

impl ArithOp {
    /// The operator as text.
    pub fn to_string(&self) -> (text: String)
        ensures
            text@ == arith_text(*self),
    {
        match self {
            ArithOp::Add => String::from_str("+"),
            ArithOp::Sub => String::from_str("-"),
            ArithOp::Mul => String::from_str("*"),
            ArithOp::Div => String::from_str("/"),
        }
    }
}

impl RelOp {
    /// The operator as text.
    pub fn to_string(&self) -> (text: String)
        ensures
            text@ == rel_text(*self),
    {
        match self {
            RelOp::LT => String::from_str("<"),
            RelOp::LE => String::from_str("<="),
            RelOp::GT => String::from_str(">"),
            RelOp::GE => String::from_str(">="),
            RelOp::EQ => String::from_str("=="),
            RelOp::NE => String::from_str("!="),
        }
    }
}

/// `head`, then the text of `x`.
fn with_operand(head: &str, x: &Operand) -> (text: String)
    ensures
        text@ == head@ + operand_text(x@),
{
    let mut text = String::from_str(head);
    text.append(x.to_string().as_str());
    text
}

/// The text of `x`, then `sign`, then the text of `y`.
fn joined(x: &Operand, sign: &str, y: &Operand) -> (text: String)
    ensures
        text@ == operand_text(x@) + sign@ + operand_text(y@),
{
    let mut text = x.to_string();
    text.append(sign);
    text.append(y.to_string().as_str());
    text
}

impl Instr {
    /// The instruction as text.
    pub fn to_string(&self) -> (text: String)
        ensures
            text@ == instr_text(self@),
    {
        match self {
            Instr::Assign(x, y) => joined(x, " := ", y),
            Instr::Arith(x, y, op, z) => {
                let mut text = joined(x, " := ", y);
                text.append(" ");
                text.append(op.to_string().as_str());
                text.append(" ");
                text.append(z.to_string().as_str());
                text
            },
            Instr::Deref(x, y) => joined(x, " := &", y),
            Instr::Store(x, y) => {
                let mut text = String::from_str("*");
                text.append(joined(x, " := ", y).as_str());
                assert(text@ =~= instr_text(self@));
                text
            },
            Instr::Load(x, y) => joined(x, " := *", y),
            Instr::Label(name) => {
                let mut text = String::from_str("LABEL ");
                text.append(name.as_str());
                text.append(" :");
                text
            },
            Instr::Goto { name, .. } => {
                let mut text = String::from_str("GOTO ");
                text.append(name.as_str());
                text.append(" ");
                text
            },
            Instr::Cond { x, op, y, name, .. } => {
                let mut text = with_operand("IF ", x);
                text.append(" ");
                text.append(op.to_string().as_str());
                text.append(" ");
                text.append(y.to_string().as_str());
                text.append(" GOTO ");
                text.append(name.as_str());
                text
            },
            Instr::Return(x) => with_operand("RETURN ", x),
            Instr::Dec(x, size) => {
                let mut text = with_operand("DEC ", x);
                text.append(" ");
                text.append(decimal_string(*size).as_str());
                text
            },
            Instr::Arg(x) => with_operand("ARG ", x),
            Instr::Call { x, name, .. } => {
                let mut text = x.to_string();
                text.append(" := CALL ");
                text.append(name.as_str());
                text
            },
            Instr::Param(x) => with_operand("PARAM ", x),
            Instr::Read(x) => with_operand("READ ", x),
            Instr::Write(x) => with_operand("WRITE ", x),
        }
    }
}

impl Func {
    /// The function as text.
    pub fn to_string(&self) -> (text: String)
        ensures
            text@ == func_text(self@),
    {
        let mut text = String::from_str("FUNCTION ");
        text.append(self.name.as_str());
        text.append(" :\n");
        let ghost head = text@;
        let ghost body = body_view(self.body@);
        let mut i: usize = 0;
        assert(body.take(0) =~= Seq::<InstrView>::empty());
        assert(head + lines_text(body.take(0)) =~= head);
        while i < self.body.len()
            invariant
                i <= self.body@.len(),
                body == body_view(self.body@),
                head == "FUNCTION "@ + self.name@ + " :\n"@,
                text@ == head + lines_text(body.take(i as int)),
            decreases self.body@.len() - i,
        {
            let instr = &self.body[i];
            let ghost before = text@;
            match instr {
                Instr::Label(_) => {},
                _ => {
                    text.append("  ");
                },
            }
            text.append(instr.to_string().as_str());
            text.append("\n");
            proof {
                assert(body.take(i as int + 1).drop_last() =~= body.take(i as int));
                assert(body.take(i as int + 1).last() == instr@);
                assert(text@ =~= before + line_text(instr@));
                assert(text@ =~= head + (lines_text(body.take(i as int)) + line_text(instr@)));
            }
            i += 1;
        }
        assert(body.take(i as int) =~= body);
        text
    }
}

impl Program {
    /// The program as text.
    pub fn to_string(&self) -> (text: String)
        ensures
            text@ == funcs_text(self@.funcs),
    {
        let mut text = String::new();
        let ghost funcs = funcs_view(self.funcs@);
        let mut i: usize = 0;
        assert(funcs.take(0) =~= Seq::<FuncView>::empty());
        while i < self.funcs.len()
            invariant
                i <= self.funcs@.len(),
                funcs == funcs_view(self.funcs@),
                text@ == funcs_text(funcs.take(i as int)),
            decreases self.funcs@.len() - i,
        {
            let func = &self.funcs[i];
            let ghost before = text@;
            text.append(func.to_string().as_str());
            text.append("\n\n");
            proof {
                assert(funcs.take(i as int + 1).drop_last() =~= funcs.take(i as int));
                assert(funcs.take(i as int + 1).last() == func@);
                assert(text@ =~= before + func_text(func@) + "\n\n"@);
            }
            i += 1;
        }
        assert(funcs.take(i as int) =~= funcs);
        text
    }
}

} // verus!
