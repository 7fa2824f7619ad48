//! What binding guarantees: within a function, a slot stands for one name
//! and a name for one slot.
use vstd::prelude::*;
use crate::instr::InstrView;
use crate::instr::OperandView;
use crate::resolve::bind_body;
use crate::resolve::bind_instr;
use crate::resolve::bind_name;
use crate::resolve::bind_operand;
use crate::resolve::bind_two;
use crate::resolve::last_index;
use crate::resolve::lemma_last_index;

verus! {

/// The operands of an instruction, in the order in which they are written.
pub open spec fn operands(instr: InstrView) -> Seq<OperandView> {
    match instr {
        InstrView::Assign(x, y) => seq![x, y],
        InstrView::Arith(x, y, _, z) => seq![x, y, z],
        InstrView::Deref(x, y) => seq![x, y],
        InstrView::Store(x, y) => seq![x, y],
        InstrView::Load(x, y) => seq![x, y],
        InstrView::Cond { x, y, .. } => seq![x, y],
        InstrView::Return(x) => seq![x],
        InstrView::Dec(x, _) => seq![x],
        InstrView::Arg(x) => seq![x],
        InstrView::Call { x, .. } => seq![x],
        InstrView::Param(x) => seq![x],
        InstrView::Read(x) => seq![x],
        InstrView::Write(x) => seq![x],
        InstrView::Label(_) => Seq::empty(),
        InstrView::Goto { .. } => Seq::empty(),
    }
}

/// Whether `operand`, if it is a register, has the slot at which `names` holds
/// its name.
pub open spec fn bound_in(names: Seq<Seq<char>>, operand: OperandView) -> bool {
    operand matches OperandView::Reg { name, id } ==> id < names.len() && names[id as int]
        == name
}

/// Whether `names` goes on as `longer` does: `longer` holds the names of
/// `names` at their indices.
pub open spec fn extends(longer: Seq<Seq<char>>, names: Seq<Seq<char>>) -> bool {
    names.len() <= longer.len() && forall|k: int|
        0 <= k < names.len() ==> longer[k] == names[k]
}

/// To bind a name keeps the names that are bound at their slots and binds no
/// name twice, and the name then has a slot.
proof fn lemma_bind_name(names: Seq<Seq<char>>, name: Seq<char>)
    requires
        names.no_duplicates(),
    ensures
        bind_name(names, name).no_duplicates(),
        extends(bind_name(names, name), names),
        bind_name(names, name).len() <= names.len() + 1,
        last_index(bind_name(names, name), name) matches Some(k) && 0 <= k < bind_name(
            names,
            name,
        ).len() && bind_name(names, name)[k] == name,
{
    lemma_last_index(names, name);
    lemma_last_index(bind_name(names, name), name);
}

/// To bind an operand keeps the names that are bound at their slots and binds
/// no name twice, and the operand then has the slot of its name.
proof fn lemma_bind_operand(names: Seq<Seq<char>>, operand: OperandView)
    requires
        names.no_duplicates(),
        names.len() < usize::MAX,
    ensures
        bind_operand(names, operand).0.no_duplicates(),
        extends(bind_operand(names, operand).0, names),
        bind_operand(names, operand).0.len() <= names.len() + 1,
        bound_in(bind_operand(names, operand).0, bind_operand(names, operand).1),
{
    if let OperandView::Reg { name, .. } = operand {
        lemma_bind_name(names, name);
    }
}

/// To bind two operands one after the other keeps the names that are bound
/// at their slots and binds no name twice, and both operands then have the
/// slots of their names.
proof fn lemma_bind_two(names: Seq<Seq<char>>, x: OperandView, y: OperandView)
    requires
        names.no_duplicates(),
        names.len() + 2 <= usize::MAX,
    ensures
        bind_two(names, x, y).0.no_duplicates(),
        extends(bind_two(names, x, y).0, names),
        bind_two(names, x, y).0.len() <= names.len() + 2,
        bound_in(bind_two(names, x, y).0, bind_two(names, x, y).1),
        bound_in(bind_two(names, x, y).0, bind_two(names, x, y).2),
{
    lemma_bind_operand(names, x);
    lemma_bind_operand(bind_operand(names, x).0, y);
}

/// To bind an instruction keeps the names that are bound at their slots and
/// binds no name twice, and every operand of the instruction then has the slot
/// of its name.
proof fn lemma_bind_instr(names: Seq<Seq<char>>, instr: InstrView)
    requires
        names.no_duplicates(),
        names.len() + 3 <= usize::MAX,
    ensures
        bind_instr(names, instr).0.no_duplicates(),
        extends(bind_instr(names, instr).0, names),
        bind_instr(names, instr).0.len() <= names.len() + 3,
        forall|a: int|
            0 <= a < operands(bind_instr(names, instr).1).len() ==> bound_in(
                bind_instr(names, instr).0,
                #[trigger] operands(bind_instr(names, instr).1)[a],
            ),
{
    match instr {
        InstrView::Assign(x, y) => {
            lemma_bind_two(names, x, y);
        },
        InstrView::Arith(x, y, _, z) => {
            lemma_bind_two(names, x, y);
            lemma_bind_operand(bind_two(names, x, y).0, z);
        },
        InstrView::Deref(x, y) => {
            lemma_bind_two(names, x, y);
        },
        InstrView::Store(x, y) => {
            lemma_bind_two(names, x, y);
        },
        InstrView::Load(x, y) => {
            lemma_bind_two(names, x, y);
        },
        InstrView::Cond { x, y, .. } => {
            lemma_bind_two(names, x, y);
        },
        InstrView::Return(x) => {
            lemma_bind_operand(names, x);
        },
        InstrView::Dec(x, _) => {
            lemma_bind_operand(names, x);
        },
        InstrView::Arg(x) => {
            lemma_bind_operand(names, x);
        },
        InstrView::Call { x, .. } => {
            lemma_bind_operand(names, x);
        },
        InstrView::Param(x) => {
            lemma_bind_operand(names, x);
        },
        InstrView::Read(x) => {
            lemma_bind_operand(names, x);
        },
        InstrView::Write(x) => {
            lemma_bind_operand(names, x);
        },
        InstrView::Label(_) => {},
        InstrView::Goto { .. } => {},
    }
}

/// To bind an operand binds no more than one name.
proof fn lemma_bind_operand_len(names: Seq<Seq<char>>, operand: OperandView)
    ensures
        names.len() <= bind_operand(names, operand).0.len() <= names.len() + 1,
{
}

/// To bind an instruction binds no more than three names.
proof fn lemma_bind_instr_len(names: Seq<Seq<char>>, instr: InstrView)
    ensures
        bind_instr(names, instr).0.len() <= names.len() + 3,
{
    match instr {
        InstrView::Assign(x, y) | InstrView::Deref(x, y) | InstrView::Store(x, y)
        | InstrView::Load(x, y) | InstrView::Cond { x, y, .. } => {
            lemma_bind_operand_len(names, x);
            lemma_bind_operand_len(bind_operand(names, x).0, y);
        },
        InstrView::Arith(x, y, _, z) => {
            lemma_bind_operand_len(names, x);
            lemma_bind_operand_len(bind_operand(names, x).0, y);
            lemma_bind_operand_len(bind_two(names, x, y).0, z);
        },
        InstrView::Return(x) | InstrView::Dec(x, _) | InstrView::Arg(x) | InstrView::Call {
            x,
            ..
        } | InstrView::Param(x) | InstrView::Read(x) | InstrView::Write(x) => {
            lemma_bind_operand_len(names, x);
        },
        InstrView::Label(_) => {},
        InstrView::Goto { .. } => {},
    }
}

/// The names that binding a body binds are no more than three for each of
/// its instructions.
pub proof fn lemma_bind_body_len(body: Seq<InstrView>)
    ensures
        bind_body(body).0.len() <= 3 * body.len(),
        bind_body(body).1.len() == body.len(),
    decreases body.len(),
{
    if body.len() > 0 {
        lemma_bind_body_len(body.drop_last());
        let names = bind_body(body.drop_last()).0;
        lemma_bind_instr_len(names, body.last());
    }
}

/// After a body was bound, no name is bound twice, and every operand of the
/// bound body has the slot of its name.
proof fn lemma_bind_body(body: Seq<InstrView>)
    requires
        3 * body.len() <= usize::MAX,
    ensures
        bind_body(body).0.no_duplicates(),
        bind_body(body).1.len() == body.len(),
        forall|i: int, a: int|
            0 <= i < body.len() && 0 <= a < operands(bind_body(body).1[i]).len() ==> bound_in(
                bind_body(body).0,
                #[trigger] operands(bind_body(body).1[i])[a],
            ),
    decreases body.len(),
{
    if body.len() > 0 {
        let front = body.drop_last();
        lemma_bind_body(front);
        lemma_bind_body_len(front);
        let names = bind_body(front).0;
        lemma_bind_instr(names, body.last());
        let last = bind_instr(names, body.last());
        assert forall|i: int, a: int|
            0 <= i < body.len() && 0 <= a < operands(bind_body(body).1[i]).len() implies bound_in(
            bind_body(body).0,
            #[trigger] operands(bind_body(body).1[i])[a],
        ) by {
            if i < body.len() - 1 {
                assert(bind_body(body).1[i] == bind_body(front).1[i]);
                assert(bound_in(names, operands(bind_body(front).1[i])[a]));
            }
        }
    }
}

/// Within a bound body a slot stands for one name and a name for one slot:
/// two registers have the same slot where they have the same name, and nowhere
/// else; and every slot is below the number of names that were bound. This
/// holds of every body that is short enough for its slots to be counted, that
/// is, whose length taken three times fits a `usize`.
pub proof fn lemma_slots_name_registers(body: Seq<InstrView>, i: int, a: int, j: int, b: int)
    requires
        3 * body.len() <= usize::MAX,
        0 <= i < body.len(),
        0 <= j < body.len(),
        0 <= a < operands(bind_body(body).1[i]).len(),
        0 <= b < operands(bind_body(body).1[j]).len(),
        operands(bind_body(body).1[i])[a] is Reg,
        operands(bind_body(body).1[j])[b] is Reg,
    ensures
        ({
            let x = operands(bind_body(body).1[i])[a];
            let y = operands(bind_body(body).1[j])[b];
            &&& (x->id == y->id) == (x->name == y->name)
            &&& x->id < bind_body(body).0.len()
        }),
{
    lemma_bind_body(body);
    let x = operands(bind_body(body).1[i])[a];
    let y = operands(bind_body(body).1[j])[b];
    assert(bound_in(bind_body(body).0, x));
    assert(bound_in(bind_body(body).0, y));
}

} // verus!
