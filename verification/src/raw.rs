//! What resolution depends on: the raw form of a program, in which no name
//! is resolved, and the law that the resolved form is a function of it.
use vstd::prelude::*;
use crate::instr::FuncView;
use crate::instr::InstrView;
use crate::instr::OperandView;
use crate::instr::ProgramView;
use crate::resolve::bind_body;
use crate::resolve::bind_instr;
use crate::resolve::bind_operand;
use crate::resolve::calls_linkable;
use crate::resolve::func_names;
use crate::resolve::funcs_resolvable;
use crate::resolve::jumps_linkable;
use crate::resolve::last_index;
use crate::resolve::link_call;
use crate::resolve::link_calls;
use crate::resolve::link_jump;
use crate::resolve::link_jumps;
use crate::resolve::resolve_func;
use crate::resolve::resolve_func_in;
use crate::resolve::resolve_program;
use crate::value::Fault;

verus! {

/// An operand as the program text gives it: a register without its slot.
pub open spec fn raw_operand(operand: OperandView) -> OperandView {
    match operand {
        OperandView::Reg { name, id } => OperandView::Reg { name, id: 0 },
        OperandView::Imm(_) => operand,
    }
}

/// `instr` with its operands as the program text gives them, with `jump` as
/// the target of its jump and `call` as the target of its call.
pub open spec fn with_targets(instr: InstrView, jump: usize, call: usize) -> InstrView {
    match instr {
        InstrView::Assign(x, y) => InstrView::Assign(raw_operand(x), raw_operand(y)),
        InstrView::Arith(x, y, op, z) => InstrView::Arith(
            raw_operand(x),
            raw_operand(y),
            op,
            raw_operand(z),
        ),
        InstrView::Deref(x, y) => InstrView::Deref(raw_operand(x), raw_operand(y)),
        InstrView::Store(x, y) => InstrView::Store(raw_operand(x), raw_operand(y)),
        InstrView::Load(x, y) => InstrView::Load(raw_operand(x), raw_operand(y)),
        InstrView::Label(name) => instr,
        InstrView::Goto { name, id } => InstrView::Goto { name, id: jump },
        InstrView::Cond { x, op, y, name, id } => InstrView::Cond {
            x: raw_operand(x),
            op,
            y: raw_operand(y),
            name,
            id: jump,
        },
        InstrView::Return(x) => InstrView::Return(raw_operand(x)),
        InstrView::Dec(x, size) => InstrView::Dec(raw_operand(x), size),
        InstrView::Arg(x) => InstrView::Arg(raw_operand(x)),
        InstrView::Call { x, name, id } => InstrView::Call { x: raw_operand(x), name, id: call },
        InstrView::Param(x) => InstrView::Param(raw_operand(x)),
        InstrView::Read(x) => InstrView::Read(raw_operand(x)),
        InstrView::Write(x) => InstrView::Write(raw_operand(x)),
    }
}

/// The target of the jump that `instr` is, if it is one.
pub open spec fn jump_target(instr: InstrView) -> usize {
    match instr {
        InstrView::Goto { id, .. } => id,
        InstrView::Cond { id, .. } => id,
        _ => 0,
    }
}

/// An instruction as the program text gives it: no register has a slot, no
/// jump and no call a target.
pub open spec fn raw_instr(instr: InstrView) -> InstrView {
    with_targets(instr, 0, 0)
}

/// An instruction with its operands and its call as the program text gives
/// them, and the target of its jump as it is.
pub open spec fn unbound(instr: InstrView) -> InstrView {
    with_targets(instr, jump_target(instr), 0)
}

/// An instruction with its call as the program text gives it, and the rest as
/// it is.
pub open spec fn uncalled(instr: InstrView) -> InstrView {
    match instr {
        InstrView::Call { x, name, id } => InstrView::Call { x, name, id: 0 },
        _ => instr,
    }
}

/// Instructions as the program text gives them.
pub open spec fn raw_body(body: Seq<InstrView>) -> Seq<InstrView> {
    Seq::new(body.len(), |i: int| raw_instr(body[i]))
}

/// A function as the program text gives it.
pub open spec fn raw_func(func: FuncView) -> FuncView {
    FuncView { name: func.name, body: raw_body(func.body), nreg: 0, id: 0 }
}

/// A program as the program text gives it: the names and the order of its
/// functions, instructions and operands, and nothing that resolution fills in.
pub open spec fn raw_program(program: ProgramView) -> ProgramView {
    ProgramView {
        funcs: Seq::new(program.funcs.len(), |i: int| raw_func(program.funcs[i])),
        entry: 0,
    }
}

/// A label is found in the raw form of a body where it is found in the body.
proof fn lemma_raw_labels(body: Seq<InstrView>, name: Seq<char>)
    ensures
        last_index(raw_body(body), InstrView::Label(name)) == last_index(
            body,
            InstrView::Label(name),
        ),
    decreases body.len(),
{
    if body.len() > 0 {
        assert(raw_body(body).drop_last() =~= raw_body(body.drop_last()));
        lemma_raw_labels(body.drop_last(), name);
    }
}

/// To link the jumps of the raw form of a body is to link the jumps of the
/// body, but for what binding and the linking of calls fill in.
proof fn lemma_raw_jumps(body: Seq<InstrView>)
    ensures
        jumps_linkable(raw_body(body)) == jumps_linkable(body),
        jumps_linkable(body) ==> link_jumps(raw_body(body)) == Seq::new(
            body.len(),
            |i: int| unbound(link_jumps(body)[i]),
        ),
{
    let raw = raw_body(body);
    assert forall|i: int| 0 <= i < body.len() implies match #[trigger] link_jump(body, body[i]) {
        Ok(linked) => link_jump(raw, raw[i]) == Ok::<InstrView, Fault>(unbound(linked)),
        Err(_) => link_jump(raw, raw[i]) is Err,
    } by {
        match body[i] {
            InstrView::Goto { name, .. } => {
                lemma_raw_labels(body, name);
            },
            InstrView::Cond { name, .. } => {
                lemma_raw_labels(body, name);
            },
            _ => {},
        }
    }
    if jumps_linkable(body) {
        assert forall|i: int| 0 <= i < raw.len() implies (#[trigger] link_jump(raw, raw[i]))
            is Ok by {
            assert(link_jump(body, body[i]) is Ok);
        }
        assert forall|i: int| 0 <= i < body.len() implies (#[trigger] link_jumps(raw)[i])
            == unbound(link_jumps(body)[i]) by {
            assert(link_jump(body, body[i]) is Ok);
        }
        assert(link_jumps(raw) =~= Seq::new(body.len(), |i: int| unbound(link_jumps(body)[i])));
    }
    if jumps_linkable(raw) {
        assert forall|i: int| 0 <= i < body.len() implies (#[trigger] link_jump(body, body[i]))
            is Ok by {
            assert(link_jump(raw, raw[i]) is Ok);
        }
    }
}

/// To bind an instruction whose operands have no slots is to bind the
/// instruction, but for what the linking of calls fills in.
proof fn lemma_raw_bind_instr(names: Seq<Seq<char>>, instr: InstrView)
    ensures
        bind_instr(names, unbound(instr)).0 == bind_instr(names, instr).0,
        bind_instr(names, unbound(instr)).1 == uncalled(bind_instr(names, instr).1),
{
}

/// To bind a body whose operands have no slots is to bind the body, but for
/// what the linking of calls fills in.
proof fn lemma_raw_bind_body(body: Seq<InstrView>)
    ensures
        bind_body(Seq::new(body.len(), |i: int| unbound(body[i]))).0 == bind_body(body).0,
        bind_body(Seq::new(body.len(), |i: int| unbound(body[i]))).1 == Seq::new(
            body.len(),
            |i: int| uncalled(bind_body(body).1[i]),
        ),
        bind_body(body).1.len() == body.len(),
    decreases body.len(),
{
    let stripped = Seq::new(body.len(), |i: int| unbound(body[i]));
    if body.len() > 0 {
        let front = body.drop_last();
        assert(stripped.drop_last() =~= Seq::new(front.len(), |i: int| unbound(front[i])));
        lemma_raw_bind_body(front);
        lemma_raw_bind_instr(bind_body(front).0, body.last());
        assert(bind_body(stripped).1 =~= Seq::new(
            body.len(),
            |i: int| uncalled(bind_body(body).1[i]),
        ));
    } else {
        assert(bind_body(stripped).1 =~= Seq::new(
            body.len(),
            |i: int| uncalled(bind_body(body).1[i]),
        ));
    }
}

/// To link the calls of a body whose calls have no targets is to link the
/// calls of the body.
proof fn lemma_raw_calls(names: Seq<Seq<char>>, body: Seq<InstrView>)
    ensures
        calls_linkable(names, Seq::new(body.len(), |i: int| uncalled(body[i])))
            == calls_linkable(names, body),
        calls_linkable(names, body) ==> link_calls(
            names,
            Seq::new(body.len(), |i: int| uncalled(body[i])),
        ) == link_calls(names, body),
{
    let bare = Seq::new(body.len(), |i: int| uncalled(body[i]));
    assert forall|i: int| 0 <= i < body.len() implies #[trigger] link_call(names, bare[i])
        == link_call(names, body[i]) by {}
    if calls_linkable(names, body) {
        assert forall|i: int| 0 <= i < body.len() implies (#[trigger] link_calls(names, bare)[i])
            == link_calls(names, body)[i] by {
            assert(link_call(names, body[i]) is Ok);
        }
        assert(link_calls(names, bare) =~= link_calls(names, body));
        assert forall|i: int| 0 <= i < bare.len() implies (#[trigger] link_call(names, bare[i]))
            is Ok by {
            assert(link_call(names, body[i]) is Ok);
        }
    }
    if calls_linkable(names, bare) {
        assert forall|i: int| 0 <= i < body.len() implies (#[trigger] link_call(names, body[i]))
            is Ok by {
            assert(link_call(names, bare[i]) is Ok);
        }
    }
}

/// A function resolves as its raw form does.
proof fn lemma_raw_func(names: Seq<Seq<char>>, index: int, func: FuncView)
    ensures
        resolve_func_in(names, index, raw_func(func)) == resolve_func_in(names, index, func),
{
    lemma_raw_jumps(func.body);
    if jumps_linkable(func.body) {
        let linked = link_jumps(func.body);
        lemma_raw_bind_body(linked);
        lemma_raw_calls(names, bind_body(linked).1);
    }
}

/// A program resolves as its raw form does: what the slots, targets, counts,
/// ids and entry of a program hold before resolution has no bearing on what
/// they hold after it.
pub proof fn lemma_resolution_ignores_stale_numbers(program: ProgramView)
    ensures
        resolve_program(raw_program(program)) == resolve_program(program),
{
    let raw = raw_program(program);
    let names = func_names(program.funcs);
    assert(func_names(raw.funcs) =~= names);
    assert forall|i: int| 0 <= i < program.funcs.len() implies #[trigger] resolve_func_in(
        names,
        i,
        raw.funcs[i],
    ) == resolve_func_in(names, i, program.funcs[i]) by {
        lemma_raw_func(names, i, program.funcs[i]);
    }
    if funcs_resolvable(program.funcs) {
        assert forall|i: int| 0 <= i < raw.funcs.len() implies (#[trigger] resolve_func_in(
            func_names(raw.funcs),
            i,
            raw.funcs[i],
        )) is Ok by {
            assert(resolve_func_in(names, i, program.funcs[i]) is Ok);
        }
    }
    if funcs_resolvable(raw.funcs) {
        assert forall|i: int| 0 <= i < program.funcs.len() implies (#[trigger] resolve_func_in(
            names,
            i,
            program.funcs[i],
        )) is Ok by {
            assert(resolve_func_in(names, i, raw.funcs[i]) is Ok);
        }
    }
    if resolve_program(program) is Ok {
        assert(resolve_program(raw)->Ok_0.funcs =~= resolve_program(program)->Ok_0.funcs);
    }
}

/// Resolution is determined by the program text: two programs with the same
/// functions, instructions and operands by name and in the same order resolve
/// to the same slots, jump targets, call targets and entry, or fail alike.
pub proof fn lemma_resolution_deterministic(a: ProgramView, b: ProgramView)
    requires
        raw_program(a) == raw_program(b),
    ensures
        resolve_program(a) == resolve_program(b),
{
    lemma_resolution_ignores_stale_numbers(a);
    lemma_resolution_ignores_stale_numbers(b);
}

/// To resolve a resolved program again changes nothing.
pub proof fn lemma_resolution_idempotent(program: ProgramView)
    requires
        resolve_program(program) is Ok,
    ensures
        resolve_program(resolve_program(program)->Ok_0) == resolve_program(program),
{
    let resolved = resolve_program(program)->Ok_0;
    lemma_resolution_keeps_raw(program);
    lemma_resolution_deterministic(resolved, program);
}

/// Resolution changes nothing of the raw form of a program.
pub proof fn lemma_resolution_keeps_raw(program: ProgramView)
    requires
        resolve_program(program) is Ok,
    ensures
        raw_program(resolve_program(program)->Ok_0) == raw_program(program),
{
    let resolved = resolve_program(program)->Ok_0;
    let names = func_names(program.funcs);
    assert forall|i: int| 0 <= i < program.funcs.len() implies raw_func(resolved.funcs[i])
        == raw_func(program.funcs[i]) by {
        let func = program.funcs[i];
        assert(resolve_func_in(names, i, func) is Ok);
        let linked = link_jumps(func.body);
        lemma_bind_keeps_raw(linked);
        let bound = bind_body(linked).1;
        let body = link_calls(names, bound);
        assert(resolved.funcs[i].body == body);
        assert forall|k: int| 0 <= k < func.body.len() implies raw_instr(body[k]) == raw_instr(
            func.body[k],
        ) by {
            assert(raw_instr(bound[k]) == raw_instr(linked[k]));
        }
        assert(raw_body(body) =~= raw_body(func.body));
    }
    assert(raw_program(resolved).funcs =~= raw_program(program).funcs);
}

/// Binding changes nothing of the raw form of a body.
proof fn lemma_bind_keeps_raw(body: Seq<InstrView>)
    ensures
        bind_body(body).1.len() == body.len(),
        forall|k: int|
            0 <= k < body.len() ==> raw_instr(#[trigger] bind_body(body).1[k]) == raw_instr(
                body[k],
            ),
    decreases body.len(),
{
    if body.len() > 0 {
        lemma_bind_keeps_raw(body.drop_last());
    }
}

} // verus!
