//! Resolution: label names to instruction indices, register names to slots,
//! callee names to function indices, and the entry function.
use vstd::prelude::*;
use std::collections::VecDeque;
use crate::instr::Func;
use crate::instr::FuncView;
use crate::instr::Instr;
use crate::instr::InstrView;
use crate::instr::Operand;
use crate::instr::OperandView;
use crate::instr::Program;
use crate::instr::ProgramView;
use crate::instr::body_view;
use crate::instr::funcs_view;
use crate::value::Fault;

verus! {

/// The index of the last occurrence of `x` in `s`.
pub open spec fn last_index<T>(s: Seq<T>, x: T) -> Option<int>
    decreases s.len(),
{
    if s.len() == 0 {
        None
    } else if s.last() == x {
        Some(s.len() - 1)
    } else {
        last_index(s.drop_last(), x)
    }
}

/// `last_index` finds an occurrence after which there is no other, and finds
/// none only where there is none.
pub proof fn lemma_last_index<T>(s: Seq<T>, x: T)
    ensures
        match last_index(s, x) {
            Some(k) => 0 <= k < s.len() && s[k] == x && forall|j: int|
                k < j < s.len() ==> s[j] != x,
            None => forall|j: int| 0 <= j < s.len() ==> s[j] != x,
        },
    decreases s.len(),
{
    if s.len() != 0 && s.last() != x {
        lemma_last_index(s.drop_last(), x);
        assert forall|j: int| 0 <= j < s.len() - 1 implies s[j] == s.drop_last()[j] by {}
    }
}

/// The names that are bound to slots, each at the index of its slot.
pub struct Binding {
    map: Vec<String>,
}

/// The views of a sequence of names.
pub open spec fn names_view(names: Seq<String>) -> Seq<Seq<char>> {
    Seq::new(names.len(), |i: int| names[i]@)
}

impl View for Binding {
    type V = Seq<Seq<char>>;

    closed spec fn view(&self) -> Seq<Seq<char>> {
        names_view(self.map@)
    }
}

/// The names bound after `name` has been asked for: it takes the next free slot
/// unless it has one.
pub open spec fn bind_name(names: Seq<Seq<char>>, name: Seq<char>) -> Seq<Seq<char>> {
    if last_index(names, name) is Some {
        names
    } else {
        names.push(name)
    }
}

impl Binding {
    /// No name is bound.
    pub fn new() -> (binding: Binding)
        ensures
            binding@ == Seq::<Seq<char>>::empty(),
    {
        let binding = Binding { map: Vec::new() };
        assert(binding@ =~= Seq::<Seq<char>>::empty());
        binding
    }

    /// The number of slots given out.
    pub fn len(&self) -> (n: usize)
        ensures
            n == self@.len(),
    {
        self.map.len()
    }

    /// Binds `name` to the next free slot, unless it is bound.
    pub fn insert(&mut self, name: &String)
        ensures
            final(self)@ == bind_name(old(self)@, name@),
    {
        if self.get(name).is_none() {
            let ghost before = self.map@;
            self.map.push(name.clone());
            assert(names_view(self.map@) =~= names_view(before).push(name@));
        }
    }

    /// The slot of `name`, if it is bound.
    pub fn get(&self, name: &String) -> (slot: Option<usize>)
        ensures
            last_index(self@, name@) == match slot {
                Some(k) => Some(k as int),
                None => None,
            },
    {
        let ghost names = self@;
        let mut k: usize = self.map.len();
        assert(names.take(k as int) =~= names);
        while k > 0
            invariant
                k <= self.map@.len(),
                names == names_view(self.map@),
                last_index(names, name@) == last_index(names.take(k as int), name@),
            decreases k,
        {
            k -= 1;
            assert(names.take(k as int + 1).drop_last() =~= names.take(k as int));
            if self.map[k] == *name {
                return Some(k);
            }
        }
        None
    }
}

/// The slot that `name` is bound to in `names`.
pub open spec fn slot_of(names: Seq<Seq<char>>, name: Seq<char>) -> usize {
    match last_index(names, name) {
        Some(k) => k as usize,
        None => 0,
    }
}

/// An operand after binding: a register gets the slot of its name, which is
/// bound first if it was not.
pub open spec fn bind_operand(names: Seq<Seq<char>>, operand: OperandView) -> (
    Seq<Seq<char>>,
    OperandView,
) {
    match operand {
        OperandView::Reg { name, id } => {
            let bound = bind_name(names, name);
            (bound, OperandView::Reg { name, id: slot_of(bound, name) })
        },
        OperandView::Imm(_) => (names, operand),
    }
}

/// Two operands bound one after the other.
pub open spec fn bind_two(names: Seq<Seq<char>>, x: OperandView, y: OperandView) -> (
    Seq<Seq<char>>,
    OperandView,
    OperandView,
) {
    let (n1, x1) = bind_operand(names, x);
    let (n2, y1) = bind_operand(n1, y);
    (n2, x1, y1)
}

/// An instruction after binding: its operands are bound in the order in which
/// they are written.
pub open spec fn bind_instr(names: Seq<Seq<char>>, instr: InstrView) -> (
    Seq<Seq<char>>,
    InstrView,
) {
    match instr {
        InstrView::Assign(x, y) => {
            let (n, x1, y1) = bind_two(names, x, y);
            (n, InstrView::Assign(x1, y1))
        },
        InstrView::Arith(x, y, op, z) => {
            let (n, x1, y1) = bind_two(names, x, y);
            let (n3, z1) = bind_operand(n, z);
            (n3, InstrView::Arith(x1, y1, op, z1))
        },
        InstrView::Deref(x, y) => {
            let (n, x1, y1) = bind_two(names, x, y);
            (n, InstrView::Deref(x1, y1))
        },
        InstrView::Store(x, y) => {
            let (n, x1, y1) = bind_two(names, x, y);
            (n, InstrView::Store(x1, y1))
        },
        InstrView::Load(x, y) => {
            let (n, x1, y1) = bind_two(names, x, y);
            (n, InstrView::Load(x1, y1))
        },
        InstrView::Cond { x, op, y, name, id } => {
            let (n, x1, y1) = bind_two(names, x, y);
            (n, InstrView::Cond { x: x1, op, y: y1, name, id })
        },
        InstrView::Return(x) => {
            let (n, x1) = bind_operand(names, x);
            (n, InstrView::Return(x1))
        },
        InstrView::Dec(x, size) => {
            let (n, x1) = bind_operand(names, x);
            (n, InstrView::Dec(x1, size))
        },
        InstrView::Arg(x) => {
            let (n, x1) = bind_operand(names, x);
            (n, InstrView::Arg(x1))
        },
        InstrView::Call { x, name, id } => {
            let (n, x1) = bind_operand(names, x);
            (n, InstrView::Call { x: x1, name, id })
        },
        InstrView::Param(x) => {
            let (n, x1) = bind_operand(names, x);
            (n, InstrView::Param(x1))
        },
        InstrView::Read(x) => {
            let (n, x1) = bind_operand(names, x);
            (n, InstrView::Read(x1))
        },
        InstrView::Write(x) => {
            let (n, x1) = bind_operand(names, x);
            (n, InstrView::Write(x1))
        },
        InstrView::Label(_) => (names, instr),
        InstrView::Goto { .. } => (names, instr),
    }
}

/// A sequence of instructions after binding, from no bound name on, with the
/// names that are bound at its end.
pub open spec fn bind_body(body: Seq<InstrView>) -> (Seq<Seq<char>>, Seq<InstrView>)
    decreases body.len(),
{
    if body.len() == 0 {
        (Seq::empty(), Seq::empty())
    } else {
        let (names, bound) = bind_body(body.drop_last());
        let (names1, last) = bind_instr(names, body.last());
        (names1, bound.push(last))
    }
}

/// A jump with the index of its label's last marker in `body` as its target;
/// any other instruction as it is.
pub open spec fn link_jump(body: Seq<InstrView>, instr: InstrView) -> Result<InstrView, Fault> {
    match instr {
        InstrView::Goto { name, id } => match last_index(body, InstrView::Label(name)) {
            Some(k) => Ok(InstrView::Goto { name, id: k as usize }),
            None => Err(Fault::ResolutionError),
        },
        InstrView::Cond { x, op, y, name, id } => match last_index(body, InstrView::Label(name)) {
            Some(k) => Ok(InstrView::Cond { x, op, y, name, id: k as usize }),
            None => Err(Fault::ResolutionError),
        },
        _ => Ok(instr),
    }
}

/// Whether every jump of `body` names a label of `body`.
pub open spec fn jumps_linkable(body: Seq<InstrView>) -> bool {
    forall|i: int| 0 <= i < body.len() ==> (#[trigger] link_jump(body, body[i])) is Ok
}

/// `body` with every jump linked to its label.
pub open spec fn link_jumps(body: Seq<InstrView>) -> Seq<InstrView> {
    Seq::new(
        body.len(),
        |i: int|
            match link_jump(body, body[i]) {
                Ok(linked) => linked,
                Err(_) => body[i],
            },
    )
}

/// A function resolved by itself: jumps are linked to labels, then registers
/// are bound to slots in the order of first use, and the number of slots is
/// recorded. A jump to a label that the function lacks is a resolution error.
pub open spec fn resolve_func(func: FuncView) -> Result<FuncView, Fault> {
    if jumps_linkable(func.body) {
        let (names, body) = bind_body(link_jumps(func.body));
        Ok(FuncView { name: func.name, body, nreg: names.len() as usize, id: func.id })
    } else {
        Err(Fault::ResolutionError)
    }
}

impl Operand {
    /// Binds the operand: a register gets the slot of its name.
    pub fn init(&mut self, bind: &mut Binding)
        ensures
            (final(bind)@, final(self)@) == bind_operand(old(bind)@, old(self)@),
    {
        match self {
            Operand::Reg { name, id } => {
                bind.insert(name);
                match bind.get(name) {
                    Some(slot) => {
                        *id = slot;
                    },
                    None => {},
                }
            },
            Operand::Imm(_) => {},
        }
    }
}

impl Instr {
    /// Binds the operands of the instruction, in the order in which they are
    /// written.
    pub fn bind(&mut self, bind: &mut Binding)
        ensures
            (final(bind)@, final(self)@) == bind_instr(old(bind)@, old(self)@),
    {
        match self {
            Instr::Assign(x, y) => {
                x.init(bind);
                y.init(bind)
            },
            Instr::Arith(x, y, _, z) => {
                x.init(bind);
                y.init(bind);
                z.init(bind)
            },
            Instr::Deref(x, y) => {
                x.init(bind);
                y.init(bind)
            },
            Instr::Store(x, y) => {
                x.init(bind);
                y.init(bind)
            },
            Instr::Load(x, y) => {
                x.init(bind);
                y.init(bind)
            },
            Instr::Cond { x, y, .. } => {
                x.init(bind);
                y.init(bind)
            },
            Instr::Return(x) => x.init(bind),
            Instr::Dec(x, _) => x.init(bind),
            Instr::Arg(x) => x.init(bind),
            Instr::Call { x, .. } => x.init(bind),
            Instr::Param(x) => x.init(bind),
            Instr::Read(x) => x.init(bind),
            Instr::Write(x) => x.init(bind),
            _ => (),
        }
    }
}

/// The index of the last marker of the label `name` in `body`.
fn find_label(body: &Vec<Instr>, name: &String) -> (found: Option<usize>)
    ensures
        last_index(body_view(body@), InstrView::Label(name@)) == match found {
            Some(k) => Some(k as int),
            None => None,
        },
{
    let ghost views = body_view(body@);
    let mut k: usize = body.len();
    assert(views.take(k as int) =~= views);
    while k > 0
        invariant
            k <= body@.len(),
            views == body_view(body@),
            last_index(views, InstrView::Label(name@)) == last_index(
                views.take(k as int),
                InstrView::Label(name@),
            ),
        decreases k,
    {
        k -= 1;
        assert(views.take(k as int + 1).drop_last() =~= views.take(k as int));
        assert(views.take(k as int + 1).last() == body@[k as int]@);
        match &body[k] {
            Instr::Label(label) => {
                if *label == *name {
                    return Some(k);
                }
            },
            _ => {},
        }
    }
    None
}

impl Func {
    /// `instr` with its jump linked to the label that it names in this function.
    fn linked(&self, instr: &Instr) -> (linked: Result<Instr, Fault>)
        ensures
            match link_jump(self@.body, instr@) {
                Ok(view) => linked is Ok && linked->Ok_0@ == view,
                Err(fault) => linked is Err && linked->Err_0 == fault,
            },
    {
        match instr {
            Instr::Goto { name, .. } => match find_label(&self.body, name) {
                Some(id) => Ok(Instr::Goto { name: name.clone(), id }),
                None => Err(Fault::ResolutionError),
            },
            Instr::Cond { x, op, y, name, .. } => match find_label(&self.body, name) {
                Some(id) => Ok(
                    Instr::Cond { x: x.clone(), op: *op, y: y.clone(), name: name.clone(), id },
                ),
                None => Err(Fault::ResolutionError),
            },
            _ => Ok(instr.clone()),
        }
    }

    /// The function resolved by itself: with its jumps linked to its labels and
    /// its registers bound to slots.
    pub fn resolved(&self) -> (resolved: Result<Func, Fault>)
        ensures
            match resolve_func(self@) {
                Ok(view) => resolved is Ok && resolved->Ok_0@ == view,
                Err(fault) => resolved is Err && resolved->Err_0 == fault,
            },
    {
        let ghost body = self@.body;
        let mut out: Vec<Instr> = Vec::new();
        let mut bind = Binding::new();
        let mut i: usize = 0;
        assert(link_jumps(body).take(0) =~= Seq::<InstrView>::empty());
        assert(body_view(out@) =~= Seq::<InstrView>::empty());
        while i < self.body.len()
            invariant
                i <= self.body@.len(),
                body == self@.body,
                body.len() == self.body@.len(),
                forall|j: int| 0 <= j < i ==> (#[trigger] link_jump(body, body[j])) is Ok,
                (bind@, body_view(out@)) == bind_body(link_jumps(body).take(i as int)),
            decreases self.body@.len() - i,
        {
            let mut instr = match self.linked(&self.body[i]) {
                Ok(linked) => linked,
                Err(fault) => {
                    assert(link_jump(body, body[i as int]) is Err);
                    return Err(fault);
                },
            };
            let ghost before = body_view(out@);
            instr.bind(&mut bind);
            out.push(instr);
            proof {
                let prefix = link_jumps(body).take(i as int + 1);
                assert(prefix.drop_last() =~= link_jumps(body).take(i as int));
                assert(body_view(out@) =~= before.push(instr@));
            }
            i += 1;
        }
        assert(link_jumps(body).take(i as int) =~= link_jumps(body));
        Ok(Func { name: self.name.clone(), body: out, nreg: bind.len(), id: self.id })
    }

    /// Resolves the function by itself. On a fault it is left as it was.
    pub fn init(&mut self) -> (done: Result<(), Fault>)
        ensures
            match resolve_func(old(self)@) {
                Ok(view) => done is Ok && final(self)@ == view,
                Err(fault) => done == Err::<(), Fault>(fault) && final(self)@ == old(self)@,
            },
    {
        match self.resolved() {
            Ok(resolved) => {
                *self = resolved;
                Ok(())
            },
            Err(fault) => Err(fault),
        }
    }
}

/// The names of a sequence of functions.
pub open spec fn func_names(funcs: Seq<FuncView>) -> Seq<Seq<char>> {
    Seq::new(funcs.len(), |i: int| funcs[i].name)
}

/// The name of the entry function.
pub open spec fn entry_name() -> Seq<char> {
    seq!['m', 'a', 'i', 'n']
}

/// A call with the index of the last function of its callee's name as its
/// target; any other instruction as it is.
pub open spec fn link_call(names: Seq<Seq<char>>, instr: InstrView) -> Result<InstrView, Fault> {
    match instr {
        InstrView::Call { x, name, id } => match last_index(names, name) {
            Some(k) => Ok(InstrView::Call { x, name, id: k as usize }),
            None => Err(Fault::ResolutionError),
        },
        _ => Ok(instr),
    }
}

/// Whether every call of `body` names one of `names`.
pub open spec fn calls_linkable(names: Seq<Seq<char>>, body: Seq<InstrView>) -> bool {
    forall|i: int| 0 <= i < body.len() ==> (#[trigger] link_call(names, body[i])) is Ok
}

/// `body` with every call linked to its callee.
pub open spec fn link_calls(names: Seq<Seq<char>>, body: Seq<InstrView>) -> Seq<InstrView> {
    Seq::new(
        body.len(),
        |i: int|
            match link_call(names, body[i]) {
                Ok(linked) => linked,
                Err(_) => body[i],
            },
    )
}

/// The function at `index` of a program whose functions are named `names`,
/// resolved: by itself first, then its calls are linked and it gets its index
/// as its id. A call of a name that no function has is a resolution error.
pub open spec fn resolve_func_in(names: Seq<Seq<char>>, index: int, func: FuncView) -> Result<
    FuncView,
    Fault,
> {
    match resolve_func(func) {
        Ok(local) => if calls_linkable(names, local.body) {
            Ok(
                FuncView {
                    name: local.name,
                    body: link_calls(names, local.body),
                    nreg: local.nreg,
                    id: index as usize,
                },
            )
        } else {
            Err(Fault::ResolutionError)
        },
        Err(fault) => Err(fault),
    }
}

/// Whether every function of `funcs` can be resolved.
pub open spec fn funcs_resolvable(funcs: Seq<FuncView>) -> bool {
    forall|i: int|
        0 <= i < funcs.len() ==> (#[trigger] resolve_func_in(func_names(funcs), i, funcs[i]))
            is Ok
}

/// A program resolved: every function is resolved, and the entry is the index
/// of the last function named `main`. A program without such a function, or with
/// a function that cannot be resolved, is a resolution error.
pub open spec fn resolve_program(program: ProgramView) -> Result<ProgramView, Fault> {
    let names = func_names(program.funcs);
    if funcs_resolvable(program.funcs) && last_index(names, entry_name()) is Some {
        Ok(
            ProgramView {
                funcs: Seq::new(
                    program.funcs.len(),
                    |i: int| resolve_func_in(names, i, program.funcs[i])->Ok_0,
                ),
                entry: last_index(names, entry_name())->Some_0 as usize,
            },
        )
    } else {
        Err(Fault::ResolutionError)
    }
}

impl Program {
    /// The index of the last function named `name`.
    fn find_func(&self, name: &String) -> (found: Option<usize>)
        ensures
            last_index(func_names(self@.funcs), name@) == match found {
                Some(k) => Some(k as int),
                None => None,
            },
    {
        let ghost names = func_names(self@.funcs);
        let mut k: usize = self.funcs.len();
        assert(names.take(k as int) =~= names);
        while k > 0
            invariant
                k <= self.funcs@.len(),
                names == func_names(self@.funcs),
                last_index(names, name@) == last_index(names.take(k as int), name@),
            decreases k,
        {
            k -= 1;
            assert(names.take(k as int + 1).drop_last() =~= names.take(k as int));
            assert(names.take(k as int + 1).last() == self.funcs@[k as int].name@);
            if self.funcs[k].name == *name {
                return Some(k);
            }
        }
        None
    }

    /// The function at `index`, resolved.
    fn resolved_func(&self, index: usize) -> (resolved: Result<Func, Fault>)
        requires
            index < self.funcs@.len(),
        ensures
            match resolve_func_in(
                func_names(self@.funcs),
                index as int,
                self@.funcs[index as int],
            ) {
                Ok(view) => resolved is Ok && resolved->Ok_0@ == view,
                Err(fault) => resolved is Err && resolved->Err_0 == fault,
            },
    {
        let ghost names = func_names(self@.funcs);
        let mut func = match self.funcs[index].resolved() {
            Ok(local) => local,
            Err(fault) => {
                return Err(fault);
            },
        };
        let ghost local = func@;
        let n = func.body.len();
        let mut j: usize = 0;
        while j < n
            invariant
                j <= n,
                n == func.body@.len(),
                n == local.body.len(),
                names == func_names(self@.funcs),
                index < self@.funcs.len(),
                resolve_func(self@.funcs[index as int]) == Ok::<FuncView, Fault>(local),
                func.name@ == local.name,
                func.nreg == local.nreg,
                forall|k: int| 0 <= k < j ==> (#[trigger] link_call(names, local.body[k])) is Ok,
                forall|k: int|
                    0 <= k < j ==> (#[trigger] func.body@[k])@ == link_call(
                        names,
                        local.body[k],
                    )->Ok_0,
                forall|k: int| j <= k < n ==> (#[trigger] func.body@[k])@ == local.body[k],
            decreases n - j,
        {
            let target = match &func.body[j] {
                Instr::Call { name, .. } => match self.find_func(name) {
                    Some(callee) => Some(callee),
                    None => {
                        assert(link_call(names, local.body[j as int]) is Err);
                        return Err(Fault::ResolutionError);
                    },
                },
                _ => None,
            };
            match &mut func.body[j] {
                Instr::Call { id, .. } => match target {
                    Some(callee) => {
                        *id = callee;
                    },
                    None => {},
                },
                _ => {},
            }
            j += 1;
        }
        func.id = index;
        assert(func@.body =~= link_calls(names, local.body));
        Ok(func)
    }

    /// Resolves the program: every function by itself, the entry function, and
    /// every call. On a fault the program is left as it was.
    pub fn init(&mut self) -> (done: Result<(), Fault>)
        ensures
            match resolve_program(old(self)@) {
                Ok(view) => done is Ok && final(self)@ == view,
                Err(fault) => done == Err::<(), Fault>(fault) && final(self)@ == old(self)@,
            },
    {
        let ghost program = self@;
        let ghost names = func_names(program.funcs);
        let mut funcs: VecDeque<Func> = VecDeque::new();
        let mut i: usize = 0;
        while i < self.funcs.len()
            invariant
                i <= self.funcs@.len(),
                program == self@,
                names == func_names(program.funcs),
                funcs@.len() == i,
                forall|k: int|
                    0 <= k < i ==> (#[trigger] resolve_func_in(names, k, program.funcs[k])) is Ok,
                forall|k: int|
                    0 <= k < i ==> (#[trigger] funcs@[k])@ == resolve_func_in(
                        names,
                        k,
                        program.funcs[k],
                    )->Ok_0,
            decreases self.funcs@.len() - i,
        {
            match self.resolved_func(i) {
                Ok(func) => {
                    funcs.push_back(func);
                },
                Err(fault) => {
                    assert(resolve_func_in(names, i as int, program.funcs[i as int]) is Err);
                    return Err(fault);
                },
            }
            i += 1;
        }
        let main = "main".to_owned();
        proof {
            reveal_strlit("main");
            assert(main@ =~= entry_name());
        }
        match self.find_func(&main) {
            Some(entry) => {
                self.funcs = funcs;
                self.entry = entry;
                assert(self@.funcs =~= resolve_program(program)->Ok_0.funcs);
                Ok(())
            },
            None => Err(Fault::ResolutionError),
        }
    }
}

/// The entry of a resolved program is the index of one of its functions, and
/// resolution keeps the number of functions.
pub proof fn lemma_resolved_entry(program: ProgramView)
    requires
        resolve_program(program) is Ok,
    ensures
        resolve_program(program)->Ok_0.entry < program.funcs.len(),
        resolve_program(program)->Ok_0.funcs.len() == program.funcs.len(),
{
    lemma_last_index(func_names(program.funcs), entry_name());
}

} // verus!
