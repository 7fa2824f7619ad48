//! Runtime values: integers and pointers into shared buffers of cells.
use vstd::prelude::*;
use vstd::std_specs::ops::AddSpecImpl;
use vstd::std_specs::ops::DivSpecImpl;
use vstd::std_specs::ops::MulSpecImpl;
use vstd::std_specs::ops::SubSpecImpl;
use crate::text::decimal;
use crate::text::decimal_string;

verus! {

/// The kinds of fatal fault. Every fault ends the run; none is recovered from.
#[derive(Clone, Copy, Debug, PartialEq, Eq, Structural)]
pub enum Fault {
    /// An unresolved label or call target, or a program without an entry function.
    ResolutionError,
    /// A load or store through something that addresses no cell, a store of
    /// something that is no integer, arithmetic between two pointers, a
    /// comparison that involves a pointer, a division by zero, an arithmetic
    /// result that does not fit a cell, or an allocation of negative size.
    InvalidOperation,
    /// A return whose caller is not parked on a call, a missing frame, a program
    /// counter or a register slot out of range.
    ControlFlowError,
    /// Malformed or absent input.
    InputError,
    /// A parameter was asked for and no argument was pending.
    ArgumentStackError,
}

/// A runtime datum: a signed integer, or a pointer to a cell of a buffer.
///
/// A pointer names its buffer by the handle `mem` that the heap gave out when the
/// buffer was allocated; `size` is the number of cells the buffer was allocated
/// with and `ptr` the index of the addressed cell. Pointer arithmetic changes
/// `ptr` only, so every value derived from one allocation reaches the same cells.
#[derive(Clone, Copy, Debug, PartialEq, Eq, Structural)]
pub enum Value {
    ValInt(i64),
    ValPtr { mem: usize, size: usize, ptr: i64 },
}

/// The buffers that pointers address. A buffer keeps its length for as long as
/// the heap lives, and buffers are never removed.
pub struct Heap {
    buffers: Vec<Vec<i64>>,
}

impl View for Heap {
    type V = Seq<Seq<i64>>;

    closed spec fn view(&self) -> Seq<Seq<i64>> {
        Seq::new(self.buffers@.len(), |i: int| self.buffers@[i]@)
    }
}

/// Whether a buffer can have `size` cells: the size is not negative, and the
/// cells take no more bytes than an allocation can have.
pub open spec fn allocatable(size: int) -> bool {
    0 <= size && size * 8 <= isize::MAX
}

/// A buffer of `size` cells that all hold zero.
pub open spec fn zeroed(size: nat) -> Seq<i64> {
    Seq::new(size, |i: int| 0i64)
}

/// The integer `x` as a value, if it fits a cell.
pub open spec fn int_result(x: int) -> Result<Value, Fault> {
    if i64::MIN <= x <= i64::MAX {
        Ok(Value::ValInt(x as i64))
    } else {
        Err(Fault::InvalidOperation)
    }
}

/// The pointer into buffer `mem` at offset `x`, if the offset fits a cell.
pub open spec fn ptr_result(mem: usize, size: usize, x: int) -> Result<Value, Fault> {
    if i64::MIN <= x <= i64::MAX {
        Ok(Value::ValPtr { mem, size, ptr: x as i64 })
    } else {
        Err(Fault::InvalidOperation)
    }
}

/// The quotient of `x` by `d`, rounded towards zero.
pub open spec fn trunc_div(x: int, d: int) -> int
    recommends
        d != 0,
{
    if x >= 0 && d > 0 {
        x / d
    } else if x < 0 && d < 0 {
        (-x) / (-d)
    } else if x < 0 {
        -((-x) / d)
    } else {
        -(x / (-d))
    }
}

/// Whether `p` is a pointer to a cell that `heap` holds.
pub open spec fn addresses(p: Value, heap: Seq<Seq<i64>>) -> bool {
    p matches Value::ValPtr { mem, ptr, .. } && mem < heap.len() && 0 <= ptr < heap[mem as int].len()
}

/// What a load through `p` gives.
pub open spec fn spec_load(p: Value, heap: Seq<Seq<i64>>) -> Result<Value, Fault> {
    match p {
        Value::ValPtr { mem, ptr, .. } if addresses(p, heap) => Ok(
            Value::ValInt(heap[mem as int][ptr as int]),
        ),
        _ => Err(Fault::InvalidOperation),
    }
}

/// The heap after a store of `val` through `p`.
pub open spec fn spec_store(p: Value, val: Value, heap: Seq<Seq<i64>>) -> Result<
    Seq<Seq<i64>>,
    Fault,
> {
    match (p, val) {
        (Value::ValPtr { mem, ptr, .. }, Value::ValInt(i)) if addresses(p, heap) => Ok(
            heap.update(mem as int, heap[mem as int].update(ptr as int, i)),
        ),
        _ => Err(Fault::InvalidOperation),
    }
}

/// What a value is written out as: an integer in decimal, a pointer as the
/// integer in the cell it addresses.
pub open spec fn spec_render(v: Value, heap: Seq<Seq<i64>>) -> Result<Seq<char>, Fault> {
    match v {
        Value::ValInt(i) => Ok(decimal(i as int)),
        Value::ValPtr { mem, ptr, .. } => if addresses(v, heap) {
            Ok(decimal(heap[mem as int][ptr as int] as int))
        } else {
            Err(Fault::InvalidOperation)
        },
    }
}

/// Whether two values are alike: equal integers, or pointers of equal size and
/// offset whose buffers hold the same cells. A pointer whose buffer `heap` does
/// not hold is like nothing.
pub open spec fn spec_alike(a: Value, b: Value, heap: Seq<Seq<i64>>) -> bool {
    match (a, b) {
        (Value::ValInt(x), Value::ValInt(y)) => x == y,
        (
            Value::ValPtr { mem: m1, size: s1, ptr: at1 },
            Value::ValPtr { mem: m2, size: s2, ptr: at2 },
        ) => m1 < heap.len() && m2 < heap.len() && s1 == s2 && at1 == at2 && heap[m1 as int]
            == heap[m2 as int],
        _ => false,
    }
}

impl Heap {
    /// A heap without buffers.
    pub fn new() -> (heap: Heap)
        ensures
            heap@ == Seq::<Seq<i64>>::empty(),
    {
        Heap { buffers: Vec::new() }
    }

    /// The number of buffers allocated so far.
    pub fn len(&self) -> (n: usize)
        ensures
            n == self@.len(),
    {
        self.buffers.len()
    }

    /// Allocates a buffer of `size` zeroed cells and returns its handle.
    pub fn allocate(&mut self, size: usize) -> (mem: usize)
        requires
            allocatable(size as int),
        ensures
            mem == old(self)@.len(),
            final(self)@ == old(self)@.push(zeroed(size as nat)),
    {
        let mem = self.buffers.len();
        let buffer: Vec<i64> = vec![0i64; size];
        assert(buffer@ == zeroed(size as nat));
        self.buffers.push(buffer);
        assert(self@ == old(self)@.push(zeroed(size as nat)));
        mem
    }

    /// The cell `index` of buffer `mem`, if there is one.
    pub fn read(&self, mem: usize, index: i64) -> (cell: Option<i64>)
        ensures
            cell == if mem < self@.len() && 0 <= index < self@[mem as int].len() {
                Some(self@[mem as int][index as int])
            } else {
                None
            },
    {
        if mem < self.buffers.len() && 0 <= index && (index as u64) < (
        self.buffers[mem].len() as u64) {
            Some(self.buffers[mem][index as usize])
        } else {
            None
        }
    }

    /// Writes `cell` to index `index` of buffer `mem`, if there is such a cell,
    /// and says whether there was.
    pub fn write(&mut self, mem: usize, index: i64, cell: i64) -> (done: bool)
        ensures
            done == (mem < old(self)@.len() && 0 <= index < old(self)@[mem as int].len()),
            done ==> final(self)@ == old(self)@.update(
                mem as int,
                old(self)@[mem as int].update(index as int, cell),
            ),
            !done ==> final(self)@ == old(self)@,
    {
        if mem < self.buffers.len() && 0 <= index && (index as u64) < (
        self.buffers[mem].len() as u64) {
            self.buffers[mem][index as usize] = cell;
            assert(self@ == old(self)@.update(
                mem as int,
                old(self)@[mem as int].update(index as int, cell),
            ));
            true
        } else {
            false
        }
    }
}

impl Value {
    /// The integer `i` as a value.
    pub fn new_int(i: i64) -> (value: Value)
        ensures
            value == Value::ValInt(i),
    {
        Value::ValInt(i)
    }

    /// Allocates a buffer of `size` zeroed cells in `heap` and returns the pointer
    /// to its first cell.
    pub fn new_ptr(heap: &mut Heap, size: usize) -> (value: Value)
        requires
            allocatable(size as int),
        ensures
            value == (Value::ValPtr { mem: old(heap)@.len() as usize, size, ptr: 0 }),
            final(heap)@ == old(heap)@.push(zeroed(size as nat)),
    {
        let mem = heap.allocate(size);
        Value::ValPtr { mem, size, ptr: 0 }
    }

    /// The integer in the cell that the pointer addresses.
    pub fn load(&self, heap: &Heap) -> (loaded: Result<Value, Fault>)
        ensures
            loaded == spec_load(*self, heap@),
    {
        match self {
            Value::ValPtr { mem, ptr, .. } => match heap.read(*mem, *ptr) {
                Some(cell) => Ok(Value::ValInt(cell)),
                None => Err(Fault::InvalidOperation),
            },
            Value::ValInt(_) => Err(Fault::InvalidOperation),
        }
    }

    /// Writes the integer `val` to the cell that the pointer addresses. On a fault
    /// the heap is left as it was.
    pub fn store(&self, heap: &mut Heap, val: Value) -> (stored: Result<(), Fault>)
        ensures
            match spec_store(*self, val, old(heap)@) {
                Ok(after) => stored == Ok::<(), Fault>(()) && final(heap)@ == after,
                Err(fault) => stored == Err::<(), Fault>(fault) && final(heap)@ == old(heap)@,
            },
    {
        match (self, val) {
            (Value::ValPtr { mem, ptr, .. }, Value::ValInt(i)) => {
                if heap.write(*mem, *ptr, i) {
                    Ok(())
                } else {
                    Err(Fault::InvalidOperation)
                }
            },
            _ => Err(Fault::InvalidOperation),
        }
    }

    /// Whether `self` and `other` are alike in `heap`.
    pub fn alike(&self, other: &Value, heap: &Heap) -> (same: bool)
        ensures
            same == spec_alike(*self, *other, heap@),
    {
        match (self, other) {
            (Value::ValInt(x), Value::ValInt(y)) => *x == *y,
            (
                Value::ValPtr { mem: m1, size: s1, ptr: at1 },
                Value::ValPtr { mem: m2, size: s2, ptr: at2 },
            ) => {
                if *m1 < heap.buffers.len() && *m2 < heap.buffers.len() && *s1 == *s2 && *at1
                    == *at2 {
                    let a = &heap.buffers[*m1];
                    let b = &heap.buffers[*m2];
                    if a.len() != b.len() {
                        return false;
                    }
                    let mut k: usize = 0;
                    while k < a.len()
                        invariant
                            k <= a.len(),
                            a.len() == b.len(),
                            forall|j: int| 0 <= j < k ==> a@[j] == b@[j],
                            *m1 < heap@.len(),
                            *m2 < heap@.len(),
                            a@ == heap@[*m1 as int],
                            b@ == heap@[*m2 as int],
                            *self == (Value::ValPtr { mem: *m1, size: *s1, ptr: *at1 }),
                            *other == (Value::ValPtr { mem: *m2, size: *s2, ptr: *at2 }),
                            s1 == s2,
                            at1 == at2,
                        decreases a.len() - k,
                    {
                        if a[k] != b[k] {
                            return false;
                        }
                        k += 1;
                    }
                    assert(a@ =~= b@);
                    true
                } else {
                    false
                }
            },
            _ => false,
        }
    }

    /// The text that the value is written out as.
    pub fn render(&self, heap: &Heap) -> (text: Result<String, Fault>)
        ensures
            match spec_render(*self, heap@) {
                Ok(chars) => text is Ok && text->Ok_0@ == chars,
                Err(fault) => text == Err::<String, Fault>(fault),
            },
    {
        match self {
            Value::ValInt(i) => Ok(decimal_string(*i)),
            Value::ValPtr { mem, ptr, .. } => match heap.read(*mem, *ptr) {
                Some(cell) => Ok(decimal_string(cell)),
                None => Err(Fault::InvalidOperation),
            },
        }
    }
}

impl Default for Value {
    fn default() -> (value: Value)
        ensures
            value == Value::ValInt(0),
    {
        Value::ValInt(0)
    }
}

impl core::ops::Add for Value {
    type Output = Result<Value, Fault>;

    fn add(self, rhs: Value) -> (sum: Result<Value, Fault>) {
        match (self, rhs) {
            (Value::ValInt(x), Value::ValInt(y)) => match x.checked_add(y) {
                Some(z) => Ok(Value::ValInt(z)),
                None => Err(Fault::InvalidOperation),
            },
            (Value::ValPtr { mem, size, ptr }, Value::ValInt(y)) => match ptr.checked_add(y) {
                Some(z) => Ok(Value::ValPtr { mem, size, ptr: z }),
                None => Err(Fault::InvalidOperation),
            },
            (Value::ValInt(x), Value::ValPtr { mem, size, ptr }) => match ptr.checked_add(x) {
                Some(z) => Ok(Value::ValPtr { mem, size, ptr: z }),
                None => Err(Fault::InvalidOperation),
            },
            _ => Err(Fault::InvalidOperation),
        }
    }
}

impl AddSpecImpl for Value {
    open spec fn obeys_add_spec() -> bool {
        true
    }

    open spec fn add_req(self, rhs: Value) -> bool {
        true
    }

    /// Integers add up; a pointer and an integer give the pointer moved by the
    /// integer; two pointers fault, and so does a result that does not fit.
    open spec fn add_spec(self, rhs: Value) -> Result<Value, Fault> {
        match (self, rhs) {
            (Value::ValInt(x), Value::ValInt(y)) => int_result(x + y),
            (Value::ValPtr { mem, size, ptr }, Value::ValInt(y)) => ptr_result(mem, size, ptr + y),
            (Value::ValInt(x), Value::ValPtr { mem, size, ptr }) => ptr_result(mem, size, ptr + x),
            _ => Err(Fault::InvalidOperation),
        }
    }
}

impl core::ops::Sub for Value {
    type Output = Result<Value, Fault>;

    fn sub(self, rhs: Value) -> (difference: Result<Value, Fault>) {
        match (self, rhs) {
            (Value::ValInt(x), Value::ValInt(y)) => match x.checked_sub(y) {
                Some(z) => Ok(Value::ValInt(z)),
                None => Err(Fault::InvalidOperation),
            },
            (Value::ValPtr { mem, size, ptr }, Value::ValInt(y)) => match ptr.checked_sub(y) {
                Some(z) => Ok(Value::ValPtr { mem, size, ptr: z }),
                None => Err(Fault::InvalidOperation),
            },
            (Value::ValInt(x), Value::ValPtr { mem, size, ptr }) => match x.checked_sub(ptr) {
                Some(z) => Ok(Value::ValPtr { mem, size, ptr: z }),
                None => Err(Fault::InvalidOperation),
            },
            _ => Err(Fault::InvalidOperation),
        }
    }
}

impl SubSpecImpl for Value {
    open spec fn obeys_sub_spec() -> bool {
        true
    }

    open spec fn sub_req(self, rhs: Value) -> bool {
        true
    }

    /// Integers subtract; a pointer less an integer is the pointer moved back by
    /// the integer; an integer less a pointer is the pointer with the integer less
    /// its offset as the new offset; two pointers fault, and so does a result that
    /// does not fit.
    open spec fn sub_spec(self, rhs: Value) -> Result<Value, Fault> {
        match (self, rhs) {
            (Value::ValInt(x), Value::ValInt(y)) => int_result(x - y),
            (Value::ValPtr { mem, size, ptr }, Value::ValInt(y)) => ptr_result(mem, size, ptr - y),
            (Value::ValInt(x), Value::ValPtr { mem, size, ptr }) => ptr_result(mem, size, x - ptr),
            _ => Err(Fault::InvalidOperation),
        }
    }
}

impl core::ops::Mul for Value {
    type Output = Result<Value, Fault>;

    fn mul(self, rhs: Value) -> (product: Result<Value, Fault>) {
        match (self, rhs) {
            (Value::ValInt(x), Value::ValInt(y)) => match x.checked_mul(y) {
                Some(z) => Ok(Value::ValInt(z)),
                None => Err(Fault::InvalidOperation),
            },
            (Value::ValPtr { mem, size, ptr }, Value::ValInt(y)) => match ptr.checked_mul(y) {
                Some(z) => Ok(Value::ValPtr { mem, size, ptr: z }),
                None => Err(Fault::InvalidOperation),
            },
            (Value::ValInt(x), Value::ValPtr { mem, size, ptr }) => match ptr.checked_mul(x) {
                Some(z) => Ok(Value::ValPtr { mem, size, ptr: z }),
                None => Err(Fault::InvalidOperation),
            },
            _ => Err(Fault::InvalidOperation),
        }
    }
}

impl MulSpecImpl for Value {
    open spec fn obeys_mul_spec() -> bool {
        true
    }

    open spec fn mul_req(self, rhs: Value) -> bool {
        true
    }

    /// Integers multiply; a pointer and an integer give the pointer with its
    /// offset multiplied by the integer; two pointers fault, and so does a result
    /// that does not fit.
    open spec fn mul_spec(self, rhs: Value) -> Result<Value, Fault> {
        match (self, rhs) {
            (Value::ValInt(x), Value::ValInt(y)) => int_result(x * y),
            (Value::ValPtr { mem, size, ptr }, Value::ValInt(y)) => ptr_result(mem, size, ptr * y),
            (Value::ValInt(x), Value::ValPtr { mem, size, ptr }) => ptr_result(mem, size, ptr * x),
            _ => Err(Fault::InvalidOperation),
        }
    }
}

impl core::ops::Div for Value {
    type Output = Result<Value, Fault>;

    fn div(self, rhs: Value) -> (quotient: Result<Value, Fault>) {
        match (self, rhs) {
            (Value::ValInt(x), Value::ValInt(y)) => match x.checked_div(y) {
                Some(z) => Ok(Value::ValInt(z)),
                None => Err(Fault::InvalidOperation),
            },
            (Value::ValPtr { mem, size, ptr }, Value::ValInt(y)) => match ptr.checked_div(y) {
                Some(z) => Ok(Value::ValPtr { mem, size, ptr: z }),
                None => Err(Fault::InvalidOperation),
            },
            (Value::ValInt(x), Value::ValPtr { mem, size, ptr }) => match ptr.checked_div(x) {
                Some(z) => Ok(Value::ValPtr { mem, size, ptr: z }),
                None => Err(Fault::InvalidOperation),
            },
            _ => Err(Fault::InvalidOperation),
        }
    }
}

impl DivSpecImpl for Value {
    open spec fn obeys_div_spec() -> bool {
        true
    }

    open spec fn div_req(self, rhs: Value) -> bool {
        true
    }

    /// Integers divide, rounding towards zero; a pointer and an integer, in
    /// either order, give the pointer with its offset divided by the integer; a
    /// division by the integer zero faults, and so do two pointers and a result
    /// that does not fit.
    open spec fn div_spec(self, rhs: Value) -> Result<Value, Fault> {
        match (self, rhs) {
            (Value::ValInt(x), Value::ValInt(y)) => if y == 0 {
                Err(Fault::InvalidOperation)
            } else {
                int_result(trunc_div(x as int, y as int))
            },
            (Value::ValPtr { mem, size, ptr }, Value::ValInt(y)) => if y == 0 {
                Err(Fault::InvalidOperation)
            } else {
                ptr_result(mem, size, trunc_div(ptr as int, y as int))
            },
            (Value::ValInt(x), Value::ValPtr { mem, size, ptr }) => if x == 0 {
                Err(Fault::InvalidOperation)
            } else {
                ptr_result(mem, size, trunc_div(ptr as int, x as int))
            },
            _ => Err(Fault::InvalidOperation),
        }
    }
}

} // verus!
