//! What holds of values whatever the program: the laws of arithmetic and of
//! pointers that share a buffer.
use vstd::prelude::*;
use vstd::std_specs::ops::AddSpec;
use vstd::std_specs::ops::DivSpec;
use vstd::std_specs::ops::MulSpec;
use vstd::std_specs::ops::SubSpec;
use crate::value::Fault;
use crate::value::Value;
use crate::value::addresses;
use crate::value::spec_load;
use crate::value::spec_store;
use crate::value::trunc_div;
use crate::value::zeroed;

verus! {

/// Whether the integer `x` fits a cell.
pub open spec fn fits(x: int) -> bool {
    i64::MIN <= x <= i64::MAX
}

/// Arithmetic on two integers is the arithmetic of the integers: the sum, the
/// difference, the product, and the quotient rounded towards zero, wherever the
/// result fits a cell. A division by zero faults, and so does a result that does
/// not fit.
pub proof fn lemma_integer_arithmetic(a: i64, b: i64)
    ensures
        fits(a + b) ==> Value::ValInt(a).add_spec(Value::ValInt(b)) == Ok::<Value, Fault>(
            Value::ValInt((a + b) as i64),
        ),
        fits(a - b) ==> Value::ValInt(a).sub_spec(Value::ValInt(b)) == Ok::<Value, Fault>(
            Value::ValInt((a - b) as i64),
        ),
        fits(a * b) ==> Value::ValInt(a).mul_spec(Value::ValInt(b)) == Ok::<Value, Fault>(
            Value::ValInt((a * b) as i64),
        ),
        b != 0 && fits(trunc_div(a as int, b as int)) ==> Value::ValInt(a).div_spec(
            Value::ValInt(b),
        ) == Ok::<Value, Fault>(Value::ValInt(trunc_div(a as int, b as int) as i64)),
        b == 0 ==> Value::ValInt(a).div_spec(Value::ValInt(b)) == Err::<Value, Fault>(
            Fault::InvalidOperation,
        ),
        !fits(a + b) ==> Value::ValInt(a).add_spec(Value::ValInt(b)) == Err::<Value, Fault>(
            Fault::InvalidOperation,
        ),
        !fits(a - b) ==> Value::ValInt(a).sub_spec(Value::ValInt(b)) == Err::<Value, Fault>(
            Fault::InvalidOperation,
        ),
        !fits(a * b) ==> Value::ValInt(a).mul_spec(Value::ValInt(b)) == Err::<Value, Fault>(
            Fault::InvalidOperation,
        ),
{
}

/// The quotient rounded towards zero, times the divisor, is no further from
/// zero than the dividend, and misses it by less than the divisor.
pub proof fn lemma_trunc_div(a: int, b: int)
    requires
        b != 0,
    ensures
        a >= 0 ==> 0 <= a - trunc_div(a, b) * b < (if b > 0 {
            b
        } else {
            -b
        }),
        a < 0 ==> 0 <= trunc_div(a, b) * b - a < (if b > 0 {
            b
        } else {
            -b
        }),
{
    let pa = if a >= 0 {
        a
    } else {
        -a
    };
    let pb = if b > 0 {
        b
    } else {
        -b
    };
    vstd::arithmetic::div_mod::lemma_fundamental_div_mod(pa, pb);
    vstd::arithmetic::div_mod::lemma_mod_bound(pa, pb);
    assert(pa == pb * (pa / pb) + pa % pb);
    assert((pa / pb) * pb == pb * (pa / pb)) by (nonlinear_arith);
    assert((-(pa / pb)) * b == -((pa / pb) * b)) by (nonlinear_arith);
    assert((pa / pb) * (-pb) == -((pa / pb) * pb)) by (nonlinear_arith);
    assert((-(pa / pb)) * (-pb) == (pa / pb) * pb) by (nonlinear_arith);
}

/// A pointer moved by an integer addresses the same buffer, with the integer
/// added to its offset; to move it back by the same integer gives the pointer
/// again.
pub proof fn lemma_pointer_shift(p: Value, k: i64)
    requires
        p is ValPtr,
        fits(p->ptr + k),
    ensures
        p.add_spec(Value::ValInt(k)) == Ok::<Value, Fault>(
            Value::ValPtr { mem: p->mem, size: p->size, ptr: (p->ptr + k) as i64 },
        ),
        Value::ValInt(k).add_spec(p) == p.add_spec(Value::ValInt(k)),
        p.add_spec(Value::ValInt(k))->Ok_0.sub_spec(Value::ValInt(k)) == Ok::<Value, Fault>(p),
{
}

/// A pointer moved back by an integer addresses the same buffer, with the
/// integer taken off its offset; to move it forth by the same integer gives the
/// pointer again.
pub proof fn lemma_pointer_shift_back(p: Value, k: i64)
    requires
        p is ValPtr,
        fits(p->ptr - k),
    ensures
        p.sub_spec(Value::ValInt(k)) == Ok::<Value, Fault>(
            Value::ValPtr { mem: p->mem, size: p->size, ptr: (p->ptr - k) as i64 },
        ),
        p.sub_spec(Value::ValInt(k))->Ok_0.add_spec(Value::ValInt(k)) == Ok::<Value, Fault>(p),
{
}

/// A store through a pointer that was moved by `k` is seen by a load through
/// the same pointer moved by `j` where `j` is `k`, and by no load where it is
/// not: values derived from one allocation reach the same cells.
pub proof fn lemma_aliasing(heap: Seq<Seq<i64>>, p: Value, k: i64, j: i64, cell: i64)
    requires
        p is ValPtr,
        fits(p->ptr + k),
        fits(p->ptr + j),
        spec_store(p.add_spec(Value::ValInt(k))->Ok_0, Value::ValInt(cell), heap) is Ok,
    ensures
        ({
            let q = p.add_spec(Value::ValInt(k))->Ok_0;
            let r = p.add_spec(Value::ValInt(j))->Ok_0;
            let after = spec_store(q, Value::ValInt(cell), heap)->Ok_0;
            &&& j == k ==> spec_load(r, after) == Ok::<Value, Fault>(Value::ValInt(cell))
            &&& j != k ==> spec_load(r, after) == spec_load(r, heap)
        }),
{
}

/// A store through a pointer changes no cell of another buffer, and neither
/// the number of buffers nor the length of any.
pub proof fn lemma_store_is_local(heap: Seq<Seq<i64>>, p: Value, cell: i64, r: Value)
    requires
        spec_store(p, Value::ValInt(cell), heap) is Ok,
        r is ValPtr,
        p->mem != r->mem,
    ensures
        ({
            let after = spec_store(p, Value::ValInt(cell), heap)->Ok_0;
            &&& spec_load(r, after) == spec_load(r, heap)
            &&& after.len() == heap.len()
            &&& forall|m: int| 0 <= m < heap.len() ==> (#[trigger] after[m]).len() == heap[m].len()
        }),
{
}

/// A pointer that was just allocated addresses a buffer that no pointer into
/// the heap before addressed, and loads zero at every offset within its size.
pub proof fn lemma_fresh_buffer(heap: Seq<Seq<i64>>, size: usize, k: i64)
    requires
        heap.len() <= usize::MAX,
        0 <= k < size,
    ensures
        ({
            let p = Value::ValPtr { mem: heap.len() as usize, size, ptr: 0 };
            let after = heap.push(zeroed(size as nat));
            &&& !addresses(p, heap)
            &&& spec_load(p.add_spec(Value::ValInt(k))->Ok_0, after) == Ok::<Value, Fault>(
                Value::ValInt(0),
            )
            &&& forall|r: Value| addresses(r, heap) ==> spec_load(r, after) == spec_load(r, heap)
        }),
{
}

} // verus!
