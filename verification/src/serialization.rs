//! Flat operand layout per the VM calling convention.
//!
//! Every operand set is an ordered sequence of raw fixed-point values. A
//! unary operation receives its single flattened buffer; a binary operation
//! receives the two aligned buffers one after the other; a reduction
//! receives its three decomposition scalars followed by the flattened input.

use vstd::prelude::*;

verus! {

/// Serializes the operand of a unary operation: the flattened buffer as it
/// stands.
pub fn serialize_unary_op(data: &[i64]) -> (out: Vec<i64>)
    ensures
        out@ == data@,
{
    let mut out: Vec<i64> = Vec::new();
    let mut i: usize = 0;
    while i < data.len()
        invariant
            0 <= i <= data@.len(),
            out@ == data@.take(i as int),
        decreases data@.len() - i,
    {
        out.push(*vstd::slice::slice_index_get(data, i));
        proof {
            assert(data@.take(i + 1) =~= data@.take(i as int).push(data@[i as int]));
        }
        i = i + 1;
    }
    proof {
        assert(data@.take(data@.len() as int) =~= data@);
    }
    out
}

/// Serializes the two aligned operands of a binary operation: the left
/// buffer followed by the right buffer of equal length.
pub fn serialize_inputs_binary_op(lhs: Vec<i64>, rhs: Vec<i64>) -> (out: Vec<i64>)
    requires
        lhs@.len() == rhs@.len(),
    ensures
        out@ == lhs@ + rhs@,
{
    let ghost l = lhs@;
    let ghost r = rhs@;
    let mut out = lhs;
    let mut tail = rhs;
    out.append(&mut tail);
    out
}

/// Serializes a reduction operand set: the three decomposition scalars
/// (count before the axis, count after it, axis length), then the flattened
/// input.
pub fn serialize_reduce_op(data: &[i64], front: usize, back: usize, dim: usize) -> (out: Vec<
    i64,
>)
    requires
        front <= i64::MAX,
        back <= i64::MAX,
        dim <= i64::MAX,
    ensures
        out@.len() == 3 + data@.len(),
        out@[0] == front as i64,
        out@[1] == back as i64,
        out@[2] == dim as i64,
        forall|i: int| 0 <= i < data@.len() ==> out@[3 + i] == #[trigger] data@[i],
{
    let mut out: Vec<i64> = Vec::new();
    out.push(front as i64);
    out.push(back as i64);
    out.push(dim as i64);
    let mut i: usize = 0;
    while i < data.len()
        invariant
            0 <= i <= data@.len(),
            out@.len() == 3 + i,
            out@[0] == front as i64,
            out@[1] == back as i64,
            out@[2] == dim as i64,
            forall|j: int| 0 <= j < i ==> out@[3 + j] == #[trigger] data@[j],
        decreases data@.len() - i,
    {
        out.push(*vstd::slice::slice_index_get(data, i));
        i = i + 1;
    }
    out
}

} // verus!
