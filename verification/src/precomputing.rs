//! Operand preparation: broadcast alignment of binary operands, row-major
//! materialization through an index/validity map, and reduction-axis
//! decomposition, together with the reference iteration-order semantics of
//! the reductions.

use vstd::prelude::*;

use crate::tensor::{dims_positive, dims_prod, element_count, lemma_prefix_prod_le,
    lemma_prod_positive, AirTensor};

verus! {

/// Two same-rank shapes may be combined element-wise: each dimension pair is
/// equal or one member is 1.
pub open spec fn broadcast_ok(a: Seq<usize>, b: Seq<usize>) -> bool {
    &&& a.len() == b.len()
    &&& forall|j: int|
        0 <= j < a.len() ==> (#[trigger] a[j] == b[j] || a[j] == 1 || b[j] == 1)
}

/// The broadcast result shape: the larger member of each dimension pair.
pub open spec fn broadcast_shape(a: Seq<usize>, b: Seq<usize>) -> Seq<usize> {
    Seq::new(a.len(), |j: int| if a[j] >= b[j] { a[j] } else { b[j] })
}

/// A source shape is compatible with an output shape when every source
/// dimension equals the output dimension or is 1 (and so is broadcast).
pub open spec fn source_compatible(out_dims: Seq<usize>, src_dims: Seq<usize>) -> bool {
    &&& out_dims.len() == src_dims.len()
    &&& forall|j: int|
        0 <= j < src_dims.len() ==> (#[trigger] src_dims[j] == out_dims[j] || src_dims[j] == 1)
}

/// Row-major offset of the source element that flat output position `i`
/// reads, when a tensor of shape `src_dims` is broadcast to `out_dims`:
/// size-1 source dimensions contribute no offset.
pub open spec fn source_offset_spec(i: int, out_dims: Seq<usize>, src_dims: Seq<usize>) -> int
    decreases out_dims.len(),
{
    if out_dims.len() == 0 {
        0
    } else {
        let d = out_dims.last() as int;
        let rest = source_offset_spec(i / d, out_dims.drop_last(), src_dims.drop_last());
        rest * src_dims.last() + if src_dims.last() == 1 {
            0int
        } else {
            i % d
        }
    }
}

/// A source shape never describes more elements than the output shape it is
/// compatible with.
pub proof fn lemma_source_prod_le(out_dims: Seq<usize>, src_dims: Seq<usize>)
    requires
        source_compatible(out_dims, src_dims),
        dims_positive(out_dims),
        dims_positive(src_dims),
    ensures
        dims_prod(src_dims) <= dims_prod(out_dims),
    decreases out_dims.len(),
{
    if out_dims.len() > 0 {
        assert(source_compatible(out_dims.drop_last(), src_dims.drop_last()));
        assert(dims_positive(out_dims.drop_last()));
        assert(dims_positive(src_dims.drop_last()));
        lemma_source_prod_le(out_dims.drop_last(), src_dims.drop_last());
        lemma_prod_positive(src_dims.drop_last());
        lemma_prod_positive(out_dims.drop_last());
        assert(dims_prod(src_dims.drop_last()) * (src_dims.last() as int) <= dims_prod(
            out_dims.drop_last(),
        ) * (out_dims.last() as int)) by (nonlinear_arith)
            requires
                0 < dims_prod(src_dims.drop_last()) <= dims_prod(out_dims.drop_last()),
                0 < src_dims.last() as int <= out_dims.last() as int,
        ;
        assert(src_dims.last() <= out_dims.last());
    }
}

/// The source offset stays inside the source element count.
pub proof fn lemma_source_offset_bound(i: int, out_dims: Seq<usize>, src_dims: Seq<usize>)
    requires
        source_compatible(out_dims, src_dims),
        dims_positive(out_dims),
        dims_positive(src_dims),
        0 <= i < dims_prod(out_dims),
    ensures
        0 <= source_offset_spec(i, out_dims, src_dims) < dims_prod(src_dims),
    decreases out_dims.len(),
{
    if out_dims.len() == 0 {
    } else {
        let d = out_dims.last() as int;
        let sd = src_dims.last() as int;
        let op = dims_prod(out_dims.drop_last());
        let sp = dims_prod(src_dims.drop_last());
        assert(dims_positive(out_dims.drop_last()));
        assert(dims_positive(src_dims.drop_last()));
        assert(source_compatible(out_dims.drop_last(), src_dims.drop_last()));
        assert(dims_prod(out_dims) == op * d);
        lemma_prod_positive(out_dims.drop_last());
        assert(0 <= i / d < op) by (nonlinear_arith)
            requires
                0 <= i,
                i < op * d,
                0 < d,
                0 < op,
        ;
        lemma_source_offset_bound(i / d, out_dims.drop_last(), src_dims.drop_last());
        let rest = source_offset_spec(i / d, out_dims.drop_last(), src_dims.drop_last());
        if sd == 1 {
            assert(source_offset_spec(i, out_dims, src_dims) == rest * 1 + 0);
            assert(dims_prod(src_dims) == sp * 1);
        } else {
            assert(sd == d);
            assert(0 <= i % d < d) by (nonlinear_arith)
                requires
                    0 < d,
                    0 <= i,
            ;
            assert(rest * sd + i % d < sp * sd) by (nonlinear_arith)
                requires
                    0 <= rest,
                    rest < sp,
                    0 <= i % d < sd,
                    0 < sd,
            ;
            assert(0 <= rest * sd) by (nonlinear_arith)
                requires
                    0 <= rest,
                    0 < sd,
            ;
            assert(dims_prod(src_dims) == sp * sd);
        }
    }
}

/// Computes the row-major source offset read by flat output position `i`.
pub fn source_offset(i: usize, out_dims: &[usize], src_dims: &[usize]) -> (off: usize)
    requires
        source_compatible(out_dims@, src_dims@),
        dims_positive(out_dims@),
        dims_positive(src_dims@),
        i < dims_prod(out_dims@),
        dims_prod(out_dims@) <= usize::MAX,
    ensures
        off == source_offset_spec(i as int, out_dims@, src_dims@),
        off < dims_prod(src_dims@),
    decreases out_dims@.len(),
{
    proof {
        lemma_source_offset_bound(i as int, out_dims@, src_dims@);
    }
    if out_dims.len() == 0 {
        0
    } else {
        let n: usize = out_dims.len();
        let d: usize = *vstd::slice::slice_index_get(out_dims, n - 1);
        let sd: usize = *vstd::slice::slice_index_get(src_dims, n - 1);
        let out_front = vstd::slice::slice_subrange(out_dims, 0, n - 1);
        let src_front = vstd::slice::slice_subrange(src_dims, 0, n - 1);
        proof {
            assert(out_front@ =~= out_dims@.drop_last());
            assert(src_front@ =~= src_dims@.drop_last());
            let op = dims_prod(out_dims@.drop_last());
            lemma_prod_positive(out_dims@.drop_last());
            assert(dims_prod(out_dims@) == op * (d as int));
            assert(0 <= (i as int) / (d as int) < op) by (nonlinear_arith)
                requires
                    0 <= i as int,
                    (i as int) < op * (d as int),
                    0 < d as int,
                    0 < op,
            ;
            assert(op <= dims_prod(out_dims@)) by (nonlinear_arith)
                requires
                    0 < op,
                    0 < d as int,
                    dims_prod(out_dims@) == op * (d as int),
            ;
            lemma_source_offset_bound((i as int) / (d as int), out_dims@.drop_last(),
                src_dims@.drop_last());
            lemma_prod_positive(src_dims@.drop_last());
        }
        let rest: usize = source_offset(i / d, out_front, src_front);
        let ghost sp = dims_prod(src_dims@.drop_last());
        proof {
            assert(dims_prod(src_dims@) == sp * (sd as int));
            if sd != 1 {
                assert((rest as int) * (sd as int) + (i as int) % (d as int) < sp * (sd as int))
                    by (nonlinear_arith)
                    requires
                        0 <= rest as int,
                        (rest as int) < sp,
                        0 <= (i as int) % (d as int) < sd as int,
                        0 < sd as int,
                ;
            }
            lemma_source_prod_le(out_dims@, src_dims@);
            lemma_source_offset_bound(i as int, out_dims@, src_dims@);
        }
        if sd == 1 {
            rest
        } else {
            rest * sd + i % d
        }
    }
}

/// Materializes both operands of a binary operation over their broadcast
/// shape: each result buffer has one element per broadcast position, in
/// row-major order, drawn from its source through [`source_offset_spec`].
pub fn precompile_binary_op<'a, F: Copy>(lhs: &AirTensor<'a, F>, rhs: &AirTensor<'a, F>) -> (r: (
    Vec<F>,
    Vec<F>,
))
    requires
        broadcast_ok(lhs.dims_seq(), rhs.dims_seq()),
        dims_positive(lhs.dims_seq()),
        dims_positive(rhs.dims_seq()),
        lhs.data_seq().len() >= dims_prod(lhs.dims_seq()),
        rhs.data_seq().len() >= dims_prod(rhs.dims_seq()),
        dims_prod(broadcast_shape(lhs.dims_seq(), rhs.dims_seq())) <= usize::MAX,
    ensures
        r.0@.len() == dims_prod(broadcast_shape(lhs.dims_seq(), rhs.dims_seq())),
        r.1@.len() == r.0@.len(),
        forall|i: int|
            0 <= i < r.0@.len() ==> #[trigger] r.0@[i] == lhs.data_seq()[source_offset_spec(
                i,
                broadcast_shape(lhs.dims_seq(), rhs.dims_seq()),
                lhs.dims_seq(),
            )],
        forall|i: int|
            0 <= i < r.1@.len() ==> #[trigger] r.1@[i] == rhs.data_seq()[source_offset_spec(
                i,
                broadcast_shape(lhs.dims_seq(), rhs.dims_seq()),
                rhs.dims_seq(),
            )],
{
    let ghost out_shape = broadcast_shape(lhs.dims_seq(), rhs.dims_seq());
    let a_dims = lhs.dims();
    let b_dims = rhs.dims();
    let mut out_dims: Vec<usize> = Vec::new();
    let mut j: usize = 0;
    while j < a_dims.len()
        invariant
            0 <= j <= a_dims@.len(),
            a_dims@ == lhs.dims_seq(),
            b_dims@ == rhs.dims_seq(),
            broadcast_ok(lhs.dims_seq(), rhs.dims_seq()),
            out_shape == broadcast_shape(lhs.dims_seq(), rhs.dims_seq()),
            out_dims@.len() == j,
            forall|k: int| 0 <= k < j ==> #[trigger] out_dims@[k] == out_shape[k],
        decreases a_dims@.len() - j,
    {
        let ad: usize = *vstd::slice::slice_index_get(a_dims, j);
        let bd: usize = *vstd::slice::slice_index_get(b_dims, j);
        proof {
            assert(out_shape[j as int] == if ad >= bd {
                ad
            } else {
                bd
            });
        }
        out_dims.push(if ad >= bd {
            ad
        } else {
            bd
        });
        j = j + 1;
    }
    proof {
        assert(out_dims@ =~= out_shape);
        assert(dims_positive(out_shape));
        assert(source_compatible(out_shape, lhs.dims_seq()));
        assert(source_compatible(out_shape, rhs.dims_seq()));
    }
    let total: usize = element_count(out_dims.as_slice());
    let a_data = lhs.data();
    let b_data = rhs.data();
    let mut a_out: Vec<F> = Vec::new();
    let mut b_out: Vec<F> = Vec::new();
    let mut i: usize = 0;
    while i < total
        invariant
            0 <= i <= total,
            total == dims_prod(out_shape),
            out_dims@ == out_shape,
            out_shape == broadcast_shape(lhs.dims_seq(), rhs.dims_seq()),
            a_dims@ == lhs.dims_seq(),
            b_dims@ == rhs.dims_seq(),
            a_data@ == lhs.data_seq(),
            b_data@ == rhs.data_seq(),
            dims_positive(lhs.dims_seq()),
            dims_positive(rhs.dims_seq()),
            dims_positive(out_shape),
            source_compatible(out_shape, lhs.dims_seq()),
            source_compatible(out_shape, rhs.dims_seq()),
            lhs.data_seq().len() >= dims_prod(lhs.dims_seq()),
            rhs.data_seq().len() >= dims_prod(rhs.dims_seq()),
            a_out@.len() == i,
            b_out@.len() == i,
            forall|k: int|
                0 <= k < i ==> #[trigger] a_out@[k] == lhs.data_seq()[source_offset_spec(
                    k,
                    out_shape,
                    lhs.dims_seq(),
                )],
            forall|k: int|
                0 <= k < i ==> #[trigger] b_out@[k] == rhs.data_seq()[source_offset_spec(
                    k,
                    out_shape,
                    rhs.dims_seq(),
                )],
        decreases total - i,
    {
        let a_off: usize = source_offset(i, out_dims.as_slice(), a_dims);
        let b_off: usize = source_offset(i, out_dims.as_slice(), b_dims);
        a_out.push(*vstd::slice::slice_index_get(a_data, a_off));
        b_out.push(*vstd::slice::slice_index_get(b_data, b_off));
        i = i + 1;
    }
    (a_out, b_out)
}

/// Copies `data` into a fresh row-major buffer through an index/validity map:
/// position `i` receives `data[index_map[i]]` where `valid[i]` holds and the
/// fill element elsewhere.
pub fn materialize<F: Copy>(data: &[F], index_map: &[usize], valid: &[bool], fill: F) -> (out: Vec<
    F,
>)
    requires
        index_map@.len() == valid@.len(),
        forall|i: int| 0 <= i < valid@.len() && valid@[i] ==> #[trigger] index_map@[i] < data@.len(),
    ensures
        out@.len() == index_map@.len(),
        forall|i: int|
            0 <= i < out@.len() ==> #[trigger] out@[i] == if valid@[i] {
                data@[index_map@[i] as int]
            } else {
                fill
            },
{
    let mut out: Vec<F> = Vec::new();
    let mut i: usize = 0;
    while i < index_map.len()
        invariant
            0 <= i <= index_map@.len(),
            index_map@.len() == valid@.len(),
            forall|k: int|
                0 <= k < valid@.len() && valid@[k] ==> #[trigger] index_map@[k] < data@.len(),
            out@.len() == i,
            forall|k: int|
                0 <= k < i ==> #[trigger] out@[k] == if valid@[k] {
                    data@[index_map@[k] as int]
                } else {
                    fill
                },
        decreases index_map@.len() - i,
    {
        let v: F = if *vstd::slice::slice_index_get(valid, i) {
            *vstd::slice::slice_index_get(data, *vstd::slice::slice_index_get(index_map, i))
        } else {
            fill
        };
        out.push(v);
        i = i + 1;
    }
    out
}

/// Splitting a dimension list splits its product.
pub proof fn lemma_prod_split(s: Seq<usize>, k: int)
    requires
        0 <= k <= s.len(),
    ensures
        dims_prod(s) == dims_prod(s.take(k)) * dims_prod(s.skip(k)),
    decreases s.len(),
{
    if k == s.len() {
        assert(s.take(k) =~= s);
        assert(s.skip(k) =~= Seq::<usize>::empty());
    } else {
        let s0 = s.drop_last();
        lemma_prod_split(s0, k);
        assert(s.take(k) =~= s0.take(k));
        assert(s.skip(k).drop_last() =~= s0.skip(k));
        assert(s.skip(k).last() == s.last());
        assert(dims_prod(s.skip(k)) == dims_prod(s0.skip(k)) * (s.last() as int));
        assert(dims_prod(s) == dims_prod(s0) * (s.last() as int));
        assert(dims_prod(s0) * (s.last() as int) == dims_prod(s0.take(k)) * (dims_prod(s0.skip(k))
            * (s.last() as int))) by (nonlinear_arith)
            requires
                dims_prod(s0) == dims_prod(s0.take(k)) * dims_prod(s0.skip(k)),
        ;
    }
}

/// The product of a non-empty dimension list is its head times the product
/// of its tail.
pub proof fn lemma_prod_head(s: Seq<usize>)
    requires
        s.len() > 0,
    ensures
        dims_prod(s) == (s[0] as int) * dims_prod(s.drop_first()),
    decreases s.len(),
{
    if s.len() == 1 {
        assert(s.drop_last() =~= Seq::<usize>::empty());
        assert(s.drop_first() =~= Seq::<usize>::empty());
    } else {
        let s0 = s.drop_last();
        lemma_prod_head(s0);
        assert(s.drop_first().drop_last() =~= s0.drop_first());
        assert(s.drop_first().last() == s.last());
        assert(dims_prod(s.drop_first()) == dims_prod(s0.drop_first()) * (s.last() as int));
        assert(s0[0] == s[0]);
        assert(dims_prod(s0) * (s.last() as int) == (s[0] as int) * (dims_prod(s0.drop_first())
            * (s.last() as int))) by (nonlinear_arith)
            requires
                dims_prod(s0) == (s[0] as int) * dims_prod(s0.drop_first()),
        ;
    }
}

/// The three reduction factors multiply back to the whole element count.
pub proof fn lemma_reduce_factors(dims: Seq<usize>, axis: int)
    requires
        0 <= axis < dims.len(),
    ensures
        dims_prod(dims) == dims_prod(dims.take(axis)) * (dims[axis] as int) * dims_prod(
            dims.skip(axis + 1),
        ),
{
    lemma_prod_split(dims, axis);
    let tail = dims.skip(axis);
    assert(tail.len() > 0);
    lemma_prod_head(tail);
    assert(tail[0] == dims[axis]);
    assert(tail.drop_first() =~= dims.skip(axis + 1));
    assert(dims_prod(dims.take(axis)) * ((dims[axis] as int) * dims_prod(dims.skip(axis + 1)))
        == dims_prod(dims.take(axis)) * (dims[axis] as int) * dims_prod(dims.skip(axis + 1)))
        by (nonlinear_arith);
}

/// Decomposes a shape around a reduction axis into the element count before
/// the axis, the element count after it, and the axis length itself. Each of
/// the two outer counts is at least 1, and the three factors multiply back to
/// the whole element count.
pub fn reduce_decomposition(dims: &[usize], axis: usize) -> (r: (usize, usize, usize))
    requires
        axis < dims@.len(),
        dims_positive(dims@),
        dims_prod(dims@) <= usize::MAX,
    ensures
        r.0 == dims_prod(dims@.take(axis as int)),
        r.1 == dims_prod(dims@.skip(axis as int + 1)),
        r.2 == dims@[axis as int],
        1 <= r.0,
        1 <= r.1,
        1 <= r.2,
        (r.0 as int) * (r.2 as int) * (r.1 as int) == dims_prod(dims@),
{
    proof {
        lemma_reduce_factors(dims@, axis as int);
        lemma_prod_positive(dims@);
        assert(dims_positive(dims@.take(axis as int)));
        assert(dims_positive(dims@.skip(axis as int + 1)));
        lemma_prod_positive(dims@.take(axis as int));
        lemma_prod_positive(dims@.skip(axis as int + 1));
        let f = dims_prod(dims@.take(axis as int));
        let d = dims@[axis as int] as int;
        let b = dims_prod(dims@.skip(axis as int + 1));
        assert(f <= f * d * b && b <= f * d * b) by (nonlinear_arith)
            requires
                0 < f,
                0 < d,
                0 < b,
        ;
    }
    let n: usize = dims.len();
    let front: usize = element_count(vstd::slice::slice_subrange(dims, 0, axis));
    let back: usize = element_count(vstd::slice::slice_subrange(dims, axis + 1, n));
    let dim: usize = *vstd::slice::slice_index_get(dims, axis);
    proof {
        assert(dims@.subrange(0, axis as int) =~= dims@.take(axis as int));
        assert(dims@.subrange(axis as int + 1, dims@.len() as int) =~= dims@.skip(axis as int + 1));
    }
    (front, back, dim)
}

/// Sum of the `k` input elements that feed one reduction output slot: they
/// start at `base` and are `step` apart.
pub open spec fn slot_sum(data: Seq<i64>, base: int, step: int, k: int) -> int
    decreases k,
{
    if k <= 0 {
        0
    } else {
        slot_sum(data, base, step, k - 1) + data[base + (k - 1) * step]
    }
}

/// Maximum of the `k` input elements that feed one reduction output slot.
pub open spec fn slot_max(data: Seq<i64>, base: int, step: int, k: int) -> int
    decreases k,
{
    if k <= 1 {
        data[base] as int
    } else {
        let prev = slot_max(data, base, step, k - 1);
        if data[base + (k - 1) * step] > prev {
            data[base + (k - 1) * step] as int
        } else {
            prev
        }
    }
}

/// The first element of reduction slot `(f, b)` and every element the slot
/// reads lie inside the decomposed buffer.
pub proof fn lemma_base_in_bounds(f: int, b: int, front: int, dim: int, back: int)
    requires
        0 <= f < front,
        0 <= b < back,
        1 <= dim,
        1 <= back,
    ensures
        0 <= (f * dim) * back + b,
        (f * dim) * back + b + (dim - 1) * back < front * dim * back,
        0 <= f * dim,
        f * dim <= (f * dim) * back + b,
{
    assert((f * dim) * back + b + (dim - 1) * back < front * dim * back) by (nonlinear_arith)
        requires
            0 <= f < front,
            0 <= b < back,
            1 <= dim,
            1 <= back,
    ;
    assert(0 <= f * dim && f * dim <= (f * dim) * back + b) by (nonlinear_arith)
        requires
            0 <= f,
            0 <= b,
            1 <= dim,
            1 <= back,
    ;
}

/// Reference semantics of the summation reduction over a decomposed shape:
/// output slot `(f, b)` is the sum of the `dim` input elements that start at
/// flat position `(f * dim) * back + b` and lie `back` apart.
pub fn sum_reduce_values(data: &Vec<i64>, front: usize, back: usize, dim: usize) -> (out: Vec<i64>)
    requires
        1 <= front,
        1 <= back,
        1 <= dim,
        data@.len() == (front as int) * (dim as int) * (back as int),
        forall|i: int| 0 <= i < data@.len() ==> -crate::fixed_point::HALF_RANGE
            <= #[trigger] data@[i] <= crate::fixed_point::HALF_RANGE,
        (dim as int) * (crate::fixed_point::HALF_RANGE as int) <= i64::MAX,
    ensures
        out@.len() == (front as int) * (back as int),
        forall|f: int, b: int|
            0 <= f < front && 0 <= b < back ==> #[trigger] out@[f * (back as int) + b] == slot_sum(
                data@,
                (f * (dim as int)) * (back as int) + b,
                back as int,
                dim as int,
            ),
{
    let ghost half = crate::fixed_point::HALF_RANGE as int;
    let n_data: usize = data.len();
    proof {
        assert(data@.len() <= usize::MAX);
    }
    let mut out: Vec<i64> = Vec::new();
    let mut f: usize = 0;
    while f < front
        invariant
            0 <= f <= front,
            1 <= back,
            1 <= dim,
            data@.len() == (front as int) * (dim as int) * (back as int),
            data@.len() <= usize::MAX,
            half == crate::fixed_point::HALF_RANGE as int,
            forall|i: int| 0 <= i < data@.len() ==> -crate::fixed_point::HALF_RANGE
                <= #[trigger] data@[i] <= crate::fixed_point::HALF_RANGE,
            (dim as int) * (crate::fixed_point::HALF_RANGE as int) <= i64::MAX,
            out@.len() == f * (back as int),
            forall|g: int, b: int|
                0 <= g < f && 0 <= b < back ==> #[trigger] out@[g * (back as int) + b]
                    == slot_sum(
                    data@,
                    (g * (dim as int)) * (back as int) + b,
                    back as int,
                    dim as int,
                ),
        decreases front - f,
    {
        let mut b: usize = 0;
        while b < back
            invariant
                0 <= b <= back,
                f < front,
                1 <= back,
                1 <= dim,
                data@.len() == (front as int) * (dim as int) * (back as int),
                data@.len() <= usize::MAX,
                half == crate::fixed_point::HALF_RANGE as int,
                forall|i: int| 0 <= i < data@.len() ==> -crate::fixed_point::HALF_RANGE
                    <= #[trigger] data@[i] <= crate::fixed_point::HALF_RANGE,
                (dim as int) * (crate::fixed_point::HALF_RANGE as int) <= i64::MAX,
                out@.len() == f * (back as int) + b,
                forall|g: int, c: int|
                    0 <= g < f && 0 <= c < back ==> #[trigger] out@[g * (back as int) + c]
                        == slot_sum(
                        data@,
                        (g * (dim as int)) * (back as int) + c,
                        back as int,
                        dim as int,
                    ),
                forall|c: int|
                    0 <= c < b ==> #[trigger] out@[f * (back as int) + c] == slot_sum(
                        data@,
                        (f * (dim as int)) * (back as int) + c,
                        back as int,
                        dim as int,
                    ),
            decreases back - b,
        {
            proof {
                lemma_base_in_bounds(f as int, b as int, front as int, dim as int, back as int);
            }
            let base: usize = (f * dim) * back + b;
            let mut acc: i64 = 0;
            let mut idx: usize = base;
            let mut k: usize = 0;
            while k < dim
                invariant
                    0 <= k <= dim,
                    data@.len() == (front as int) * (dim as int) * (back as int),
                    data@.len() <= usize::MAX,
                    forall|i: int| 0 <= i < data@.len() ==> -crate::fixed_point::HALF_RANGE
                        <= #[trigger] data@[i] <= crate::fixed_point::HALF_RANGE,
                    (dim as int) * (crate::fixed_point::HALF_RANGE as int) <= i64::MAX,
                    0 <= base,
                    base + ((dim as int) - 1) * (back as int) < data@.len(),
                    1 <= back,
                    1 <= dim,
                    k < dim ==> idx == base + k * (back as int),
                    acc == slot_sum(data@, base as int, back as int, k as int),
                    -(k as int) * half <= acc <= (k as int) * half,
                    half == crate::fixed_point::HALF_RANGE as int,
                decreases dim - k,
            {
                proof {
                    assert(base + (k as int) * (back as int) <= base + ((dim as int) - 1) * (
                    back as int)) by (nonlinear_arith)
                        requires
                            0 <= k < dim as int,
                            1 <= back as int,
                    ;
                    assert(-(k as int) * half - half == -((k as int) + 1) * half)
                        by (nonlinear_arith);
                    assert((k as int) * half + half == ((k as int) + 1) * half)
                        by (nonlinear_arith);
                    assert(((k as int) + 1) * half <= (dim as int) * half) by (nonlinear_arith)
                        requires
                            (k as int) + 1 <= dim as int,
                            0 < half,
                    ;
                }
                acc = acc + data[idx];
                k = k + 1;
                if k < dim {
                    proof {
                        assert(base + (k as int) * (back as int) <= base + ((dim as int) - 1) * (
                        back as int)) by (nonlinear_arith)
                            requires
                                0 <= k as int,
                                (k as int) < dim as int,
                                1 <= back as int,
                        ;
                        assert((k as int) * (back as int) == ((k as int) - 1) * (back as int) + (
                        back as int)) by (nonlinear_arith);
                    }
                    idx = idx + back;
                }
            }
            out.push(acc);
            proof {
                assert forall|g: int, c: int| 0 <= g < f && 0 <= c < back implies (#[trigger] (g
                    * (back as int) + c)) < (f as int) * (back as int) + b by {
                    assert(g * (back as int) + c < (f as int) * (back as int) + b)
                        by (nonlinear_arith)
                        requires
                            0 <= g,
                            g < f as int,
                            0 <= c < back as int,
                            0 <= b,
                    ;
                }
            }
            b = b + 1;
        }
        proof {
            assert((f as int) * (back as int) + (back as int) == ((f as int) + 1) * (back as int))
                by (nonlinear_arith);
        }
        f = f + 1;
    }
    out
}

/// Reference semantics of the maximum reduction over a decomposed shape:
/// output slot `(f, b)` is the largest of the `dim` input elements that start
/// at flat position `(f * dim) * back + b` and lie `back` apart.
pub fn max_reduce_values(data: &Vec<i64>, front: usize, back: usize, dim: usize) -> (out: Vec<i64>)
    requires
        1 <= front,
        1 <= back,
        1 <= dim,
        data@.len() == (front as int) * (dim as int) * (back as int),
    ensures
        out@.len() == (front as int) * (back as int),
        forall|f: int, b: int|
            0 <= f < front && 0 <= b < back ==> #[trigger] out@[f * (back as int) + b] == slot_max(
                data@,
                (f * (dim as int)) * (back as int) + b,
                back as int,
                dim as int,
            ),
{
    let n_data: usize = data.len();
    proof {
        assert(data@.len() <= usize::MAX);
    }
    let mut out: Vec<i64> = Vec::new();
    let mut f: usize = 0;
    while f < front
        invariant
            0 <= f <= front,
            1 <= back,
            1 <= dim,
            data@.len() == (front as int) * (dim as int) * (back as int),
            data@.len() <= usize::MAX,
            out@.len() == f * (back as int),
            forall|g: int, b: int|
                0 <= g < f && 0 <= b < back ==> #[trigger] out@[g * (back as int) + b]
                    == slot_max(
                    data@,
                    (g * (dim as int)) * (back as int) + b,
                    back as int,
                    dim as int,
                ),
        decreases front - f,
    {
        let mut b: usize = 0;
        while b < back
            invariant
                0 <= b <= back,
                f < front,
                1 <= back,
                1 <= dim,
                data@.len() == (front as int) * (dim as int) * (back as int),
                data@.len() <= usize::MAX,
                out@.len() == f * (back as int) + b,
                forall|g: int, c: int|
                    0 <= g < f && 0 <= c < back ==> #[trigger] out@[g * (back as int) + c]
                        == slot_max(
                        data@,
                        (g * (dim as int)) * (back as int) + c,
                        back as int,
                        dim as int,
                    ),
                forall|c: int|
                    0 <= c < b ==> #[trigger] out@[f * (back as int) + c] == slot_max(
                        data@,
                        (f * (dim as int)) * (back as int) + c,
                        back as int,
                        dim as int,
                    ),
            decreases back - b,
        {
            proof {
                lemma_base_in_bounds(f as int, b as int, front as int, dim as int, back as int);
            }
            let base: usize = (f * dim) * back + b;
            let mut acc: i64 = data[base];
            let mut idx: usize = base;
            let mut k: usize = 1;
            while k < dim
                invariant
                    1 <= k <= dim,
                    data@.len() == (front as int) * (dim as int) * (back as int),
                    data@.len() <= usize::MAX,
                    0 <= base,
                    base + ((dim as int) - 1) * (back as int) < data@.len(),
                    1 <= back,
                    idx == base + (k - 1) * (back as int),
                    acc == slot_max(data@, base as int, back as int, k as int),
                decreases dim - k,
            {
                proof {
                    assert(base + (k as int) * (back as int) <= base + ((dim as int) - 1) * (
                    back as int)) by (nonlinear_arith)
                        requires
                            1 <= k,
                            (k as int) < dim as int,
                            1 <= back as int,
                    ;
                    assert(base + ((k as int) - 1) * (back as int) + (back as int) == base + (
                    k as int) * (back as int)) by (nonlinear_arith);
                }
                idx = idx + back;
                let v: i64 = data[idx];
                if v > acc {
                    acc = v;
                }
                k = k + 1;
            }
            out.push(acc);
            proof {
                assert forall|g: int, c: int| 0 <= g < f && 0 <= c < back implies (#[trigger] (g
                    * (back as int) + c)) < (f as int) * (back as int) + b by {
                    assert(g * (back as int) + c < (f as int) * (back as int) + b)
                        by (nonlinear_arith)
                        requires
                            0 <= g,
                            g < f as int,
                            0 <= c < back as int,
                            0 <= b,
                    ;
                }
            }
            b = b + 1;
        }
        proof {
            assert((f as int) * (back as int) + (back as int) == ((f as int) + 1) * (back as int))
                by (nonlinear_arith);
        }
        f = f + 1;
    }
    out
}

/// Element-wise sum of two aligned operand buffers of raw fixed-point values.
pub fn elementwise_add(a: &Vec<i64>, b: &Vec<i64>) -> (out: Vec<i64>)
    requires
        a@.len() == b@.len(),
        forall|i: int| 0 <= i < a@.len() ==> -crate::fixed_point::HALF_RANGE <= #[trigger] a@[i]
            <= crate::fixed_point::HALF_RANGE,
        forall|i: int| 0 <= i < b@.len() ==> -crate::fixed_point::HALF_RANGE <= #[trigger] b@[i]
            <= crate::fixed_point::HALF_RANGE,
    ensures
        out@.len() == a@.len(),
        forall|i: int| 0 <= i < out@.len() ==> #[trigger] out@[i] == a@[i] + b@[i],
{
    let mut out: Vec<i64> = Vec::new();
    let mut i: usize = 0;
    while i < a.len()
        invariant
            0 <= i <= a@.len(),
            a@.len() == b@.len(),
            forall|j: int| 0 <= j < a@.len() ==> -crate::fixed_point::HALF_RANGE <= #[trigger] a@[j]
                <= crate::fixed_point::HALF_RANGE,
            forall|j: int| 0 <= j < b@.len() ==> -crate::fixed_point::HALF_RANGE <= #[trigger] b@[j]
                <= crate::fixed_point::HALF_RANGE,
            out@.len() == i,
            forall|j: int| 0 <= j < i ==> #[trigger] out@[j] == a@[j] + b@[j],
        decreases a@.len() - i,
    {
        out.push(a[i] + b[i]);
        i = i + 1;
    }
    out
}

} // verus!
