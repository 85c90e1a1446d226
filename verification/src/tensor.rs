//! Dimension-tagged flat tensor buffers and SIMD lane packing.
//!
//! An [`AirTensor`] pairs a flat element buffer, either borrowed or owned,
//! with an ordered list of positive dimensions. Lane packing groups the
//! elements of such a buffer into fixed-width lanes for batched field
//! arithmetic; positions beyond the logical element count are zero-padded.

use vstd::prelude::*;

verus! {

/// Product of a dimension list; the empty list has product 1.
pub open spec fn dims_prod(dims: Seq<usize>) -> int
    decreases dims.len(),
{
    if dims.len() == 0 {
        1
    } else {
        dims_prod(dims.drop_last()) * dims.last()
    }
}

/// All dimensions are positive.
pub open spec fn dims_positive(dims: Seq<usize>) -> bool {
    forall|j: int| 0 <= j < dims.len() ==> 1 <= #[trigger] dims[j]
}

/// With positive dimensions, every prefix product is positive and no larger
/// than the whole product.
pub proof fn lemma_prefix_prod_le(dims: Seq<usize>, i: int)
    requires
        dims_positive(dims),
        0 <= i <= dims.len(),
    ensures
        0 < dims_prod(dims.take(i)) <= dims_prod(dims),
    decreases dims.len() - i,
{
    if i == dims.len() {
        assert(dims.take(i) =~= dims);
        lemma_prod_positive(dims);
    } else {
        lemma_prefix_prod_le(dims, i + 1);
        assert(dims.take(i + 1).drop_last() =~= dims.take(i));
        assert(dims.take(i + 1).last() == dims[i]);
        assert(dims_prod(dims.take(i + 1)) == dims_prod(dims.take(i)) * dims[i]);
        lemma_prod_positive(dims.take(i));
        assert(dims_prod(dims.take(i)) * 1 <= dims_prod(dims.take(i)) * dims[i])
            by (nonlinear_arith)
            requires
                1 <= dims[i],
                0 < dims_prod(dims.take(i)),
        ;
    }
}

/// With positive dimensions the product is positive.
pub proof fn lemma_prod_positive(dims: Seq<usize>)
    requires
        dims_positive(dims),
    ensures
        0 < dims_prod(dims),
    decreases dims.len(),
{
    if dims.len() > 0 {
        assert(dims_positive(dims.drop_last()));
        lemma_prod_positive(dims.drop_last());
        assert(0 < dims_prod(dims.drop_last()) * dims.last()) by (nonlinear_arith)
            requires
                0 < dims_prod(dims.drop_last()),
                1 <= dims.last(),
        ;
    }
}

/// Number of elements a dimension list describes.
pub fn element_count(dims: &[usize]) -> (n: usize)
    requires
        dims_positive(dims@),
        dims_prod(dims@) <= usize::MAX,
    ensures
        n == dims_prod(dims@),
        1 <= n,
{
    let mut acc: usize = 1;
    let mut i: usize = 0;
    proof {
        assert(dims@.take(0) =~= Seq::<usize>::empty());
    }
    while i < dims.len()
        invariant
            0 <= i <= dims@.len(),
            dims_positive(dims@),
            dims_prod(dims@) <= usize::MAX,
            acc == dims_prod(dims@.take(i as int)),
        decreases dims@.len() - i,
    {
        proof {
            lemma_prefix_prod_le(dims@, i + 1);
            assert(dims@.take(i + 1).drop_last() =~= dims@.take(i as int));
            assert(dims@.take(i + 1).last() == dims@[i as int]);
        }
        let d: usize = *vstd::slice::slice_index_get(dims, i);
        acc = acc * d;
        i = i + 1;
    }
    proof {
        assert(dims@.take(dims@.len() as int) =~= dims@);
        lemma_prod_positive(dims@);
    }
    acc
}

/// A flat tensor buffer tagged with its dimensions. The buffer is either
/// borrowed from the caller or owned by the value.
pub enum AirTensor<'a, F> {
    Borrowed { data: &'a [F], dims: Vec<usize> },
    Owned { data: Vec<F>, dims: Vec<usize> },
}

impl<'a, F> AirTensor<'a, F> {
    /// The element buffer, as a sequence.
    pub open spec fn data_seq(&self) -> Seq<F> {
        match self {
            AirTensor::Borrowed { data, .. } => data@,
            AirTensor::Owned { data, .. } => data@,
        }
    }

    /// The dimension list, as a sequence.
    pub open spec fn dims_seq(&self) -> Seq<usize> {
        match self {
            AirTensor::Borrowed { dims, .. } => dims@,
            AirTensor::Owned { dims, .. } => dims@,
        }
    }

    /// Builds a tensor view borrowing the caller's buffer.
    pub fn new(data: &'a [F], dims: Vec<usize>) -> (t: Self)
        ensures
            t.data_seq() == data@,
            t.dims_seq() == dims@,
            t is Borrowed,
    {
        AirTensor::Borrowed { data, dims }
    }

    /// Builds a tensor owning its buffer.
    pub fn from_vec(data: Vec<F>, dims: Vec<usize>) -> (t: Self)
        ensures
            t.data_seq() == data@,
            t.dims_seq() == dims@,
            t is Owned,
    {
        AirTensor::Owned { data, dims }
    }

    /// The dimension list.
    pub fn dims(&self) -> (r: &[usize])
        ensures
            r@ == self.dims_seq(),
    {
        match self {
            AirTensor::Borrowed { dims, .. } => dims.as_slice(),
            AirTensor::Owned { dims, .. } => dims.as_slice(),
        }
    }

    /// The element buffer.
    pub fn data(&self) -> (r: &[F])
        ensures
            r@ == self.data_seq(),
    {
        match self {
            AirTensor::Borrowed { data, .. } => data,
            AirTensor::Owned { data, .. } => data.as_slice(),
        }
    }

    /// Number of logical elements: the product of the dimensions.
    pub fn size(&self) -> (n: usize)
        requires
            dims_positive(self.dims_seq()),
            dims_prod(self.dims_seq()) <= usize::MAX,
        ensures
            n == dims_prod(self.dims_seq()),
    {
        element_count(self.dims())
    }
}

/// Value a buffer position contributes to a packed lane: the element reduced
/// modulo 1000 inside the buffer, zero beyond it.
///
/// The modulus keeps every packed value far below the field modulus; it is a
/// bound suited to small demonstration value ranges, not a general rule.
pub open spec fn lane_value(data: Seq<u32>, idx: int) -> int {
    if 0 <= idx < data.len() {
        (data[idx] % 1000) as int
    } else {
        0
    }
}

/// Number of lanes needed for `total` elements at `width` per lane.
pub open spec fn lane_count(total: int, width: int) -> int {
    total / width + if total % width != 0 {
        1int
    } else {
        0int
    }
}

/// Groups a buffer into lanes of width `2^log_lanes`, reducing each element
/// modulo 1000 and zero-padding every position at or beyond the buffer's end.
/// The lane count is driven by the dimension product, not the buffer length.
pub fn pack_lanes(data: &Vec<u32>, dims: &[usize], log_lanes: usize) -> (lanes: Vec<Vec<u32>>)
    requires
        log_lanes <= 8,
        dims_positive(dims@),
        dims_prod(dims@) + 256 <= usize::MAX,
    ensures
        lanes@.len() == lane_count(dims_prod(dims@), (1usize << log_lanes) as int),
        forall|c: int| 0 <= c < lanes@.len() ==> (#[trigger] lanes@[c])@.len() == (1usize
            << log_lanes) as int,
        forall|c: int, i: int|
            0 <= c < lanes@.len() && 0 <= i < (1usize << log_lanes) as int
                ==> #[trigger] lanes@[c]@[i] == lane_value(
                data@,
                c * ((1usize << log_lanes) as int) + i,
            ),
        forall|c: int, i: int|
            0 <= c < lanes@.len() && 0 <= i < (1usize << log_lanes) as int
                ==> #[trigger] lanes@[c]@[i] < 1000,
{
    let width: usize = 1usize << log_lanes;
    assert(1 <= width <= 256) by (bit_vector)
        requires
            log_lanes <= 8,
            width == 1usize << log_lanes,
    ;
    let total: usize = element_count(dims);
    let n_packed: usize = total / width + if total % width != 0 {
        1
    } else {
        0
    };
    let ghost w: int = width as int;
    let ghost t: int = total as int;
    proof {
        assert(n_packed * w <= t + w) by (nonlinear_arith)
            requires
                w > 0,
                t >= 0,
                n_packed == t / w + if t % w != 0 {
                    1int
                } else {
                    0int
                },
        ;
    }
    let mut lanes: Vec<Vec<u32>> = Vec::new();
    let mut c: usize = 0;
    while c < n_packed
        invariant
            0 <= c <= n_packed,
            width == 1usize << log_lanes,
            1 <= width <= 256,
            w == width as int,
            n_packed * w <= total as int + w,
            total + 256 <= usize::MAX,
            lanes@.len() == c,
            forall|k: int| 0 <= k < c ==> (#[trigger] lanes@[k])@.len() == w,
            forall|k: int, i: int|
                0 <= k < c && 0 <= i < w ==> #[trigger] lanes@[k]@[i] == lane_value(
                    data@,
                    k * w + i,
                ),
            forall|k: int, i: int|
                0 <= k < c && 0 <= i < w ==> #[trigger] lanes@[k]@[i] < 1000,
        decreases n_packed - c,
    {
        proof {
            assert(c * w + w <= n_packed * w) by (nonlinear_arith)
                requires
                    c < n_packed,
                    w > 0,
            ;
            assert(c * w <= total as int);
        }
        let start: usize = c * width;
        let mut lane: Vec<u32> = Vec::new();
        let mut i: usize = 0;
        while i < width
            invariant
                0 <= i <= width,
                start == c * w,
                start + width <= usize::MAX,
                lane@.len() == i,
                forall|j: int| 0 <= j < i ==> lane@[j] == lane_value(data@, c * w + j),
                forall|j: int| 0 <= j < i ==> lane@[j] < 1000,
            decreases width - i,
        {
            let data_idx: usize = start + i;
            let v: u32 = if data_idx < data.len() {
                data[data_idx] % 1000
            } else {
                0
            };
            lane.push(v);
            i = i + 1;
        }
        lanes.push(lane);
        c = c + 1;
    }
    lanes
}

impl<'a, F: Copy> AirTensor<'a, F> {
    /// Takes the element buffer out, copying it when it was borrowed.
    pub fn into_data_vec(self) -> (r: Vec<F>)
        ensures
            r@ == self.data_seq(),
    {
        match self {
            AirTensor::Borrowed { data, .. } => vstd::slice::slice_to_vec(data),
            AirTensor::Owned { data, .. } => data,
        }
    }
}

impl<'a, F> AirTensor<'a, F> {
    /// Builds an owned tensor by packing a flat buffer through a backend:
    /// the returned buffer is exactly the backend's packed view of `data`.
    pub fn create<B: TensorPacker<Field = F>>(data: Vec<u32>, dims: Vec<usize>) -> (t: Self)
        requires
            dims_positive(dims@),
            dims_prod(dims@) + 256 <= usize::MAX,
        ensures
            t.dims_seq() == dims@,
            t is Owned,
            B::packed_ok(data@, dims@, t.data_seq()),
    {
        let packed: Vec<F> = B::pack_data(data, dims.as_slice());
        Self::from_vec(packed, dims)
    }
}

/// Log2 of the SIMD lane width of the packed field backend.
pub const LOG_N_LANES: usize = 4;

/// Packing of a flat `u32` buffer into a backend's packed field type.
pub trait TensorPacker {
    type Field;

    /// The backend's packed-view law: `r` is the lane packing of `data`
    /// over the shape `dims`.
    spec fn packed_ok(data: Seq<u32>, dims: Seq<usize>, r: Seq<Self::Field>) -> bool;

    fn pack_data(data: Vec<u32>, dims: &[usize]) -> (r: Vec<Self::Field>)
        requires
            dims_positive(dims@),
            dims_prod(dims@) + 256 <= usize::MAX,
        ensures
            Self::packed_ok(data@, dims@, r@),
    ;
}

/// Backend that packs `2^LOG_N_LANES` field residues per lane.
pub struct SimdBackend;

impl TensorPacker for SimdBackend {
    type Field = Vec<u32>;

    /// Sixteen residues per lane: the lane count is the dimension product
    /// rounded up to whole lanes, and position `i` of lane `c` holds the
    /// reduced element at buffer position `c * 16 + i`, zero past the
    /// buffer's end.
    open spec fn packed_ok(data: Seq<u32>, dims: Seq<usize>, r: Seq<Vec<u32>>) -> bool {
        &&& r.len() == lane_count(dims_prod(dims), 16)
        &&& forall|c: int| 0 <= c < r.len() ==> (#[trigger] r[c])@.len() == 16
        &&& forall|c: int, i: int|
            0 <= c < r.len() && 0 <= i < 16 ==> #[trigger] r[c]@[i] == lane_value(
                data,
                c * 16 + i,
            )
    }

    fn pack_data(data: Vec<u32>, dims: &[usize]) -> (r: Vec<Vec<u32>>) {
        proof {
            assert(1usize << 4usize == 16usize) by (bit_vector);
        }
        pack_lanes(&data, dims, LOG_N_LANES)
    }
}

} // verus!
