//! Algebraic constraint component for element-wise addition.
//!
//! The component constrains a trace of `2^log_size` rows, each holding three
//! masks: left operand, right operand and declared output, all fixed-point
//! field elements. Every row must satisfy `out == fixed_add(lhs, rhs)`; rows
//! past the logical operand length are zero-filled and satisfy the same
//! relation trivially, so padding never influences constraint satisfaction.

use vstd::prelude::*;

use crate::fixed_point::{fixed_add, fixed_add_spec, PRIME};
use crate::tensor::AirTensor;

verus! {

/// An element-wise addition staged for proving over a trace of
/// `2^log_size` rows.
pub struct TensorAdd<'a, F> {
    pub a: &'a AirTensor<'a, F>,
    pub b: &'a AirTensor<'a, F>,
    pub log_size: u32,
}

/// Constraint evaluator of the addition component.
#[derive(Clone)]
pub struct TensorAddEval {
    pub log_size: u32,
}

impl TensorAddEval {
    /// Log2 of the number of trace rows the component constrains.
    pub fn log_size(&self) -> (r: u32)
        ensures
            r == self.log_size,
    {
        self.log_size
    }

    /// Largest constraint degree the component may use, one above the trace
    /// size exponent.
    pub fn max_constraint_log_degree_bound(&self) -> (r: u32)
        requires
            self.log_size < u32::MAX,
        ensures
            r == self.log_size + 1,
    {
        self.log_size + 1
    }
}

/// Builds the three trace columns of the addition component: operand rows
/// first, zero rows after, with the output column equal to the fixed-point
/// field sum of the operand columns on every row, padding included.
pub fn gen_add_trace(lhs: &Vec<u32>, rhs: &Vec<u32>, log_size: u32) -> (cols: (
    Vec<u32>,
    Vec<u32>,
    Vec<u32>,
))
    requires
        lhs@.len() == rhs@.len(),
        log_size < 32,
        lhs@.len() <= (1usize << log_size),
        forall|i: int| 0 <= i < lhs@.len() ==> #[trigger] lhs@[i] < PRIME,
        forall|i: int| 0 <= i < rhs@.len() ==> #[trigger] rhs@[i] < PRIME,
    ensures
        cols.0@.len() == (1usize << log_size) as int,
        cols.1@.len() == (1usize << log_size) as int,
        cols.2@.len() == (1usize << log_size) as int,
        forall|i: int| 0 <= i < lhs@.len() ==> #[trigger] cols.0@[i] == lhs@[i],
        forall|i: int| 0 <= i < rhs@.len() ==> #[trigger] cols.1@[i] == rhs@[i],
        forall|i: int|
            lhs@.len() <= i < (1usize << log_size) as int ==> #[trigger] cols.0@[i] == 0,
        forall|i: int|
            rhs@.len() <= i < (1usize << log_size) as int ==> #[trigger] cols.1@[i] == 0,
        forall|i: int|
            0 <= i < (1usize << log_size) as int ==> #[trigger] cols.2@[i] as int == fixed_add_spec(
                cols.0@[i] as int,
                cols.1@[i] as int,
            ),
{
    let rows: usize = 1usize << log_size;
    let mut col_l: Vec<u32> = Vec::new();
    let mut col_r: Vec<u32> = Vec::new();
    let mut col_o: Vec<u32> = Vec::new();
    let mut i: usize = 0;
    proof {
        assert(0int % (PRIME as int) == 0) by (nonlinear_arith)
            requires
                0 < PRIME as int,
        ;
    }
    while i < rows
        invariant
            0 <= i <= rows,
            lhs@.len() == rhs@.len(),
            lhs@.len() <= rows,
            forall|j: int| 0 <= j < lhs@.len() ==> #[trigger] lhs@[j] < PRIME,
            forall|j: int| 0 <= j < rhs@.len() ==> #[trigger] rhs@[j] < PRIME,
            col_l@.len() == i,
            col_r@.len() == i,
            col_o@.len() == i,
            forall|j: int| 0 <= j < i && j < lhs@.len() ==> #[trigger] col_l@[j] == lhs@[j],
            forall|j: int| 0 <= j < i && j < rhs@.len() ==> #[trigger] col_r@[j] == rhs@[j],
            forall|j: int| lhs@.len() <= j < i ==> #[trigger] col_l@[j] == 0,
            forall|j: int| rhs@.len() <= j < i ==> #[trigger] col_r@[j] == 0,
            forall|j: int|
                0 <= j < i ==> #[trigger] col_o@[j] as int == fixed_add_spec(
                    col_l@[j] as int,
                    col_r@[j] as int,
                ),
            0int % (PRIME as int) == 0,
        decreases rows - i,
    {
        if i < lhs.len() {
            let l: u32 = lhs[i];
            let r: u32 = rhs[i];
            col_l.push(l);
            col_r.push(r);
            col_o.push(fixed_add(l, r));
        } else {
            col_l.push(0);
            col_r.push(0);
            col_o.push(0);
        }
        i = i + 1;
    }
    (col_l, col_r, col_o)
}

} // verus!
