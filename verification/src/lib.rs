//! Lowering of tensor-computation graphs onto a provable virtual machine:
//! fixed-point encoding of tensor entries into field elements, operand
//! preparation (broadcast alignment and reduction-axis decomposition),
//! operand serialization, VM-specific operators, the graph-lowering pass,
//! and the algebraic constraint component for element-wise addition.

pub mod air;
pub mod errors;
pub mod fixed_point;
pub mod precomputing;
pub mod prim;
pub mod serialization;
pub mod tensor;
