//! VM-specific operators and the graph-lowering pass.
//!
//! Each primitive operator kind of the host graph has a VM-specific
//! counterpart bound to a precompiled program; the pass walks the nodes of a
//! graph and substitutes that counterpart, leaving kinds outside the
//! dispatch table untouched. Operand assembly for the three operator arities
//! lives here as well: each checks its input count and lays the operands out
//! per the VM calling convention.

use std::sync::Arc;

use vstd::prelude::*;
use vstd::string::StringExecFns;

use crate::errors::CairoCompilerError;
use crate::precomputing::{broadcast_ok, broadcast_shape, precompile_binary_op,
    reduce_decomposition, source_offset_spec};
use crate::serialization::{serialize_inputs_binary_op, serialize_reduce_op, serialize_unary_op};
use crate::tensor::{dims_positive, dims_prod, AirTensor};

verus! {

/// How the virtual machine is invoked: an execution step budget and whether
/// proof artifacts (trace and public input) are captured.
#[derive(Clone, Copy, PartialEq, Eq, Structural, Debug)]
pub struct CairoRunnerConfig {
    pub proof_mode: bool,
    pub max_steps: u64,
}

impl Default for CairoRunnerConfig {
    /// Proof artifacts off, no step budget.
    fn default() -> (c: Self)
        ensures
            !c.proof_mode,
            c.max_steps == 0,
    {
        CairoRunnerConfig { proof_mode: false, max_steps: 0 }
    }
}

/// Base-2 logarithm, one input.
pub struct CairoLog2 {
    pub sierra_file: String,
    pub runner_config: Arc<CairoRunnerConfig>,
}

/// Base-2 exponential, one input.
pub struct CairoExp2 {
    pub sierra_file: String,
    pub runner_config: Arc<CairoRunnerConfig>,
}

/// Sine, one input.
pub struct CairoSin {
    pub sierra_file: String,
    pub runner_config: Arc<CairoRunnerConfig>,
}

/// Square root, one input.
pub struct CairoSqrt {
    pub sierra_file: String,
    pub runner_config: Arc<CairoRunnerConfig>,
}

/// Reciprocal, one input.
pub struct CairoRecip {
    pub sierra_file: String,
    pub runner_config: Arc<CairoRunnerConfig>,
}

/// Element-wise addition, two inputs.
pub struct CairoAdd {
    pub sierra_file: String,
    pub runner_config: Arc<CairoRunnerConfig>,
}

/// Element-wise multiplication, two inputs.
pub struct CairoMul {
    pub sierra_file: String,
    pub runner_config: Arc<CairoRunnerConfig>,
}

/// Element-wise remainder, two inputs.
pub struct CairoMod {
    pub sierra_file: String,
    pub runner_config: Arc<CairoRunnerConfig>,
}

/// Element-wise less-than, two inputs.
pub struct CairoLessThan {
    pub sierra_file: String,
    pub runner_config: Arc<CairoRunnerConfig>,
}

/// Summation over one axis, fixed at construction.
pub struct CairoSumReduce {
    pub sierra_file: String,
    pub runner_config: Arc<CairoRunnerConfig>,
    pub dim: usize,
}

/// Maximum over one axis, fixed at construction.
pub struct CairoMaxReduce {
    pub sierra_file: String,
    pub runner_config: Arc<CairoRunnerConfig>,
    pub dim: usize,
}

/// Contiguous materialization: a local memory-layout fix with no VM
/// invocation.
pub struct Contiguous;

impl CairoLog2 {
    /// Binds the operator to its compiled program and the shared runner
    /// configuration. Whether the program file exists is the concern of the
    /// caller that owns the file system.
    pub fn new(sierra_file: String, runner_config: Arc<CairoRunnerConfig>) -> (s: Self)
        ensures
            s.sierra_file@ == sierra_file@,
            s.runner_config == runner_config,
    {
        CairoLog2 { sierra_file, runner_config }
    }
}

impl CairoExp2 {
    /// Binds the operator to its compiled program and the shared runner
    /// configuration.
    pub fn new(sierra_file: String, runner_config: Arc<CairoRunnerConfig>) -> (s: Self)
        ensures
            s.sierra_file@ == sierra_file@,
            s.runner_config == runner_config,
    {
        CairoExp2 { sierra_file, runner_config }
    }
}

impl CairoSin {
    /// Binds the operator to its compiled program and the shared runner
    /// configuration.
    pub fn new(sierra_file: String, runner_config: Arc<CairoRunnerConfig>) -> (s: Self)
        ensures
            s.sierra_file@ == sierra_file@,
            s.runner_config == runner_config,
    {
        CairoSin { sierra_file, runner_config }
    }
}

impl CairoSqrt {
    /// Binds the operator to its compiled program and the shared runner
    /// configuration.
    pub fn new(sierra_file: String, runner_config: Arc<CairoRunnerConfig>) -> (s: Self)
        ensures
            s.sierra_file@ == sierra_file@,
            s.runner_config == runner_config,
    {
        CairoSqrt { sierra_file, runner_config }
    }
}

impl CairoRecip {
    /// Binds the operator to its compiled program and the shared runner
    /// configuration.
    pub fn new(sierra_file: String, runner_config: Arc<CairoRunnerConfig>) -> (s: Self)
        ensures
            s.sierra_file@ == sierra_file@,
            s.runner_config == runner_config,
    {
        CairoRecip { sierra_file, runner_config }
    }
}

impl CairoAdd {
    /// Binds the operator to its compiled program and the shared runner
    /// configuration.
    pub fn new(sierra_file: String, runner_config: Arc<CairoRunnerConfig>) -> (s: Self)
        ensures
            s.sierra_file@ == sierra_file@,
            s.runner_config == runner_config,
    {
        CairoAdd { sierra_file, runner_config }
    }
}

impl CairoMul {
    /// Binds the operator to its compiled program and the shared runner
    /// configuration.
    pub fn new(sierra_file: String, runner_config: Arc<CairoRunnerConfig>) -> (s: Self)
        ensures
            s.sierra_file@ == sierra_file@,
            s.runner_config == runner_config,
    {
        CairoMul { sierra_file, runner_config }
    }
}

impl CairoMod {
    /// Binds the operator to its compiled program and the shared runner
    /// configuration.
    pub fn new(sierra_file: String, runner_config: Arc<CairoRunnerConfig>) -> (s: Self)
        ensures
            s.sierra_file@ == sierra_file@,
            s.runner_config == runner_config,
    {
        CairoMod { sierra_file, runner_config }
    }
}

impl CairoLessThan {
    /// Binds the operator to its compiled program and the shared runner
    /// configuration.
    pub fn new(sierra_file: String, runner_config: Arc<CairoRunnerConfig>) -> (s: Self)
        ensures
            s.sierra_file@ == sierra_file@,
            s.runner_config == runner_config,
    {
        CairoLessThan { sierra_file, runner_config }
    }
}

impl CairoSumReduce {
    /// Binds the operator to its compiled program, the shared runner
    /// configuration and the reduction axis.
    pub fn new(sierra_file: String, runner_config: Arc<CairoRunnerConfig>, dim: usize) -> (s: Self)
        ensures
            s.sierra_file@ == sierra_file@,
            s.runner_config == runner_config,
            s.dim == dim,
    {
        CairoSumReduce { sierra_file, runner_config, dim }
    }
}

impl CairoMaxReduce {
    /// Binds the operator to its compiled program, the shared runner
    /// configuration and the reduction axis.
    pub fn new(sierra_file: String, runner_config: Arc<CairoRunnerConfig>, dim: usize) -> (s: Self)
        ensures
            s.sierra_file@ == sierra_file@,
            s.runner_config == runner_config,
            s.dim == dim,
    {
        CairoMaxReduce { sierra_file, runner_config, dim }
    }
}

/// Assembles the operand set of a unary operator: exactly one input, whose
/// flattened buffer is the whole operand set.
pub fn prepare_unary_operands<'a>(tensors: &Vec<AirTensor<'a, i64>>) -> (r: Result<
    Vec<i64>,
    CairoCompilerError,
>)
    ensures
        tensors@.len() != 1 ==> r == Err::<Vec<i64>, CairoCompilerError>(
            CairoCompilerError::WrongInputCount { expected: 1, found: tensors@.len() as usize },
        ),
        tensors@.len() == 1 ==> (r matches Ok(v) && v@ == tensors@[0].data_seq()),
{
    if tensors.len() != 1 {
        return Err(CairoCompilerError::WrongInputCount { expected: 1, found: tensors.len() });
    }
    Ok(serialize_unary_op(tensors[0].data()))
}

/// Assembles the operand set of a binary operator: exactly two inputs,
/// aligned over their broadcast shape and laid out left buffer then right
/// buffer.
pub fn prepare_binary_operands<'a>(tensors: &Vec<AirTensor<'a, i64>>) -> (r: Result<
    Vec<i64>,
    CairoCompilerError,
>)
    requires
        tensors@.len() == 2 ==> {
            &&& broadcast_ok(tensors@[0].dims_seq(), tensors@[1].dims_seq())
            &&& dims_positive(tensors@[0].dims_seq())
            &&& dims_positive(tensors@[1].dims_seq())
            &&& tensors@[0].data_seq().len() >= dims_prod(tensors@[0].dims_seq())
            &&& tensors@[1].data_seq().len() >= dims_prod(tensors@[1].dims_seq())
            &&& dims_prod(broadcast_shape(tensors@[0].dims_seq(), tensors@[1].dims_seq()))
                <= usize::MAX
        },
    ensures
        tensors@.len() != 2 ==> r == Err::<Vec<i64>, CairoCompilerError>(
            CairoCompilerError::WrongInputCount { expected: 2, found: tensors@.len() as usize },
        ),
        tensors@.len() == 2 ==> {
            let out_shape = broadcast_shape(tensors@[0].dims_seq(), tensors@[1].dims_seq());
            let total = dims_prod(out_shape);
            &&& r matches Ok(v)
            &&& r matches Ok(v) ==> {
                &&& v@.len() == 2 * total
                &&& forall|i: int|
                    0 <= i < total ==> v@[i] == tensors@[0].data_seq()[source_offset_spec(
                        i,
                        out_shape,
                        tensors@[0].dims_seq(),
                    )]
                &&& forall|i: int|
                    0 <= i < total ==> v@[total + i] == tensors@[1].data_seq()[source_offset_spec(
                        i,
                        out_shape,
                        tensors@[1].dims_seq(),
                    )]
            }
        },
{
    if tensors.len() != 2 {
        return Err(CairoCompilerError::WrongInputCount { expected: 2, found: tensors.len() });
    }
    let (lhs, rhs) = precompile_binary_op(&tensors[0], &tensors[1]);
    Ok(serialize_inputs_binary_op(lhs, rhs))
}

/// Assembles the operand set of a reduction operator: exactly one input,
/// decomposed around the reduction axis into the three scalars that precede
/// the flattened buffer.
pub fn prepare_reduce_operands<'a>(tensors: &Vec<AirTensor<'a, i64>>, axis: usize) -> (r: Result<
    Vec<i64>,
    CairoCompilerError,
>)
    requires
        tensors@.len() == 1 ==> {
            &&& axis < tensors@[0].dims_seq().len()
            &&& dims_positive(tensors@[0].dims_seq())
            &&& dims_prod(tensors@[0].dims_seq()) <= usize::MAX
            &&& dims_prod(tensors@[0].dims_seq()) <= i64::MAX
        },
    ensures
        tensors@.len() != 1 ==> r == Err::<Vec<i64>, CairoCompilerError>(
            CairoCompilerError::WrongInputCount { expected: 1, found: tensors@.len() as usize },
        ),
        tensors@.len() == 1 ==> {
            let dims = tensors@[0].dims_seq();
            let data = tensors@[0].data_seq();
            &&& r matches Ok(v)
            &&& r matches Ok(v) ==> {
                &&& v@.len() == 3 + data.len()
                &&& v@[0] == dims_prod(dims.take(axis as int)) as i64
                &&& v@[1] == dims_prod(dims.skip(axis as int + 1)) as i64
                &&& v@[2] == dims[axis as int] as i64
                &&& forall|i: int| 0 <= i < data.len() ==> v@[3 + i] == #[trigger] data[i]
            }
        },
{
    if tensors.len() != 1 {
        return Err(CairoCompilerError::WrongInputCount { expected: 1, found: tensors.len() });
    }
    let (front, back, dim) = reduce_decomposition(tensors[0].dims(), axis);
    proof {
        assert(front <= i64::MAX && back <= i64::MAX && dim <= i64::MAX) by (nonlinear_arith)
            requires
                1 <= front as int,
                1 <= back as int,
                1 <= dim as int,
                (front as int) * (dim as int) * (back as int) <= i64::MAX,
        ;
    }
    Ok(serialize_reduce_op(tensors[0].data(), front, back, dim))
}

/// The primitive operator kinds of the host graph that the pass inspects.
/// `Other` stands for any kind outside the dispatch table; the pass leaves
/// such nodes untouched.
#[derive(Clone, Copy, PartialEq, Eq, Structural, Debug)]
pub enum PrimitiveOp {
    Log2,
    Exp2,
    Sin,
    Sqrt,
    Recip,
    Add,
    Mul,
    Mod,
    LessThan,
    SumReduce(usize),
    MaxReduce(usize),
    Constant,
    Contiguous,
    Other,
}

/// A VM-specific operator occupying a lowered node. A lowered constant keeps
/// its payload bound to the graph's dynamic-dimension map on the host side,
/// so the model carries no payload for it.
pub enum LoweredOp {
    Log2(CairoLog2),
    Exp2(CairoExp2),
    Sin(CairoSin),
    Sqrt(CairoSqrt),
    Recip(CairoRecip),
    Add(CairoAdd),
    Mul(CairoMul),
    Mod(CairoMod),
    LessThan(CairoLessThan),
    SumReduce(CairoSumReduce),
    MaxReduce(CairoMaxReduce),
    Constant,
    Contiguous(Contiguous),
}

/// The operator implementation a graph node holds: exactly one at a time,
/// either still primitive or already VM-specific.
pub enum NodeOp {
    Primitive(PrimitiveOp),
    Lowered(LoweredOp),
}

/// Whether the dispatch table has an entry for a primitive kind.
pub open spec fn has_table_entry(k: PrimitiveOp) -> bool {
    !(k is Other)
}

/// File name of the compiled program of a primitive kind; kinds without a
/// program (constants, layout fixes, kinds outside the table) have none.
pub open spec fn spec_sierra_file_name(k: PrimitiveOp) -> Seq<char> {
    match k {
        PrimitiveOp::Log2 => "log2.sierra.json"@,
        PrimitiveOp::Exp2 => "exp2.sierra.json"@,
        PrimitiveOp::Sin => "sin.sierra.json"@,
        PrimitiveOp::Sqrt => "sqrt.sierra.json"@,
        PrimitiveOp::Recip => "recip.sierra.json"@,
        PrimitiveOp::Add => "add.sierra.json"@,
        PrimitiveOp::Mul => "mul.sierra.json"@,
        PrimitiveOp::Mod => "rem.sierra.json"@,
        PrimitiveOp::LessThan => "lt.sierra.json"@,
        PrimitiveOp::SumReduce(_) => "sum_reduce.sierra.json"@,
        PrimitiveOp::MaxReduce(_) => "max_reduce.sierra.json"@,
        PrimitiveOp::Constant => ""@,
        PrimitiveOp::Contiguous => ""@,
        PrimitiveOp::Other => ""@,
    }
}

/// File name of the compiled program of a primitive kind.
pub fn sierra_file_name(k: PrimitiveOp) -> (r: &'static str)
    ensures
        r@ == spec_sierra_file_name(k),
{
    match k {
        PrimitiveOp::Log2 => "log2.sierra.json",
        PrimitiveOp::Exp2 => "exp2.sierra.json",
        PrimitiveOp::Sin => "sin.sierra.json",
        PrimitiveOp::Sqrt => "sqrt.sierra.json",
        PrimitiveOp::Recip => "recip.sierra.json",
        PrimitiveOp::Add => "add.sierra.json",
        PrimitiveOp::Mul => "mul.sierra.json",
        PrimitiveOp::Mod => "rem.sierra.json",
        PrimitiveOp::LessThan => "lt.sierra.json",
        PrimitiveOp::SumReduce(_) => "sum_reduce.sierra.json",
        PrimitiveOp::MaxReduce(_) => "max_reduce.sierra.json",
        PrimitiveOp::Constant => "",
        PrimitiveOp::Contiguous => "",
        PrimitiveOp::Other => "",
    }
}

/// Path of the compiled program of a primitive kind under a base directory.
pub open spec fn spec_sierra_path(base: Seq<char>, k: PrimitiveOp) -> Seq<char> {
    base + "/"@ + spec_sierra_file_name(k)
}

/// Joins the base directory and a primitive kind's program file name.
pub fn sierra_path(base: &str, k: PrimitiveOp) -> (r: String)
    ensures
        r@ == spec_sierra_path(base@, k),
{
    let mut s: String = base.to_owned();
    s.append("/");
    s.append(sierra_file_name(k));
    s
}

/// How one node comes out of the pass: a primitive kind with a table entry
/// is replaced by its VM-specific operator, bound to its program path under
/// `base` and to the shared runner configuration; anything else is left
/// exactly as it was.
pub open spec fn lowers_to(o: NodeOp, n: NodeOp, cfg: CairoRunnerConfig, base: Seq<char>) -> bool {
    match o {
        NodeOp::Primitive(k) => match k {
            PrimitiveOp::Log2 => match n {
                NodeOp::Lowered(LoweredOp::Log2(op)) => op.sierra_file@ == spec_sierra_path(
                    base,
                    k,
                ) && op.runner_config == cfg,
                _ => false,
            },
            PrimitiveOp::Exp2 => match n {
                NodeOp::Lowered(LoweredOp::Exp2(op)) => op.sierra_file@ == spec_sierra_path(
                    base,
                    k,
                ) && op.runner_config == cfg,
                _ => false,
            },
            PrimitiveOp::Sin => match n {
                NodeOp::Lowered(LoweredOp::Sin(op)) => op.sierra_file@ == spec_sierra_path(base, k)
                    && op.runner_config == cfg,
                _ => false,
            },
            PrimitiveOp::Sqrt => match n {
                NodeOp::Lowered(LoweredOp::Sqrt(op)) => op.sierra_file@ == spec_sierra_path(
                    base,
                    k,
                ) && op.runner_config == cfg,
                _ => false,
            },
            PrimitiveOp::Recip => match n {
                NodeOp::Lowered(LoweredOp::Recip(op)) => op.sierra_file@ == spec_sierra_path(
                    base,
                    k,
                ) && op.runner_config == cfg,
                _ => false,
            },
            PrimitiveOp::Add => match n {
                NodeOp::Lowered(LoweredOp::Add(op)) => op.sierra_file@ == spec_sierra_path(base, k)
                    && op.runner_config == cfg,
                _ => false,
            },
            PrimitiveOp::Mul => match n {
                NodeOp::Lowered(LoweredOp::Mul(op)) => op.sierra_file@ == spec_sierra_path(base, k)
                    && op.runner_config == cfg,
                _ => false,
            },
            PrimitiveOp::Mod => match n {
                NodeOp::Lowered(LoweredOp::Mod(op)) => op.sierra_file@ == spec_sierra_path(base, k)
                    && op.runner_config == cfg,
                _ => false,
            },
            PrimitiveOp::LessThan => match n {
                NodeOp::Lowered(LoweredOp::LessThan(op)) => op.sierra_file@ == spec_sierra_path(
                    base,
                    k,
                ) && op.runner_config == cfg,
                _ => false,
            },
            PrimitiveOp::SumReduce(d) => match n {
                NodeOp::Lowered(LoweredOp::SumReduce(op)) => op.sierra_file@ == spec_sierra_path(
                    base,
                    k,
                ) && op.runner_config == cfg && op.dim == d,
                _ => false,
            },
            PrimitiveOp::MaxReduce(d) => match n {
                NodeOp::Lowered(LoweredOp::MaxReduce(op)) => op.sierra_file@ == spec_sierra_path(
                    base,
                    k,
                ) && op.runner_config == cfg && op.dim == d,
                _ => false,
            },
            PrimitiveOp::Constant => n is Lowered && (n matches NodeOp::Lowered(l) ==> l
                is Constant),
            PrimitiveOp::Contiguous => n is Lowered && (n matches NodeOp::Lowered(l) ==> l
                is Contiguous),
            PrimitiveOp::Other => n == o,
        },
        NodeOp::Lowered(_) => n == o,
    }
}

/// The graph-lowering pass: replaces every primitive operator that the
/// dispatch table covers with its VM-specific counterpart.
#[derive(Debug)]
pub struct PrimitiveCompiler {
    pub runner_config: CairoRunnerConfig,
}

impl PrimitiveCompiler {
    /// A pass that hands every lowered operator the given runner
    /// configuration.
    pub fn new(config: CairoRunnerConfig) -> (s: Self)
        ensures
            s.runner_config == config,
    {
        PrimitiveCompiler { runner_config: config }
    }

    /// Visits every node exactly once and rewrites it per [`lowers_to`]:
    /// supported primitive kinds become VM-specific operators bound to their
    /// program path under `base`; nodes outside the table, and nodes already
    /// lowered, are left exactly as they were. The graph's shape is not
    /// touched.
    pub fn compile(&self, nodes: &mut Vec<NodeOp>, base: &str) -> (r: Result<
        (),
        CairoCompilerError,
    >)
        ensures
            r is Ok,
            final(nodes)@.len() == old(nodes)@.len(),
            forall|i: int|
                0 <= i < old(nodes)@.len() ==> lowers_to(
                    old(nodes)@[i],
                    #[trigger] final(nodes)@[i],
                    self.runner_config,
                    base@,
                ),
    {
        let n: usize = nodes.len();
        let mut i: usize = 0;
        while i < n
            invariant
                0 <= i <= n,
                n == old(nodes)@.len(),
                nodes@.len() == n,
                forall|j: int|
                    0 <= j < i ==> lowers_to(
                        old(nodes)@[j],
                        #[trigger] nodes@[j],
                        self.runner_config,
                        base@,
                    ),
                forall|j: int| i <= j < n ==> #[trigger] nodes@[j] == old(nodes)@[j],
            decreases n - i,
        {
            let replacement: Option<NodeOp> = match &nodes[i] {
                NodeOp::Primitive(k) => match k {
                    PrimitiveOp::Log2 => Some(
                        NodeOp::Lowered(
                            LoweredOp::Log2(
                                CairoLog2::new(
                                    sierra_path(base, PrimitiveOp::Log2),
                                    Arc::new(self.runner_config),
                                ),
                            ),
                        ),
                    ),
                    PrimitiveOp::Exp2 => Some(
                        NodeOp::Lowered(
                            LoweredOp::Exp2(
                                CairoExp2::new(
                                    sierra_path(base, PrimitiveOp::Exp2),
                                    Arc::new(self.runner_config),
                                ),
                            ),
                        ),
                    ),
                    PrimitiveOp::Sin => Some(
                        NodeOp::Lowered(
                            LoweredOp::Sin(
                                CairoSin::new(
                                    sierra_path(base, PrimitiveOp::Sin),
                                    Arc::new(self.runner_config),
                                ),
                            ),
                        ),
                    ),
                    PrimitiveOp::Sqrt => Some(
                        NodeOp::Lowered(
                            LoweredOp::Sqrt(
                                CairoSqrt::new(
                                    sierra_path(base, PrimitiveOp::Sqrt),
                                    Arc::new(self.runner_config),
                                ),
                            ),
                        ),
                    ),
                    PrimitiveOp::Recip => Some(
                        NodeOp::Lowered(
                            LoweredOp::Recip(
                                CairoRecip::new(
                                    sierra_path(base, PrimitiveOp::Recip),
                                    Arc::new(self.runner_config),
                                ),
                            ),
                        ),
                    ),
                    PrimitiveOp::Add => Some(
                        NodeOp::Lowered(
                            LoweredOp::Add(
                                CairoAdd::new(
                                    sierra_path(base, PrimitiveOp::Add),
                                    Arc::new(self.runner_config),
                                ),
                            ),
                        ),
                    ),
                    PrimitiveOp::Mul => Some(
                        NodeOp::Lowered(
                            LoweredOp::Mul(
                                CairoMul::new(
                                    sierra_path(base, PrimitiveOp::Mul),
                                    Arc::new(self.runner_config),
                                ),
                            ),
                        ),
                    ),
                    PrimitiveOp::Mod => Some(
                        NodeOp::Lowered(
                            LoweredOp::Mod(
                                CairoMod::new(
                                    sierra_path(base, PrimitiveOp::Mod),
                                    Arc::new(self.runner_config),
                                ),
                            ),
                        ),
                    ),
                    PrimitiveOp::LessThan => Some(
                        NodeOp::Lowered(
                            LoweredOp::LessThan(
                                CairoLessThan::new(
                                    sierra_path(base, PrimitiveOp::LessThan),
                                    Arc::new(self.runner_config),
                                ),
                            ),
                        ),
                    ),
                    PrimitiveOp::SumReduce(d) => Some(
                        NodeOp::Lowered(
                            LoweredOp::SumReduce(
                                CairoSumReduce::new(
                                    sierra_path(base, PrimitiveOp::SumReduce(*d)),
                                    Arc::new(self.runner_config),
                                    *d,
                                ),
                            ),
                        ),
                    ),
                    PrimitiveOp::MaxReduce(d) => Some(
                        NodeOp::Lowered(
                            LoweredOp::MaxReduce(
                                CairoMaxReduce::new(
                                    sierra_path(base, PrimitiveOp::MaxReduce(*d)),
                                    Arc::new(self.runner_config),
                                    *d,
                                ),
                            ),
                        ),
                    ),
                    PrimitiveOp::Constant => Some(NodeOp::Lowered(LoweredOp::Constant)),
                    PrimitiveOp::Contiguous => Some(
                        NodeOp::Lowered(LoweredOp::Contiguous(Contiguous)),
                    ),
                    PrimitiveOp::Other => None,
                },
                NodeOp::Lowered(_) => None,
            };
            match replacement {
                Some(nv) => {
                    nodes[i] = nv;
                },
                None => {},
            }
            i = i + 1;
        }
        Ok(())
    }
}

/// Pass-through: a node whose kind has no dispatch-table entry, and a node
/// already lowered, comes out of the pass exactly as it went in.
pub proof fn lemma_lowering_pass_through(o: NodeOp, n: NodeOp, cfg: CairoRunnerConfig, base: Seq<char>)
    requires
        lowers_to(o, n, cfg, base),
        match o {
            NodeOp::Primitive(k) => !has_table_entry(k),
            NodeOp::Lowered(_) => true,
        },
    ensures
        n == o,
{
}

/// Totality: after the pass no node of a supported primitive kind still
/// holds a primitive operator.
pub proof fn lemma_lowering_total(o: NodeOp, n: NodeOp, cfg: CairoRunnerConfig, base: Seq<char>)
    requires
        lowers_to(o, n, cfg, base),
        o matches NodeOp::Primitive(k) && has_table_entry(k),
    ensures
        n is Lowered,
{
}

} // verus!
