use std::sync::Arc;

use luminair::air::{gen_add_trace, TensorAddEval};
use luminair::errors::CairoCompilerError;
use luminair::fixed_point::{decode_fixed, encode_fixed, quantize, PRIME};
use luminair::precomputing::{elementwise_add, sum_reduce_values};
use luminair::prim::{prepare_binary_operands, prepare_reduce_operands, prepare_unary_operands,
    sierra_file_name, sierra_path, CairoRunnerConfig, CairoSumReduce, LoweredOp, NodeOp,
    PrimitiveCompiler, PrimitiveOp};
use luminair::tensor::AirTensor;

fn raw_tensor<'a>(data: &'a [i64], dims: Vec<usize>) -> AirTensor<'a, i64> {
    AirTensor::new(data, dims)
}

#[test]
fn unary_arity_is_enforced() {
    let d0: Vec<i64> = vec![1, 2];
    let d1: Vec<i64> = vec![3, 4];
    let inputs = vec![raw_tensor(&d0, vec![2]), raw_tensor(&d1, vec![2])];
    match prepare_unary_operands(&inputs) {
        Err(CairoCompilerError::WrongInputCount { expected, found }) => {
            assert_eq!(expected, 1);
            assert_eq!(found, 2);
        }
        _ => panic!("two inputs must be rejected"),
    }
    let empty: Vec<AirTensor<i64>> = Vec::new();
    assert!(matches!(
        prepare_unary_operands(&empty),
        Err(CairoCompilerError::WrongInputCount { expected: 1, found: 0 })
    ));
}

#[test]
fn binary_arity_is_enforced() {
    let d: Vec<i64> = vec![1, 2];
    let one = vec![raw_tensor(&d, vec![2])];
    match prepare_binary_operands(&one) {
        Err(CairoCompilerError::WrongInputCount { expected, found }) => {
            assert_eq!(expected, 2);
            assert_eq!(found, 1);
        }
        _ => panic!("one input must be rejected"),
    }
    let three = vec![
        raw_tensor(&d, vec![2]),
        raw_tensor(&d, vec![2]),
        raw_tensor(&d, vec![2]),
    ];
    assert!(matches!(
        prepare_binary_operands(&three),
        Err(CairoCompilerError::WrongInputCount { expected: 2, found: 3 })
    ));
}

#[test]
fn reduce_arity_is_enforced() {
    let empty: Vec<AirTensor<i64>> = Vec::new();
    assert!(matches!(
        prepare_reduce_operands(&empty, 0),
        Err(CairoCompilerError::WrongInputCount { expected: 1, found: 0 })
    ));
}

#[test]
fn prepare_unary_flattens_single_input() {
    let d: Vec<i64> = vec![7, 8, 9];
    let inputs = vec![raw_tensor(&d, vec![3])];
    assert_eq!(prepare_unary_operands(&inputs).unwrap(), vec![7, 8, 9]);
}

#[test]
fn prepare_binary_aligns_and_concatenates() {
    let a: Vec<i64> = vec![1, 2, 3, 4, 5, 6];
    let b: Vec<i64> = vec![10, 20, 30];
    let inputs = vec![raw_tensor(&a, vec![2, 3]), raw_tensor(&b, vec![1, 3])];
    let out = prepare_binary_operands(&inputs).unwrap();
    assert_eq!(out, vec![1, 2, 3, 4, 5, 6, 10, 20, 30, 10, 20, 30]);
}

#[test]
fn prepare_reduce_prefixes_decomposition() {
    let d: Vec<i64> = vec![1, 2, 3, 4, 5, 6];
    let inputs = vec![raw_tensor(&d, vec![2, 3])];
    let out = prepare_reduce_operands(&inputs, 1).unwrap();
    assert_eq!(out, vec![2, 1, 3, 1, 2, 3, 4, 5, 6]);
}

#[test]
fn sierra_file_names_follow_the_table() {
    assert_eq!(sierra_file_name(PrimitiveOp::Log2), "log2.sierra.json");
    assert_eq!(sierra_file_name(PrimitiveOp::Exp2), "exp2.sierra.json");
    assert_eq!(sierra_file_name(PrimitiveOp::Sin), "sin.sierra.json");
    assert_eq!(sierra_file_name(PrimitiveOp::Sqrt), "sqrt.sierra.json");
    assert_eq!(sierra_file_name(PrimitiveOp::Recip), "recip.sierra.json");
    assert_eq!(sierra_file_name(PrimitiveOp::Add), "add.sierra.json");
    assert_eq!(sierra_file_name(PrimitiveOp::Mul), "mul.sierra.json");
    assert_eq!(sierra_file_name(PrimitiveOp::Mod), "rem.sierra.json");
    assert_eq!(sierra_file_name(PrimitiveOp::LessThan), "lt.sierra.json");
    assert_eq!(
        sierra_file_name(PrimitiveOp::SumReduce(0)),
        "sum_reduce.sierra.json"
    );
    assert_eq!(
        sierra_file_name(PrimitiveOp::MaxReduce(2)),
        "max_reduce.sierra.json"
    );
    assert_eq!(
        sierra_path("progs", PrimitiveOp::Add),
        "progs/add.sierra.json"
    );
}

#[test]
fn lowering_replaces_every_supported_kind() {
    let compiler = PrimitiveCompiler::new(CairoRunnerConfig {
        proof_mode: true,
        max_steps: 100,
    });
    let mut nodes = vec![
        NodeOp::Primitive(PrimitiveOp::Log2),
        NodeOp::Primitive(PrimitiveOp::Exp2),
        NodeOp::Primitive(PrimitiveOp::Sin),
        NodeOp::Primitive(PrimitiveOp::Sqrt),
        NodeOp::Primitive(PrimitiveOp::Recip),
        NodeOp::Primitive(PrimitiveOp::Add),
        NodeOp::Primitive(PrimitiveOp::Mul),
        NodeOp::Primitive(PrimitiveOp::Mod),
        NodeOp::Primitive(PrimitiveOp::LessThan),
        NodeOp::Primitive(PrimitiveOp::SumReduce(1)),
        NodeOp::Primitive(PrimitiveOp::MaxReduce(2)),
        NodeOp::Primitive(PrimitiveOp::Constant),
        NodeOp::Primitive(PrimitiveOp::Contiguous),
    ];
    assert!(compiler.compile(&mut nodes, "progs").is_ok());
    for node in &nodes {
        assert!(matches!(node, NodeOp::Lowered(_)));
    }
    match &nodes[5] {
        NodeOp::Lowered(LoweredOp::Add(op)) => {
            assert_eq!(op.sierra_file, "progs/add.sierra.json");
            assert!(op.runner_config.proof_mode);
            assert_eq!(op.runner_config.max_steps, 100);
        }
        _ => panic!("add node must lower to the add operator"),
    }
    match &nodes[9] {
        NodeOp::Lowered(LoweredOp::SumReduce(op)) => {
            assert_eq!(op.sierra_file, "progs/sum_reduce.sierra.json");
            assert_eq!(op.dim, 1);
        }
        _ => panic!("sum-reduce node must lower to the sum-reduce operator"),
    }
    match &nodes[10] {
        NodeOp::Lowered(LoweredOp::MaxReduce(op)) => {
            assert_eq!(op.sierra_file, "progs/max_reduce.sierra.json");
            assert_eq!(op.dim, 2);
        }
        _ => panic!("max-reduce node must lower to the max-reduce operator"),
    }
    assert!(matches!(&nodes[11], NodeOp::Lowered(LoweredOp::Constant)));
    assert!(matches!(
        &nodes[12],
        NodeOp::Lowered(LoweredOp::Contiguous(_))
    ));
}

#[test]
fn lowering_leaves_unmatched_nodes_untouched() {
    let compiler = PrimitiveCompiler::new(CairoRunnerConfig::default());
    let mut nodes = vec![
        NodeOp::Primitive(PrimitiveOp::Other),
        NodeOp::Lowered(LoweredOp::SumReduce(CairoSumReduce::new(
            String::from("progs/sum_reduce.sierra.json"),
            Arc::new(CairoRunnerConfig::default()),
            3,
        ))),
    ];
    assert!(compiler.compile(&mut nodes, "progs").is_ok());
    assert!(matches!(&nodes[0], NodeOp::Primitive(PrimitiveOp::Other)));
    match &nodes[1] {
        NodeOp::Lowered(LoweredOp::SumReduce(op)) => {
            assert_eq!(op.sierra_file, "progs/sum_reduce.sierra.json");
            assert_eq!(op.dim, 3);
        }
        _ => panic!("an already lowered node must stay as it was"),
    }
}

#[test]
fn compiler_construction_keeps_config() {
    let cfg = CairoRunnerConfig {
        proof_mode: true,
        max_steps: 7,
    };
    let compiler = PrimitiveCompiler::new(cfg);
    assert!(compiler.runner_config.proof_mode);
    assert_eq!(compiler.runner_config.max_steps, 7);
    let dflt = CairoRunnerConfig::default();
    assert!(!dflt.proof_mode);
    assert_eq!(dflt.max_steps, 0);
}

#[test]
fn tensor_add_eval_degree_bound() {
    let eval = TensorAddEval { log_size: 5 };
    assert_eq!(eval.log_size(), 5);
    assert_eq!(eval.max_constraint_log_degree_bound(), 6);
}

#[test]
fn add_trace_rows_satisfy_constraint_with_padding() {
    let lhs: Vec<u32> = vec![encode_fixed(4096), encode_fixed(-4096), 7, 8, 9];
    let rhs: Vec<u32> = vec![encode_fixed(8192), encode_fixed(4096), 70, 80, 90];
    let (l, r, o) = gen_add_trace(&lhs, &rhs, 3);
    assert_eq!(l.len(), 8);
    assert_eq!(r.len(), 8);
    assert_eq!(o.len(), 8);
    for i in 0..8 {
        let expect = ((l[i] as u64 + r[i] as u64) % PRIME as u64) as u32;
        assert_eq!(o[i], expect);
    }
    for i in 5..8 {
        assert_eq!(l[i], 0);
        assert_eq!(r[i], 0);
        assert_eq!(o[i], 0);
    }
    assert_eq!(decode_fixed(o[1]), 0);
}

#[test]
fn end_to_end_add_then_sum_reduce() {
    // Lower a two-node graph, then execute it over the reference semantics:
    // element-wise addition with a zero operand, then summation over the
    // first axis, on the inputs [[1, 2], [3, 4]].
    let compiler = PrimitiveCompiler::new(CairoRunnerConfig::default());
    let mut nodes = vec![
        NodeOp::Primitive(PrimitiveOp::Add),
        NodeOp::Primitive(PrimitiveOp::SumReduce(0)),
    ];
    assert!(compiler.compile(&mut nodes, "progs").is_ok());
    assert!(matches!(&nodes[0], NodeOp::Lowered(LoweredOp::Add(_))));
    let axis = match &nodes[1] {
        NodeOp::Lowered(LoweredOp::SumReduce(op)) => op.dim,
        _ => panic!("sum-reduce node must lower"),
    };

    let a: Vec<i64> = [1i64, 2, 3, 4].iter().map(|v| quantize(*v, 1)).collect();
    let z: Vec<i64> = vec![0, 0, 0, 0];
    let inputs = vec![
        AirTensor::new(a.as_slice(), vec![2, 2]),
        AirTensor::new(z.as_slice(), vec![2, 2]),
    ];
    let serialized = prepare_binary_operands(&inputs).unwrap();
    let (lhs, rhs) = serialized.split_at(4);
    let added = elementwise_add(&lhs.to_vec(), &rhs.to_vec());

    let added_inputs = vec![AirTensor::new(added.as_slice(), vec![2, 2])];
    let reduce_ops = prepare_reduce_operands(&added_inputs, axis).unwrap();
    let (front, back, dim) = (
        reduce_ops[0] as usize,
        reduce_ops[1] as usize,
        reduce_ops[2] as usize,
    );
    let body: Vec<i64> = reduce_ops[3..].to_vec();
    let reduced = sum_reduce_values(&body, front, back, dim);

    let expected: Vec<i64> = vec![quantize(4, 1), quantize(6, 1)];
    let decoded: Vec<i64> = reduced
        .iter()
        .map(|v| decode_fixed(encode_fixed(*v)))
        .collect();
    assert_eq!(decoded, expected);
}
