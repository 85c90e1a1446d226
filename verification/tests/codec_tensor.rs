use luminair::fixed_point::{decode_fixed, encode_fixed, fixed_add, quantize, HALF_RANGE, PRIME,
    SCALE};
use luminair::precomputing::{elementwise_add, materialize, max_reduce_values, precompile_binary_op,
    reduce_decomposition, sum_reduce_values};
use luminair::serialization::{serialize_inputs_binary_op, serialize_reduce_op,
    serialize_unary_op};
use luminair::tensor::{element_count, pack_lanes, AirTensor, SimdBackend, TensorPacker,
    LOG_N_LANES};

#[test]
fn fixed_round_trip_exact() {
    for raw in [
        -HALF_RANGE,
        -HALF_RANGE + 1,
        -4096,
        -1,
        0,
        1,
        4096,
        HALF_RANGE - 1,
        HALF_RANGE,
    ] {
        assert_eq!(decode_fixed(encode_fixed(raw)), raw);
    }
}

#[test]
fn fixed_encode_folds_negative_values() {
    assert_eq!(encode_fixed(0), 0);
    assert_eq!(encode_fixed(5), 5);
    assert_eq!(encode_fixed(-1), PRIME - 1);
    assert_eq!(encode_fixed(-4096), PRIME - 4096);
}

#[test]
fn fixed_add_wraps_at_modulus() {
    assert_eq!(fixed_add(5, 7), 12);
    assert_eq!(fixed_add(PRIME - 1, 2), 1);
    assert_eq!(fixed_add(PRIME - 1, 1), 0);
}

#[test]
fn fixed_add_decodes_to_integer_sum() {
    let a: i64 = -5000;
    let b: i64 = 300;
    let s = fixed_add(encode_fixed(a), encode_fixed(b));
    assert_eq!(decode_fixed(s), a + b);
}

#[test]
fn quantize_truncates_toward_zero() {
    assert_eq!(quantize(1, 1), SCALE);
    assert_eq!(quantize(4, 1), 4 * SCALE);
    assert_eq!(quantize(314159, 100000), 12867);
    assert_eq!(quantize(-314159, 100000), -12867);
    assert_eq!(quantize(0, 7), 0);
}

#[test]
fn quantize_round_trip_within_one_ulp() {
    let v: f64 = 3.14159;
    let q = quantize(314159, 100000);
    let back = decode_fixed(encode_fixed(q));
    let recovered = back as f64 / SCALE as f64;
    assert!((recovered - v).abs() <= 1.0 / SCALE as f64);

    let w: f64 = -0.5;
    let qw = quantize(-1, 2);
    let backw = decode_fixed(encode_fixed(qw));
    assert!((backw as f64 / SCALE as f64 - w).abs() <= 1.0 / SCALE as f64);
}

#[test]
fn air_tensor_borrowed_accessors() {
    let data: Vec<i64> = vec![10, 20, 30, 40, 50, 60];
    let t = AirTensor::new(data.as_slice(), vec![2, 3]);
    assert_eq!(t.dims(), &[2, 3]);
    assert_eq!(t.data(), data.as_slice());
    assert_eq!(t.size(), 6);
    assert_eq!(t.into_data_vec(), data);
}

#[test]
fn air_tensor_owned_accessors() {
    let t = AirTensor::from_vec(vec![7i64, 8, 9], vec![3]);
    assert_eq!(t.dims(), &[3]);
    assert_eq!(t.data(), &[7, 8, 9]);
    assert_eq!(t.size(), 3);
    assert_eq!(t.into_data_vec(), vec![7, 8, 9]);
}

#[test]
fn element_count_multiplies_dims() {
    assert_eq!(element_count(&[2, 3, 4]), 24);
    assert_eq!(element_count(&[5]), 5);
    assert_eq!(element_count(&[]), 1);
}

#[test]
fn pack_lanes_pads_final_lane_with_zeros() {
    let data: Vec<u32> = vec![1, 2, 3, 4, 5];
    let lanes = pack_lanes(&data, &[5], 2);
    assert_eq!(lanes.len(), 2);
    assert_eq!(lanes[0], vec![1, 2, 3, 4]);
    assert_eq!(lanes[1], vec![5, 0, 0, 0]);
}

#[test]
fn pack_lanes_reduces_modulo_1000() {
    let data: Vec<u32> = vec![1234, 999, 1000];
    let lanes = pack_lanes(&data, &[3], 2);
    assert_eq!(lanes.len(), 1);
    assert_eq!(lanes[0], vec![234, 999, 0, 0]);
}

#[test]
fn simd_backend_packs_sixteen_wide() {
    let data: Vec<u32> = (0..17).collect();
    let lanes = SimdBackend::pack_data(data, &[17]);
    assert_eq!(lanes.len(), 2);
    assert_eq!(lanes[0].len(), 1 << LOG_N_LANES);
    assert_eq!(lanes[0][0], 0);
    assert_eq!(lanes[0][15], 15);
    assert_eq!(lanes[1][0], 16);
    assert_eq!(lanes[1][1], 0);
}

#[test]
fn create_packs_through_backend() {
    let t: AirTensor<Vec<u32>> = AirTensor::create::<SimdBackend>((0..5).collect(), vec![5]);
    assert_eq!(t.dims(), &[5]);
    assert_eq!(t.data().len(), 1);
    assert_eq!(t.data()[0][4], 4);
    assert_eq!(t.data()[0][5], 0);
}

#[test]
fn binary_alignment_broadcasts_first_axis() {
    let a_data: Vec<i64> = vec![1, 2, 3, 4, 5, 6];
    let b_data: Vec<i64> = vec![10, 20, 30];
    let a = AirTensor::new(a_data.as_slice(), vec![2, 3]);
    let b = AirTensor::new(b_data.as_slice(), vec![1, 3]);
    let (lhs, rhs) = precompile_binary_op(&a, &b);
    assert_eq!(lhs, vec![1, 2, 3, 4, 5, 6]);
    assert_eq!(rhs, vec![10, 20, 30, 10, 20, 30]);
}

#[test]
fn binary_alignment_broadcasts_last_axis() {
    let a_data: Vec<i64> = vec![1, 2, 3, 4];
    let b_data: Vec<i64> = vec![100, 200];
    let a = AirTensor::new(a_data.as_slice(), vec![2, 2]);
    let b = AirTensor::new(b_data.as_slice(), vec![2, 1]);
    let (lhs, rhs) = precompile_binary_op(&a, &b);
    assert_eq!(lhs, vec![1, 2, 3, 4]);
    assert_eq!(rhs, vec![100, 100, 200, 200]);
}

#[test]
fn materialize_applies_index_and_validity() {
    let data: Vec<i64> = vec![5, 6, 7];
    let out = materialize(
        data.as_slice(),
        &[2, 0, 0, 1],
        &[true, true, false, true],
        0,
    );
    assert_eq!(out, vec![7, 5, 0, 6]);
}

#[test]
fn reduce_decomposition_shape_2_3_4() {
    let dims = [2usize, 3, 4];
    assert_eq!(reduce_decomposition(&dims, 1), (2, 4, 3));
    assert_eq!(reduce_decomposition(&dims, 0), (1, 12, 2));
    assert_eq!(reduce_decomposition(&dims, 2), (6, 1, 4));
}

#[test]
fn sum_reduce_sums_each_slot() {
    let data: Vec<i64> = vec![1, 2, 3, 4];
    let out = sum_reduce_values(&data, 1, 2, 2);
    assert_eq!(out, vec![4, 6]);
    let out_last = sum_reduce_values(&data, 2, 1, 2);
    assert_eq!(out_last, vec![3, 7]);
}

#[test]
fn max_reduce_takes_each_slot_maximum() {
    let data: Vec<i64> = vec![1, 2, 3, 4];
    let out = max_reduce_values(&data, 2, 1, 2);
    assert_eq!(out, vec![2, 4]);
    let neg: Vec<i64> = vec![-7, -3, -9, -5];
    let out_neg = max_reduce_values(&neg, 1, 1, 4);
    assert_eq!(out_neg, vec![-3]);
}

#[test]
fn elementwise_add_adds_pairs() {
    let a: Vec<i64> = vec![1, -2, 3];
    let b: Vec<i64> = vec![10, 20, -30];
    assert_eq!(elementwise_add(&a, &b), vec![11, 18, -27]);
}

#[test]
fn serialize_unary_is_the_flat_buffer() {
    let data: Vec<i64> = vec![4, 5, 6];
    assert_eq!(serialize_unary_op(data.as_slice()), vec![4, 5, 6]);
}

#[test]
fn serialize_binary_concatenates_operands() {
    let out = serialize_inputs_binary_op(vec![1, 2], vec![3, 4]);
    assert_eq!(out, vec![1, 2, 3, 4]);
}

#[test]
fn serialize_reduce_prefixes_three_scalars() {
    let data: Vec<i64> = vec![9, 8];
    let out = serialize_reduce_op(data.as_slice(), 2, 4, 3);
    assert_eq!(out, vec![2, 4, 3, 9, 8]);
}

#[test]
fn binary_alignment_broadcasts_middle_axis() {
    let a_data: Vec<i64> = vec![1, 2, 3, 4, 5, 6];
    let b_data: Vec<i64> = vec![10, 20, 30, 40, 50, 60, 70, 80, 90, 100, 110, 120];
    let a = AirTensor::new(a_data.as_slice(), vec![2, 1, 3]);
    let b = AirTensor::new(b_data.as_slice(), vec![2, 2, 3]);
    let (lhs, rhs) = precompile_binary_op(&a, &b);
    assert_eq!(lhs, vec![1, 2, 3, 1, 2, 3, 4, 5, 6, 4, 5, 6]);
    assert_eq!(rhs, b_data);
}

#[test]
fn binary_alignment_of_scalars() {
    let a_data: Vec<i64> = vec![42];
    let b_data: Vec<i64> = vec![-7];
    let a = AirTensor::new(a_data.as_slice(), Vec::new());
    let b = AirTensor::new(b_data.as_slice(), Vec::new());
    let (lhs, rhs) = precompile_binary_op(&a, &b);
    assert_eq!(lhs, vec![42]);
    assert_eq!(rhs, vec![-7]);
}
