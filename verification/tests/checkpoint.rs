use arle::checkpoint::{
    block_scale_index, check_head_hc_shapes, check_reference_logits_len, check_top_level_shapes,
    decode_i64_tensor, element_read, initial_hc_stream, logical_cols, parse_switch,
    plan_matrix_reads, plan_vector_reads, scalar_offset, scale_tensor_name,
    validate_sliding_window_decode_scope, CheckpointError, Dtype, ElementRead, MatrixReadPlan,
    MatrixShard, TensorLayout, TpLoadContext, TpShardAxis,
};
use arle::checkpoint::{locate_tensor, TensorSource
};

#[test]
fn initial_hc_stream_repeats_embedding_rows() {
    let embeddings = [1.0_f32, 2.0, 3.0, 4.0];
    let got = initial_hc_stream(&embeddings, 2, 2, 2, 3).unwrap();
    assert_eq!(got, vec![1.0, 2.0, 1.0, 2.0, 1.0, 2.0, 3.0, 4.0, 3.0, 4.0, 3.0, 4.0]);
}

#[test]
fn initial_hc_stream_checks_its_inputs() {
    let embeddings = [1_u16, 2, 3, 4];
    assert_eq!(
        initial_hc_stream(&embeddings, 2, 2, 4, 1),
        Err(CheckpointError::HiddenDimMismatch { hidden_dim: 2, hidden_size: 4 })
    );
    assert_eq!(initial_hc_stream(&embeddings, 2, 2, 2, 0), Err(CheckpointError::ZeroHcMult));
}

#[test]
fn shards_select_rows_or_columns() {
    let column = TpLoadContext { axis: TpShardAxis::Column, range: 2..4, total: 8 };
    let row = TpLoadContext { axis: TpShardAxis::Row, range: 0..3, total: 6 };
    assert_eq!(MatrixShard::from_tp(None), MatrixShard::Full);
    let rows = MatrixShard::from_tp(Some(&column));
    assert_eq!(rows, MatrixShard::Rows { range: 2..4, total: 8 });
    assert_eq!(rows.row_range(8), Ok(2..4));
    assert_eq!(rows.col_range(5), Ok(0..5));
    assert_eq!(rows.row_range(7), Err(CheckpointError::RowShardTotalMismatch { total: 8, rows: 7 }));
    let cols = MatrixShard::from_tp(Some(&row));
    assert_eq!(cols.col_range(6), Ok(0..3));
    assert_eq!(cols.row_range(9), Ok(0..9));
    assert_eq!(cols.col_range(5), Err(CheckpointError::ColShardTotalMismatch { total: 6, cols: 5 }));
    let past_end = MatrixShard::Rows { range: 4..10, total: 8 };
    assert_eq!(
        past_end.row_range(8),
        Err(CheckpointError::RowShardExceeds { start: 4, end: 10, rows: 8 })
    );
    let past_cols = MatrixShard::Cols { range: 1..7, total: 6 };
    assert_eq!(
        past_cols.col_range(6),
        Err(CheckpointError::ColShardExceeds { start: 1, end: 7, cols: 6 })
    );
}

#[test]
fn packed_fp4_doubles_the_columns() {
    assert_eq!(logical_cols(Dtype::I8, 64), 128);
    assert_eq!(logical_cols(Dtype::F8E4M3, 64), 64);
}

#[test]
fn scale_names_replace_the_weight_suffix() {
    assert_eq!(scale_tensor_name("a.weight").unwrap(), "a.scale");
    assert_eq!(scale_tensor_name("layers.0.ffn.w1.weight").unwrap(), "layers.0.ffn.w1.scale");
    assert_eq!(scale_tensor_name("a.bias"), Err(CheckpointError::NotQuantizedWeightName));
}

#[test]
fn block_scale_index_follows_block_grid() {
    // 256 x 256 matrix with 128 x 128 blocks: a 2 x 2 grid.
    assert_eq!(block_scale_index(&[2, 2], 0, 0, 256, 256), Ok(0));
    assert_eq!(block_scale_index(&[2, 2], 127, 128, 256, 256), Ok(1));
    assert_eq!(block_scale_index(&[2, 2], 128, 0, 256, 256), Ok(2));
    assert_eq!(block_scale_index(&[2, 2], 255, 255, 256, 256), Ok(3));
    // 300 rows in 2 blocks of 150 rows.
    assert_eq!(block_scale_index(&[2, 1], 149, 0, 300, 10), Ok(0));
    assert_eq!(block_scale_index(&[2, 1], 150, 0, 300, 10), Ok(1));
    assert_eq!(block_scale_index(&[4], 0, 0, 1, 1), Err(CheckpointError::ScaleNotMatrix { dims: 1 }));
    assert_eq!(block_scale_index(&[0, 3], 0, 0, 1, 1), Err(CheckpointError::EmptyScale));
}

#[test]
fn scalar_offsets_check_width_and_bounds() {
    assert_eq!(scalar_offset(Dtype::Bf16, 8, 3), Ok(6));
    assert_eq!(scalar_offset(Dtype::F32, 8, 1), Ok(4));
    assert_eq!(
        scalar_offset(Dtype::F32, 8, 2),
        Err(CheckpointError::ReadOutOfRange { dtype: Dtype::F32, index: 2 })
    );
    assert_eq!(scalar_offset(Dtype::I64, 8, 0), Err(CheckpointError::UnsupportedScalarDtype(Dtype::I64)));
}

#[test]
fn element_reads_locate_values_and_scales() {
    let bf16 = TensorLayout { dtype: Dtype::Bf16, shape: vec![2, 3], data_len: 12 };
    assert_eq!(element_read(&bf16, None, 1, 2, 2, 3), Ok(ElementRead::Scalar { offset: 10 }));

    let fp8 = TensorLayout { dtype: Dtype::F8E4M3, shape: vec![2, 2], data_len: 4 };
    let scale = TensorLayout { dtype: Dtype::F32, shape: vec![1, 1], data_len: 4 };
    assert_eq!(
        element_read(&fp8, Some(&scale), 1, 1, 2, 2),
        Ok(ElementRead::ScaledF8 { offset: 3, scale_offset: 0 })
    );
    assert_eq!(element_read(&fp8, None, 0, 0, 2, 2), Err(CheckpointError::MissingScale));

    let fp4 = TensorLayout { dtype: Dtype::I8, shape: vec![1, 2], data_len: 2 };
    let scale2 = TensorLayout { dtype: Dtype::F8E8M0, shape: vec![1, 2], data_len: 2 };
    assert_eq!(
        element_read(&fp4, Some(&scale2), 0, 3, 1, 4),
        Ok(ElementRead::ScaledF4 { offset: 1, high: true, scale_offset: 1 })
    );
    assert_eq!(
        element_read(&fp4, Some(&scale2), 0, 0, 1, 4),
        Ok(ElementRead::ScaledF4 { offset: 0, high: false, scale_offset: 0 })
    );

    let ints = TensorLayout { dtype: Dtype::I64, shape: vec![1, 1], data_len: 8 };
    assert_eq!(
        element_read(&ints, None, 0, 0, 1, 1),
        Err(CheckpointError::UnsupportedMatrixDtype(Dtype::I64))
    );
}

#[test]
fn i64_tensors_decode_little_endian() {
    let mut data = Vec::new();
    data.extend_from_slice(&5_i64.to_le_bytes());
    data.extend_from_slice(&(-2_i64).to_le_bytes());
    assert_eq!(decode_i64_tensor(Dtype::I64, &data), Ok(vec![5, -2]));
    assert_eq!(decode_i64_tensor(Dtype::F32, &data), Err(CheckpointError::NotI64 { dtype: Dtype::F32 }));
    assert_eq!(
        decode_i64_tensor(Dtype::I64, &data[..7]),
        Err(CheckpointError::UnalignedI64 { byte_len: 7 })
    );
}

#[test]
fn switches_accept_the_usual_spellings() {
    assert_eq!(parse_switch(None), Ok(false));
    assert_eq!(parse_switch(Some("1")), Ok(true));
    assert_eq!(parse_switch(Some("yes")), Ok(true));
    assert_eq!(parse_switch(Some("OFF")), Ok(false));
    assert_eq!(parse_switch(Some("maybe")), Err(CheckpointError::InvalidSwitch("maybe".to_string())));
}

#[test]
fn top_level_shapes_report_the_first_mismatch() {
    assert_eq!(check_top_level_shapes((10, 4), (10, 4), 4, 10, 4), Ok(()));
    assert_eq!(
        check_top_level_shapes((9, 4), (8, 4), 3, 10, 4),
        Err(CheckpointError::EmbedShape { rows: 9, cols: 4, vocab_size: 10, hidden_size: 4 })
    );
    assert_eq!(
        check_top_level_shapes((10, 4), (10, 5), 3, 10, 4),
        Err(CheckpointError::HeadShape { rows: 10, cols: 5, vocab_size: 10, hidden_size: 4 })
    );
    assert_eq!(
        check_top_level_shapes((10, 4), (10, 4), 3, 10, 4),
        Err(CheckpointError::NormLen { len: 3, hidden_size: 4 })
    );
}

#[test]
fn decode_scope_needs_sliding_window_layers() {
    assert_eq!(validate_sliding_window_decode_scope(2, 1, 1, 100, 8, 8), Ok(()));
    assert_eq!(
        validate_sliding_window_decode_scope(0, 3, 4, 100, 8, 8),
        Err(CheckpointError::NoSlidingWindowLayers { csa_layers: 3, hca_layers: 4 })
    );
    assert_eq!(validate_sliding_window_decode_scope(2, 1, 1, 0, 8, 8), Err(CheckpointError::EmptyVocab));
    assert_eq!(
        validate_sliding_window_decode_scope(2, 1, 1, 100, 4, 8),
        Err(CheckpointError::ExpertCountMismatch { ep_experts: 4, routed_experts: 8 })
    );
}

#[test]
fn reference_logits_cover_the_vocabulary() {
    assert_eq!(check_reference_logits_len(5, 5), Ok(()));
    assert_eq!(
        check_reference_logits_len(4, 5),
        Err(CheckpointError::ReferenceLogitsLen { len: 4, vocab_size: 5 })
    );
}

#[test]
fn head_hc_shapes_are_checked_in_order() {
    assert_eq!(check_head_hc_shapes(0, 1, 8, 4, 2, (2, 8), 2, 1), Ok(()));
    assert_eq!(
        check_head_hc_shapes(1, 1, 8, 4, 2, (2, 8), 2, 1),
        Err(CheckpointError::HeadTokenOutOfRange { token_idx: 1, seq_len: 1 })
    );
    assert_eq!(
        check_head_hc_shapes(0, 1, 6, 4, 2, (2, 8), 2, 1),
        Err(CheckpointError::HeadStreamDimMismatch { stream_dim: 6, hidden_size: 4, hc_mult: 2 })
    );
    assert_eq!(
        check_head_hc_shapes(0, 1, 8, 4, 2, (1, 8), 2, 1),
        Err(CheckpointError::HeadMixShape { rows: 1, cols: 8, hc_mult: 2, stream_dim: 8 })
    );
    assert_eq!(
        check_head_hc_shapes(0, 1, 8, 4, 2, (2, 8), 1, 1),
        Err(CheckpointError::HeadBaseScaleTooShort { base: 1, scale: 1, hc_mult: 2 })
    );
}

#[test]
fn fp8_matrix_reads_each_byte_with_its_block_scale() {
    let weight = TensorLayout { dtype: Dtype::F8E4M3, shape: vec![2, 2], data_len: 4 };
    let scale = TensorLayout { dtype: Dtype::F8E8M0, shape: vec![1, 1], data_len: 1 };
    let plan = plan_matrix_reads(&weight, Ok(Some(&scale)), &MatrixShard::Full).unwrap();
    assert_eq!(
        plan,
        MatrixReadPlan {
            rows: 2,
            cols: 2,
            reads: (0..4).map(|offset| ElementRead::ScaledF8 { offset, scale_offset: 0 }).collect(),
        }
    );
}

#[test]
fn packed_fp4_column_shard_reads_nibbles() {
    let weight = TensorLayout { dtype: Dtype::I8, shape: vec![2, 2], data_len: 4 };
    let scale = TensorLayout { dtype: Dtype::F8E8M0, shape: vec![1, 1], data_len: 1 };
    let shard = MatrixShard::Cols { range: 2..4, total: 4 };
    let plan = plan_matrix_reads(&weight, Ok(Some(&scale)), &shard).unwrap();
    assert_eq!((plan.rows, plan.cols), (2, 2));
    assert_eq!(
        plan.reads,
        vec![
            ElementRead::ScaledF4 { offset: 1, high: false, scale_offset: 0 },
            ElementRead::ScaledF4 { offset: 1, high: true, scale_offset: 0 },
            ElementRead::ScaledF4 { offset: 3, high: false, scale_offset: 0 },
            ElementRead::ScaledF4 { offset: 3, high: true, scale_offset: 0 },
        ]
    );
}

#[test]
fn matrix_plans_report_errors_in_order() {
    let vector = TensorLayout { dtype: Dtype::Bf16, shape: vec![4], data_len: 8 };
    assert_eq!(
        plan_matrix_reads(&vector, Ok(None), &MatrixShard::Full),
        Err(CheckpointError::NotMatrix { dims: 1 })
    );
    let weight = TensorLayout { dtype: Dtype::F8E4M3, shape: vec![2, 2], data_len: 4 };
    let bad_rows = MatrixShard::Rows { range: 0..1, total: 3 };
    assert_eq!(
        plan_matrix_reads(&weight, Err(CheckpointError::NotQuantizedWeightName), &bad_rows),
        Err(CheckpointError::RowShardTotalMismatch { total: 3, rows: 2 })
    );
    assert_eq!(
        plan_matrix_reads(&weight, Err(CheckpointError::NotQuantizedWeightName), &MatrixShard::Full),
        Err(CheckpointError::NotQuantizedWeightName)
    );
    assert_eq!(
        plan_matrix_reads(&weight, Ok(None), &MatrixShard::Full),
        Err(CheckpointError::MissingScale)
    );
    let short = TensorLayout { dtype: Dtype::Bf16, shape: vec![2, 2], data_len: 6 };
    assert_eq!(
        plan_matrix_reads(&short, Ok(None), &MatrixShard::Full),
        Err(CheckpointError::ReadOutOfRange { dtype: Dtype::Bf16, index: 3 })
    );
}

#[test]
fn vector_plans_read_scalars() {
    let v = TensorLayout { dtype: Dtype::Bf16, shape: vec![3], data_len: 6 };
    assert_eq!(plan_vector_reads(&v), Ok(vec![0, 2, 4]));
    let short = TensorLayout { dtype: Dtype::F32, shape: vec![3], data_len: 9 };
    assert_eq!(
        plan_vector_reads(&short),
        Err(CheckpointError::ReadOutOfRange { dtype: Dtype::F32, index: 2 })
    );
    let matrix = TensorLayout { dtype: Dtype::F32, shape: vec![1, 1], data_len: 4 };
    assert_eq!(plan_vector_reads(&matrix), Err(CheckpointError::NotVector { dims: 2 }));
    let ints = TensorLayout { dtype: Dtype::I64, shape: vec![1], data_len: 8 };
    assert_eq!(plan_vector_reads(&ints), Err(CheckpointError::UnsupportedScalarDtype(Dtype::I64)));
}

#[test]
fn tensors_are_found_by_map_then_by_scan() {
    assert_eq!(locate_tensor(Some(1), &[false, false]), TensorSource::Mapped(1));
    assert_eq!(locate_tensor(None, &[false, true, true]), TensorSource::Scanned(1));
    assert_eq!(locate_tensor(None, &[false, false]), TensorSource::Missing);
    assert_eq!(locate_tensor(None, &[]), TensorSource::Missing);
}
