use xinfer::batch::{causal_mask_sides, last_rows, sequence_lens};
use xinfer::checkpoint::{Checkpoint, DType, VarBuilderX};
use xinfer::distributed::{ChunkError, Comm, Shard, Span};
use xinfer::ggml::QuantType;
use xinfer::linear::LinearX;
use xinfer::math::{div_ceil, isqrt, mul_fits, sum_fits};
use xinfer::others::{conv2d, embedding, layer_norm, rms_norm, AvgPool2d, Conv2dConfig, Conv3dConfig, Conv3dNoBias, Embedding};
use xinfer::parallel::{
    load_restored_gguf_column_linear, load_restored_gguf_merged_qkv_linear, load_restored_gguf_row_linear, AllGather,
    AllReduce, CollectiveError, QkvHeads, ReducePlan, ReplicatedLinear, RestoreError, TensorParallelColumnLinear,
    TensorParallelRowLinear, VocabParallelLinear, VocabRows,
};

fn checkpoint(names: &[&str], gguf: bool) -> Checkpoint {
    Checkpoint { names: names.iter().map(|n| n.to_string()).collect(), gguf, dtype: DType::BF16 }
}

#[test]
fn outputs_of_ranks_are_added_up() {
    let ck = checkpoint(&[], false);
    let vb = VarBuilderX::new(&ck);
    let two = Comm { rank: 1, world_size: 2 };
    let row = TensorParallelRowLinear::load_with_hints(8, 6, &vb, &two, &None, &None, DType::BF16).unwrap();
    assert!(matches!(&row.linear, LinearX::Linear(l) if l.weight.shard == Shard { dim: 1, rank: 1, world_size: 2 }));
    assert_eq!(row.forward(DType::BF16).reduce, ReducePlan::Reduce);
    assert_eq!(row.forward(DType::F32).reduce, ReducePlan::ReduceAs(DType::BF16));
    let one = TensorParallelRowLinear::load_with_hints(8, 6, &vb, &Comm::default(), &None, &None, DType::BF16).unwrap();
    assert_eq!(one.forward(DType::F32).reduce, ReducePlan::Keep);
    assert!(!one.forward(DType::F32).adds_bias);
    let biased = TensorParallelRowLinear::new_with_bias(one.linear.clone(), true, &two, DType::BF16);
    assert!(biased.all_reduce && biased.forward(DType::F32).adds_bias);
    assert!(!TensorParallelRowLinear::new(one.linear, &two, DType::BF16).bias);
    let column = TensorParallelColumnLinear::load_with_hints(8, 6, true, &vb, &two, &None, &None, DType::BF16).unwrap();
    assert!(matches!(column.linear, LinearX::Linear(l) if l.bias.is_some()));
    let whole = ReplicatedLinear::load_no_bias(8, 6, &vb, &None, &None, DType::BF16).unwrap();
    assert!(matches!(whole.linear, LinearX::Linear(l) if l.weight.shard == Shard::default()));
}

#[test]
fn collectives_take_views_of_supported_types() {
    assert_eq!(AllReduce::source(DType::BF16, 2, 4, 8), Ok(Span { start: 2, len: 4 }));
    assert_eq!(
        AllReduce::source(DType::F16, 6, 4, 8),
        Err(CollectiveError::OutOfBounds { start: 6, count: 4, len: 8 })
    );
    assert_eq!(AllReduce::source(DType::F32, 0, 4, 8), Err(CollectiveError::UnsupportedType(DType::F32)));
    assert_eq!(AllGather::source(DType::F32, 0, 4, 8), Ok(Span { start: 0, len: 4 }));
    assert_eq!(AllGather::source(DType::U8, 0, 4, 8), Err(CollectiveError::UnsupportedType(DType::U8)));
    let gather = AllGather::new(Comm { rank: 0, world_size: 4 });
    assert_eq!(gather.gathered_shape(&vec![2, 5]), vec![8, 5]);
}

#[test]
fn output_layers_are_padded_and_gathered() {
    let ck = checkpoint(&[], false);
    let vb = VarBuilderX::new(&ck);
    let comm = Comm { rank: 1, world_size: 2 };
    let head = VocabParallelLinear::load_no_bias(8, 100, &vb, &comm, &None, &None, DType::BF16).unwrap();
    assert!(matches!(&head.linear, LinearX::Linear(l) if l.weight.shape == [128, 8]));
    let plan = head.forward(&vec![3, 64], DType::F32, &vec![3, 8]).unwrap();
    assert_eq!(plan.cast, Some(DType::BF16));
    assert_eq!((plan.gathered, plan.full_vocab, plan.shape, plan.keep), ((2, 3, 64), 128, None, Some(100)));
    let deep = head.forward(&vec![2, 3, 64], DType::BF16, &vec![2, 3, 8]).unwrap();
    assert_eq!((deep.cast, deep.gathered, deep.shape), (None, (2, 6, 64), Some(vec![2, 3, 128])));
    let alone = VocabParallelLinear::load_no_bias(8, 100, &vb, &Comm::default(), &None, &None, DType::BF16).unwrap();
    assert!(alone.forward(&vec![3, 100], DType::F32, &vec![3, 8]).is_none());
    let local = VocabParallelLinear::from_weight_bias(100, true, &comm, 100, DType::BF16);
    assert_eq!(local.rows, VocabRows { pad_rows: 28, rows: Span { start: 64, len: 64 } });
    assert!(local.bias && local.all_gather.is_some());
    let whole = VocabParallelLinear::from_weight_bias(100, false, &Comm::default(), 90, DType::BF16);
    assert_eq!((whole.rows.rows.len, whole.all_gather.is_some(), whole.org_vocab_size), (100, false, 90));
}

#[test]
fn gathered_logits_come_back_in_vocabulary_order() {
    let ck = checkpoint(&[], false);
    let comm = Comm { rank: 0, world_size: 2 };
    let head =
        VocabParallelLinear::load_no_bias(8, 100, &VarBuilderX::new(&ck), &comm, &None, &None, DType::BF16).unwrap();
    let plan = head.forward(&vec![3, 64], DType::BF16, &vec![3, 8]).unwrap();
    let (ranks, batch, local) = plan.gathered;
    assert_eq!(ranks * local, plan.full_vocab);
    let gathered: Vec<(usize, usize)> =
        (0..ranks).flat_map(|r| (0..batch).flat_map(move |b| (0..local).map(move |v| (b, r * local + v)))).collect();
    for b in 0..batch {
        for v in 0..ranks * local {
            let at = (v / local) * batch * local + b * local + v % local;
            assert_eq!(gathered[at], (b, v));
        }
    }
}

#[test]
fn rearranged_layers_are_cut_after_reading() {
    let gguf = checkpoint(&[], true);
    let vb = VarBuilderX::new(&gguf);
    let comm = Comm { rank: 1, world_size: 2 };
    let column = load_restored_gguf_column_linear(&vb, 256, 12, "a", 12, QuantType::Q4K, &comm, DType::BF16).unwrap();
    assert_eq!((column.part, column.weight.shape), (Span { start: 6, len: 6 }, vec![12, 256]));
    assert_eq!(column.requant, QuantType::Q8_0);
    let whole = load_restored_gguf_column_linear(&vb, 256, 512, "a", 512, QuantType::Q4K, &comm, DType::BF16).unwrap();
    assert_eq!((whole.part, whole.requant), (Span { start: 256, len: 256 }, QuantType::Q4K));
    let row = load_restored_gguf_row_linear(&vb, 256, 12, "a", 256, QuantType::Q4K, &comm, DType::BF16).unwrap();
    assert_eq!((row.part, row.requant), (Span { start: 128, len: 128 }, QuantType::Q8_0));
    let qkv = load_restored_gguf_merged_qkv_linear(&vb, 256, 4, 8, 2, 4, 2, "a", QuantType::Q4K, &comm, DType::BF16).unwrap();
    assert_eq!(qkv.parts, [Span { start: 2, len: 2 }, Span { start: 6, len: 2 }, Span { start: 12, len: 4 }]);
    assert_eq!(qkv.output_splits, [2, 2, 4]);
    assert_eq!(qkv.heads, QkvHeads { key_dim: 4, k_heads: 2, v_heads: 4, head_v_dim: 2 });
    assert_eq!((qkv.dtype, row.dtype, row.dim, column.dim), (DType::BF16, DType::BF16, 1, 0));
    assert!(row.all_reduce && !column.all_reduce);
    let plain = checkpoint(&[], false);
    assert_eq!(
        load_restored_gguf_column_linear(&VarBuilderX::new(&plain), 256, 12, "a", 12, QuantType::Q4K, &comm, DType::BF16).err(),
        Some(RestoreError::NotGguf)
    );
    assert_eq!(
        load_restored_gguf_column_linear(&vb, 256, 11, "a", 11, QuantType::Q4K, &comm, DType::BF16).err(),
        Some(RestoreError::Chunk(ChunkError::NotDivisible { dim: 0, size: 11, world_size: 2 }))
    );
}

#[test]
fn norms_tables_and_convolutions_are_read() {
    let ck = checkpoint(&["e.scales"], false);
    let root = VarBuilderX::new(&ck);
    let vb = root.pp("n");
    let norm = rms_norm(16, &vb, DType::F32, true);
    assert_eq!((norm.weight.path.as_str(), norm.plus_one, norm.bias.is_none()), ("n.weight", true, true));
    let centred = layer_norm(16, true, &vb, DType::F32);
    assert!(centred.centred && centred.bias.is_some());
    assert!(matches!(embedding(Some(10), 16, &vb, DType::F32), Embedding::Plain { weight, .. } if weight.shape == [10, 16]));
    assert!(matches!(embedding(Some(10), 16, &root.pp("e"), DType::F32), Embedding::Packed { .. }));
    let gguf = checkpoint(&[], true);
    let qvb = VarBuilderX::new(&gguf);
    assert!(matches!(embedding(Some(10), 16, &qvb, DType::F32), Embedding::Stored { .. }));
    assert!(matches!(embedding(None, 16, &qvb, DType::F32), Embedding::Unsized { path } if path == "weight"));
    assert_eq!(Embedding::vocab_size(None, 7), 7);
    let cfg = Conv2dConfig { padding: 0, stride: 2, dilation: 1, groups: 1 };
    let conv = conv2d(3, 8, 2, cfg, &vb, true);
    assert_eq!((conv.weight.shape, conv.bias.unwrap().shape), (vec![8, 3, 2, 2], vec![8]));
    let pool = AvgPool2d::new(2, 2);
    assert_eq!((pool.kernel_size, pool.stride), (2, 2));
}

#[test]
fn two_frame_convolutions_have_two_layouts() {
    let ck = checkpoint(&[], false);
    let vb = VarBuilderX::new(&ck);
    let conv = Conv3dNoBias::new(3, 8, [2, 5, 6], Conv3dConfig::default(), &vb);
    assert_eq!(conv.weight.tries[0].shape, [8, 3, 2, 5, 6]);
    assert_eq!(conv.weight.tries[1].shape, [8, 2, 5, 6, 3]);
    let turned: Vec<usize> = conv.second_order.iter().map(|&d| conv.weight.tries[1].shape[d]).collect();
    assert_eq!(turned, conv.weight.tries[0].shape);
}

#[test]
fn packed_sequences_have_lengths_masks_and_last_rows() {
    let ends = vec![3u32, 4, 4, 9];
    assert_eq!(sequence_lens(&ends), vec![3, 1, 0, 5]);
    assert_eq!(causal_mask_sides(true, &ends), Some(vec![3, 1, 1, 5]));
    assert_eq!(causal_mask_sides(false, &ends), None);
    assert_eq!(causal_mask_sides(true, &vec![]), None);
    assert_eq!(last_rows(&vec![3, 4, 9]), vec![2, 3, 8]);
    assert_eq!(sequence_lens(&ends).iter().sum::<u32>(), 9);
}

#[test]
fn small_arithmetic() {
    assert_eq!((div_ceil(7, 4), div_ceil(8, 4), div_ceil(0, 4)), (2, 2, 0));
    assert_eq!((isqrt(0), isqrt(15), isqrt(16), isqrt(1_000_000)), (0, 3, 4, 1000));
    assert!(mul_fits(3, 5) && !mul_fits(usize::MAX, 2));
    assert!(sum_fits(3, 5) && !sum_fits(usize::MAX, 1));
}
