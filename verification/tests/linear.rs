use xinfer::checkpoint::{Checkpoint, DType, ScaleSource, TensorRead, VarBuilderX};
use xinfer::config::QuantConfig;
use xinfer::distributed::{shard, Shard, Span};
use xinfer::ggml::QuantType;
use xinfer::linear::{
    can_plan, cut_bias, cutlass_scale_layout, linear_b_x, linear_is_prefill, linear_no_bias_merged_x, linear_no_bias_x,
    linear_x, load_ln_fp8_with_hints, normalize_sharded_1d, normalize_sharded_2d, set_linear_is_prefill, swizzles_scales, Fp8Error, Fp8Pass,
    Linear, LinearSize, LinearX, LnFp8, LnMxfp4, LnNvfp4, MatmulPlan, MergedLinear, QLinear, QuantPart, ScaleLayout,
};

fn checkpoint(names: &[&str], gguf: bool, dtype: DType) -> Checkpoint {
    Checkpoint { names: names.iter().map(|n| n.to_string()).collect(), gguf, dtype }
}

fn quant(method: &str) -> QuantConfig {
    QuantConfig {
        quant_method: method.to_string(),
        weight_block_size: None,
        is_mlx_nvfp4: false,
        skipped_fp8: vec![],
        skipped_fp4: vec![],
    }
}

fn size(in_dim: usize, out_dim: usize, bias: bool) -> LinearSize {
    LinearSize { in_dim, out_dim, shard: shard(0, 1, 2), bias, dtype: DType::BF16 }
}

fn is_read(r: &TensorRead, path: &str, shape: &[usize], part: Shard, dtype: DType) -> bool {
    r.path == path && r.shape == shape && r.shard == part && r.dtype == dtype
}

#[test]
fn the_prefill_flag_is_restored() {
    let mut flag = false;
    let outer = set_linear_is_prefill(&mut flag, true);
    assert!(linear_is_prefill(&flag));
    let inner = set_linear_is_prefill(&mut flag, false);
    assert!(!linear_is_prefill(&flag));
    inner.restore(&mut flag);
    assert!(flag);
    outer.restore(&mut flag);
    assert!(!flag);
}

#[test]
fn biases_are_cut_like_outputs() {
    assert_eq!(cut_bias(12, shard(0, 2, 3)), Some(Span { start: 8, len: 4 }));
    assert_eq!(cut_bias(12, Shard::default()), None);
}

#[test]
fn inputs_meet_dense_weights() {
    assert!(matches!(Linear::forward(&vec![3, 8], 5), MatmulPlan::Direct));
    assert!(matches!(Linear::forward(&vec![2, 3, 8], 5), MatmulPlan::Broadcast(left) if left == [2]));
    assert!(matches!(Linear::forward(&vec![2, 1, 8], 5),
        MatmulPlan::Flatten { to, back } if to == [2, 8] && back == [2, 1, 5]));
    assert!(matches!(Linear::forward(&vec![2, 3, 4, 8], 5), MatmulPlan::Broadcast(left) if left == [2, 3]));
    assert!(matches!(Linear::forward(&vec![2, 1, 4, 8], 5),
        MatmulPlan::Flatten { to, back } if to == [2, 4, 8] && back == [2, 1, 4, 5]));
}

#[test]
fn inputs_meet_fp8_weights() {
    assert_eq!(LnFp8::forward(&vec![2, 3, 8], 5), Ok(Fp8Pass { flat: (6, 8), back: Some((2, 3, 5)) }));
    assert_eq!(LnFp8::forward(&vec![2, 1, 8], 5), Ok(Fp8Pass { flat: (2, 8), back: None }));
    assert_eq!(LnFp8::forward(&vec![2, 8], 5), Ok(Fp8Pass { flat: (2, 8), back: None }));
    assert_eq!(LnFp8::forward(&vec![8], 5), Err(Fp8Error::InputDims { dims: 1 }));
}

#[test]
fn inputs_meet_fp4_weights() {
    let pass = LnMxfp4::forward(&vec![2, 3, 8], 5);
    assert_eq!((pass.flat, pass.back), (Some((6, 8)), Some(vec![2, 3, 5])));
    let flat = LnNvfp4::forward(&vec![2, 8], 5);
    assert_eq!((flat.flat, flat.back), (None, None));
}

#[test]
fn plain_layers_are_read_as_they_are() {
    let ck = checkpoint(&[], false, DType::BF16);
    let root = VarBuilderX::new(&ck);
    let vb = root.pp("q");
    let part = shard(0, 1, 2);
    match linear_x(8, 6, &vb, part, &None, &None, DType::F32).unwrap() {
        LinearX::Linear(ln) => {
            assert!(is_read(&ln.weight, "q.weight", &[6, 8], part, DType::BF16));
            let bias = ln.bias.unwrap();
            assert!(is_read(&bias.read, "q.bias", &[6], Shard::default(), DType::BF16));
            assert_eq!(bias.keep, Some(Span { start: 3, len: 3 }));
            assert_eq!(ln.dtype, DType::F32);
        }
        _ => panic!("a dense layer was expected"),
    }
    match linear_no_bias_x(8, 6, &vb, part, &None, &Some("q4k".to_string()), DType::F32).unwrap() {
        LinearX::InSitu { linear, quant } => {
            assert!(linear.bias.is_none());
            assert_eq!(quant, "q4k");
        }
        _ => panic!("a layer that is quantized at load time was expected"),
    }
}

#[test]
fn block_quantized_files_keep_their_format() {
    let ck = checkpoint(&[], true, DType::F32);
    let root = VarBuilderX::new(&ck);
    let plan = linear_b_x(&root.pp("q"), size(8, 6, true), &Some(quant("fp8")), &None).unwrap();
    assert!(matches!(plan, LinearX::QLinear(ln) if is_read(&ln.weight, "q.weight", &[6, 8], Shard::default(), DType::F32)));
    assert_eq!(QLinear::part(QuantType::Q4K, 512, Shard::default()), QuantPart::Stored);
    assert_eq!(
        QLinear::part(QuantType::Q4K, 1024, shard(1, 1, 2)),
        QuantPart::Cut { dim: 1, span: Span { start: 512, len: 512 }, to: QuantType::Q4K }
    );
    assert_eq!(
        QLinear::part(QuantType::Q4K, 512, shard(1, 1, 4)),
        QuantPart::Cut { dim: 1, span: Span { start: 128, len: 128 }, to: QuantType::Q8_0 }
    );
    assert_eq!(QLinear::new_fused(QuantType::Q4K, 512, shard(1, 1, 4)), None);
    assert_eq!(
        QLinear::new_fused(QuantType::Q4K, 1024, shard(1, 1, 4)),
        Some(QuantPart::Cut { dim: 2, span: Span { start: 256, len: 256 }, to: QuantType::Q4K })
    );
    assert_eq!(QLinear::from_linear_x("q4k", 288), Some(QuantType::Q8_0));
}

#[test]
fn fp8_layers_need_scales_and_a_pair_of_block_sizes() {
    let ck = checkpoint(&["q.weight_scale_inv"], false, DType::BF16);
    let root = VarBuilderX::new(&ck);
    let mut cfg = quant("fp8");
    match linear_b_x(&root.pp("q"), size(256, 130, true), &Some(quant("fp8")), &None).unwrap() {
        LinearX::LnFp8(ln) => {
            assert_eq!((ln.by, ln.bx), (128, 128));
            assert!(is_read(&ln.weight, "q.weight", &[130, 256], shard(0, 1, 2), DType::U8));
            assert!(is_read(&ln.weight_scale.tries[0], "q.weight_scale", &[2, 2], shard(0, 1, 2), DType::F32));
            assert!(is_read(&ln.weight_scale.tries[1], "q.weight_scale_inv", &[2, 2], shard(0, 1, 2), DType::F32));
            assert!(is_read(&ln.bias.unwrap(), "q.bias", &[130], shard(0, 1, 2), DType::F32));
        }
        _ => panic!("an FP8 layer was expected"),
    }
    // without scales, a float file is read as it is
    assert!(matches!(linear_b_x(&root.pp("k"), size(256, 130, false), &Some(quant("fp8")), &None).unwrap(), LinearX::Linear(_)));
    cfg.skipped_fp8 = vec!["q".to_string()];
    assert!(matches!(linear_b_x(&root.pp("q"), size(256, 130, false), &Some(cfg), &None).unwrap(), LinearX::Linear(_)));
    let mut odd = quant("fp8");
    odd.weight_block_size = Some(vec![128]);
    assert!(matches!(
        linear_b_x(&root.pp("q"), size(256, 130, false), &Some(odd), &None),
        Err(Fp8Error::BlockSizeLen { len: 1 })
    ));
    let mut zero = quant("fp8");
    zero.weight_block_size = Some(vec![0, 128]);
    assert!(!can_plan(size(256, 130, false), false, &Some(zero)));
}

#[test]
fn fp8_layers_may_be_cast_after_reading() {
    let ck = checkpoint(&[], false, DType::BF16);
    let vb = VarBuilderX::new(&ck);
    let ln = LnFp8::new(256, 130, &vb, shard(0, 1, 2), &quant("fp8")).unwrap();
    assert!(is_read(&ln.weight, "weight", &[130, 256], shard(0, 1, 2), DType::BF16));
    assert_eq!(ln.bias.keep, Some(Span { start: 65, len: 65 }));
    let mut odd = quant("fp8");
    odd.weight_block_size = Some(vec![1, 2, 3]);
    assert!(matches!(LnFp8::new(256, 130, &vb, Shard::default(), &odd), Err(Fp8Error::BlockSizeLen { len: 3 })));
    assert!(load_ln_fp8_with_hints(256, 130, &vb, Shard::default(), &odd, false).is_err());
}

#[test]
fn fp4_layers_follow_the_names_in_the_file() {
    let ck = checkpoint(&["a.weight_packed", "a.weight_scale", "a.weight_global_scale", "b.blocks", "c.weight"], false, DType::BF16);
    let root = VarBuilderX::new(&ck);
    match linear_b_x(&root.pp("a"), size(64, 6, false), &Some(quant("nvfp4")), &None).unwrap() {
        LinearX::LnNvfp4(ln) => {
            assert!(is_read(&ln.blocks, "a.weight_packed", &[6, 32], shard(0, 1, 2), DType::U8));
            assert!(is_read(&ln.scales, "a.weight_scale", &[6, 4], shard(0, 1, 2), DType::U8));
            assert!(!matches!(ln.global_scale, ScaleSource::One));
            assert!(matches!(ln.input_scale, ScaleSource::One));
        }
        _ => panic!("an NVFP4 layer was expected"),
    }
    match linear_b_x(&root.pp("b"), size(64, 6, false), &Some(quant("mxfp4")), &None).unwrap() {
        LinearX::LnMxfp4(ln) => {
            assert!(is_read(&ln.blocks, "b.blocks", &[6, 32], shard(0, 1, 2), DType::U8));
            assert!(is_read(&ln.scales, "b.scales", &[6, 2], shard(0, 1, 2), DType::U8));
        }
        _ => panic!("an MXFP4 layer was expected"),
    }
    assert!(matches!(linear_b_x(&root.pp("c"), size(64, 6, false), &Some(quant("mxfp4")), &None).unwrap(), LinearX::Linear(_)));
    match linear_b_x(&root.pp("c"), size(64, 6, true), &Some(quant("gptq")), &None).unwrap() {
        LinearX::Wna16 { scope, size: s } => {
            assert_eq!((scope.as_str(), s.in_dim, s.out_dim, s.bias, s.shard), ("c", 64, 6, true, size(64, 6, true).shard));
        }
        _ => panic!("a packed layer was expected"),
    }
}

#[test]
fn nvfp4_files_may_hold_fp8_layers() {
    let ck = checkpoint(&["a.weight_scale"], false, DType::BF16);
    let root = VarBuilderX::new(&ck);
    let plan = linear_b_x(&root.pp("a"), size(256, 128, false), &Some(quant("nvfp4")), &None).unwrap();
    assert!(matches!(plan, LinearX::LnFp8OrLinear { .. }));
}

#[test]
fn what_was_read_is_cut_once() {
    assert_eq!(normalize_sharded_1d(6, shard(0, 1, 2), 12), Ok(None));
    assert_eq!(normalize_sharded_1d(12, shard(0, 1, 2), 12), Ok(Some(Span { start: 6, len: 6 })));
    assert_eq!(normalize_sharded_1d(5, shard(0, 1, 2), 12), Err(Fp8Error::Shape { got: 5, local: 6, global: 12 }));
    assert_eq!(normalize_sharded_1d(5, Shard::default(), 12), Ok(None));
    assert_eq!(normalize_sharded_2d((3, 12), shard(1, 1, 2), (3, 12)), Ok(Some(Span { start: 6, len: 6 })));
    assert_eq!(normalize_sharded_2d((3, 12), shard(2, 1, 2), (3, 12)), Err(Fp8Error::ShardDim { dim: 2 }));
}

#[test]
fn scales_are_laid_out_for_the_device() {
    assert_eq!(cutlass_scale_layout(89), ScaleLayout::Plain);
    assert_eq!(cutlass_scale_layout(90), ScaleLayout::TransposedCopy);
    assert_eq!(cutlass_scale_layout(100), ScaleLayout::TransposedView);
    assert!(swizzles_scales(100) && !swizzles_scales(99));
}

#[test]
fn merged_experts_are_cut_inside_each() {
    let ck = checkpoint(&[], false, DType::BF16);
    let vb = VarBuilderX::new(&ck);
    match linear_no_bias_merged_x(4, size(8, 6, false), &vb, &None) {
        MergedLinear::Linear(ln) => assert!(is_read(&ln.weight, "weight", &[4, 6, 8], shard(1, 1, 2), DType::BF16)),
        _ => panic!("a dense layer was expected"),
    }
    assert!(matches!(linear_no_bias_merged_x(4, size(8, 6, false), &vb, &Some("q8".to_string())), MergedLinear::InSitu { .. }));
    let gguf = checkpoint(&[], true, DType::F32);
    let vb = VarBuilderX::new(&gguf);
    match linear_no_bias_merged_x(4, size(8, 6, false), &vb, &None) {
        MergedLinear::Stored { weight, bias, .. } => {
            assert!(is_read(&weight, "weight", &[4, 6, 8], Shard::default(), DType::F32));
            assert!(is_read(&bias.read, "bias", &[6], Shard::default(), DType::F32));
            assert_eq!(bias.keep, Some(Span { start: 3, len: 3 }));
        }
        _ => panic!("stored blocks were expected"),
    }
}
