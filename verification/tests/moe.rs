use xinfer::checkpoint::{Checkpoint, DType, ScaleSource, VarBuilderX};
use xinfer::config::{Config, MoEConfig, QuantConfig};
use xinfer::distributed::{shard, Comm, Span};
use xinfer::ggml::QuantType;
use xinfer::linear::LinearX;
use xinfer::moe::blocks::{split_blocks, BlockForm, ExpertCut, FusedMoeGGUF, FusedMoeISQ, IsqExperts};
use xinfer::moe::experts::{
    expert_proj, expert_sizes, resolve_expert_proj_prefix_x, resolve_packed_down_layout, resolve_packed_gate_up_layout,
    ExpertSource, FusedMoe, MoeError, PackedDownLayout, PackedGateUpLayout, Proj,
};
use xinfer::mlp::JoinedRows;
use xinfer::moe::fp4::{FusedMoeMxfp4, FusedMoeNvfp4, Nvfp4Experts};
use xinfer::moe::fp8::{Fp8Experts, FusedMoeFp8};
use xinfer::moe::pass::{gated_activation, moe_pass, ExpertFormat, GatedPass, MoeInput, RouterWeights};
use xinfer::moe::routing::{
    presorted_expert_assignments, select_topk_indices, sort_expert_assignments, MoeRouting, RouteError,
};

fn checkpoint(names: &[&str], gguf: bool) -> Checkpoint {
    Checkpoint { names: names.iter().map(|n| n.to_string()).collect(), gguf, dtype: DType::BF16 }
}

fn moe(experts: usize, width: usize) -> MoEConfig {
    MoEConfig {
        moe_intermediate_size: width,
        num_experts: Some(experts),
        num_experts_per_tok: 2,
        norm_topk_prob: true,
        n_group: None,
        topk_group: None,
        topk_method: None,
        scoring_func: None,
        shared_expert_intermediate_size: None,
        n_shared_experts: None,
    }
}

fn config(arch: &str, hidden: usize, experts: usize, width: usize) -> Config {
    Config {
        architectures: Some(vec![arch.to_string()]),
        head_dim: None,
        num_attention_heads: 4,
        num_key_value_heads: 2,
        max_position_embeddings: 1024,
        hidden_size: hidden,
        num_hidden_layers: 2,
        intermediate_size: 64,
        vocab_size: Some(100),
        attention_bias: None,
        qkv_bias: None,
        attn_output_gate: None,
        tie_word_embeddings: None,
        sliding_window: None,
        quant: None,
        moe_cfg: Some(moe(experts, width)),
        quantization_config: None,
        extra_config_json: None,
        expert_dtype: None,
        is_f16_mode: false,
        higher_precision_required: false,
        fp8_keys: false,
    }
}

fn quant(method: &str, block: Option<Vec<usize>>) -> QuantConfig {
    QuantConfig {
        quant_method: method.to_string(),
        weight_block_size: block,
        is_mlx_nvfp4: false,
        skipped_fp8: vec![],
        skipped_fp4: vec![],
    }
}

#[test]
fn the_largest_keys_are_chosen() {
    let top = select_topk_indices(&vec![5, -3, 9, 7], 3).unwrap();
    assert_eq!(top, vec![2, 3, 0]);
    assert_eq!(select_topk_indices(&vec![], 1), Err(RouteError::Keys { len: 0 }));
    assert_eq!(select_topk_indices(&vec![1, 2], 3), Err(RouteError::TooFew { have: 2, want: 3 }));
}

#[test]
fn assignments_are_sorted_by_expert() {
    let (experts, tokens) = sort_expert_assignments(&vec![3, 0, 2, 1]).unwrap();
    assert_eq!(experts, vec![0, 1, 2, 3]);
    assert_eq!(tokens, vec![1, 3, 2, 0]);
    assert!(presorted_expert_assignments(&vec![3, 0], false).unwrap().is_none());
    assert_eq!(presorted_expert_assignments(&vec![3, 0], true).unwrap(), Some((vec![1, 0], vec![0, 3])));
    assert_eq!(presorted_expert_assignments(&vec![], true), Err(RouteError::Keys { len: 0 }));
}

#[test]
fn routing_narrows_down_to_groups() {
    let mut cfg = moe(8, 4);
    cfg.scoring_func = Some("sigmoid".to_string());
    cfg.n_group = Some(4);
    cfg.topk_group = Some(2);
    let routing = MoeRouting::from_moe_cfg(&cfg);
    assert!(routing.use_sigmoid_scoring);
    assert_eq!(routing.check_groups(8), Ok(2));
    // the best expert is in a group that is not chosen
    let keys = vec![1, 2, 9, 0, 5, 6, 7, 3];
    assert_eq!(routing.group_best(&keys), Ok(vec![vec![1, 0], vec![0, 1], vec![1, 0], vec![0, 1]]));
    assert_eq!(MoeRouting { n_group: 2, ..routing }.group_best(&keys), Ok(vec![vec![2, 1], vec![2, 1]]));
    assert_eq!(MoeRouting { n_group: 8, ..routing }.group_best(&keys), Ok(vec![vec![0]; 8]));
    assert_eq!(routing.group_best(&vec![1; 6]), Err(RouteError::NotDivisible { experts: 6, groups: 4 }));
    let chosen = routing.route(&keys, &vec![3, 1, 20, 10], -1).unwrap();
    assert_eq!(chosen, vec![6, 5]);
    assert_eq!(MoeRouting::mask_groups(&keys, &vec![2, 3], 2, -1), vec![-1, -1, -1, -1, 5, 6, 7, 3]);
}

#[test]
fn routing_refuses_groups_that_do_not_fit() {
    let mut routing = MoeRouting::from_moe_cfg(&moe(8, 4));
    assert_eq!((routing.n_group, routing.topk_group, routing.use_sigmoid_scoring), (1, 1, false));
    assert_eq!(routing.route(&vec![1, 2, 9, 0], &vec![], 0).unwrap(), vec![2, 1]);
    routing.use_sigmoid_scoring = true;
    routing.n_group = 3;
    assert_eq!(routing.check_groups(8), Err(RouteError::NotDivisible { experts: 8, groups: 3 }));
    routing.n_group = 4;
    routing.topk_group = 5;
    assert_eq!(routing.check_groups(8), Err(RouteError::TooFewGroups { chosen: 5, groups: 4 }));
    routing.topk_group = 1;
    routing.num_experts_per_tok = 3;
    assert_eq!(routing.check_groups(8), Err(RouteError::Capacity { capacity: 2, want: 3 }));
    routing.num_experts_per_tok = 2;
    assert_eq!(
        routing.route(&vec![0; 8], &vec![1, 2], 0),
        Err(RouteError::GroupKeys { have: 2, want: 4 })
    );
}

#[test]
fn packed_layouts_follow_the_architecture() {
    let qwen = config("Qwen3_5MoeForCausalLM", 16, 4, 8);
    assert_eq!(resolve_packed_gate_up_layout(&qwen), Ok(PackedGateUpLayout::InterPacked));
    assert_eq!(resolve_packed_down_layout(&qwen), PackedDownLayout::HiddenInter);
    assert_eq!(expert_sizes(&qwen), (4, 8));
    let other = config("X", 20, 4, 8);
    assert_eq!(resolve_packed_gate_up_layout(&other), Ok(PackedGateUpLayout::HiddenPacked));
    assert_eq!(resolve_packed_down_layout(&other), PackedDownLayout::InterHidden);
    assert_eq!(
        resolve_packed_gate_up_layout(&config("X", 16, 4, 8)),
        Err(MoeError::AmbiguousLayout { hidden_size: 16, intermediate_size: 8 })
    );
}

#[test]
fn expert_names_follow_the_file() {
    let ck = checkpoint(&["e.0.gate_proj.weight"], false);
    let root = VarBuilderX::new(&ck);
    let experts = root.pp("e");
    assert_eq!(resolve_expert_proj_prefix_x(&experts.pp("0")), ("gate_proj", "up_proj", "down_proj"));
    assert_eq!(resolve_expert_proj_prefix_x(&experts.pp("1")), ("w1", "w3", "w2"));
    assert_eq!(expert_proj(&experts, 0, Proj::Down).prefix, "e.0.down_proj");
    assert_eq!(expert_proj(&experts, 12, Proj::Up).prefix, "e.12.w3");
}

#[test]
fn plain_experts_are_read_one_by_one() {
    let ck = checkpoint(&["experts.0.gate_proj.weight", "experts.1.gate_proj.weight"], false);
    let vb = VarBuilderX::new(&ck);
    let m = FusedMoe::new(&config("X", 16, 2, 8), &vb, &Comm { rank: 1, world_size: 2 }, DType::BF16).unwrap();
    assert!(matches!(&m.gate, LinearX::Linear(l) if l.weight.path == "gate.weight"));
    match m.experts.gate {
        ExpertSource::Each(reads) => {
            assert_eq!(reads.len(), 2);
            assert_eq!((reads[1].path.as_str(), reads[1].shape.clone()), ("experts.1.gate_proj.weight", vec![8, 16]));
            assert_eq!(reads[1].shard, shard(0, 1, 2));
        }
        _ => panic!("separate experts were expected"),
    }
    assert_eq!(m.bias.tries[0].path, "gate.e_score_correction_bias");
    assert_eq!(m.bias.tries[1].path, "e_score_correction_bias");
}

#[test]
fn packed_experts_are_halved_by_shards() {
    let ck = checkpoint(&["experts.gate_up_proj"], false);
    let vb = VarBuilderX::new(&ck);
    let cfg = config("Qwen3_5MoeForCausalLM", 16, 2, 8);
    let m = FusedMoe::new(&cfg, &vb, &Comm { rank: 1, world_size: 2 }, DType::BF16).unwrap();
    match (m.experts.gate, m.experts.up) {
        (ExpertSource::Packed(g), ExpertSource::Packed(u)) => {
            assert_eq!((g.read.shape, g.read.shard), (vec![2, 16, 16], shard(1, 1, 4)));
            assert_eq!(u.read.shard, shard(1, 3, 4));
            assert!(!g.transpose);
        }
        _ => panic!("packed experts were expected"),
    }
}

#[test]
fn block_parts_are_whole_blocks() {
    assert_eq!(split_blocks(512, &Comm { rank: 1, world_size: 2 }, 256), Some(Span { start: 256, len: 256 }));
    let uneven: Vec<_> = (0..2).map(|rank| split_blocks(768, &Comm { rank, world_size: 2 }, 256)).collect();
    assert_eq!(uneven[0].unwrap().len + uneven[1].unwrap().len, 768);
    assert!(uneven[0].unwrap().start == 0 && uneven[1].unwrap().start == uneven[0].unwrap().len);
    assert_eq!(split_blocks(256, &Comm { rank: 1, world_size: 2 }, 256), None);
}

#[test]
fn stored_and_quantized_experts_are_planned() {
    let gguf = checkpoint(&[], true);
    let cfg = config("X", 256, 2, 512);
    let m = FusedMoeGGUF::new(&cfg, &VarBuilderX::new(&gguf), &Comm { rank: 1, world_size: 2 }).unwrap();
    let span = Span { start: 256, len: 256 };
    assert_eq!((m.part, m.joined), (Some(span), JoinedRows::of(512)));
    assert_eq!(
        m.form(Some(QuantType::Q6K)),
        BlockForm {
            gate_up_cut: Some(ExpertCut { dim: 1, span }),
            gate_up: Some(QuantType::Q4K),
            down_cut: Some(ExpertCut { dim: 2, span }),
            down: Some(QuantType::Q8_0),
        }
    );
    let alone = FusedMoeGGUF::new(&cfg, &VarBuilderX::new(&gguf), &Comm::default()).unwrap();
    let stored = BlockForm { gate_up_cut: None, gate_up: None, down_cut: None, down: None };
    assert_eq!(alone.form(None), stored);
    assert_eq!(alone.form(Some(QuantType::Q6K)), BlockForm { gate_up: Some(QuantType::Q6K), ..stored });
    let ck = checkpoint(&["experts.0.gate_proj.weight", "experts.1.gate_proj.weight"], false);
    let mut isq = config("X", 256, 2, 512);
    isq.quant = Some("q4k".to_string());
    let m = FusedMoeISQ::new(&isq, &VarBuilderX::new(&ck), &Comm { rank: 0, world_size: 1 }).unwrap();
    assert_eq!(m.quant_type, QuantType::Q4K);
    assert!(matches!(m.experts, IsqExperts::Parts(_)));
    assert_eq!(m.form(), BlockForm { gate_up: Some(QuantType::Q4K), down: Some(QuantType::Q8_0), ..stored });
}

#[test]
fn fp8_experts_carry_scales() {
    let ck = checkpoint(&["experts.0.gate_proj.weight", "experts.1.gate_proj.weight"], false);
    let vb = VarBuilderX::new(&ck);
    let cfg = config("X", 256, 2, 256);
    let m = FusedMoeFp8::new(&cfg, &vb, &Comm::default(), DType::BF16, &quant("fp8", Some(vec![128, 128]))).unwrap();
    assert_eq!((m.by, m.bx), (128, 128));
    assert!(matches!(m.experts, Fp8Experts::Each { gate, .. } if gate.len() == 2));
    assert_eq!(
        FusedMoeFp8::new(&cfg, &vb, &Comm::default(), DType::BF16, &quant("fp8", Some(vec![1, 2, 3]))).err(),
        Some(MoeError::BlockSizeLen { len: 3 })
    );
}

#[test]
fn fp4_experts_carry_scales() {
    let ck = checkpoint(
        &[
            "experts.0.w1.weight_packed",
            "experts.0.w1.weight_scale",
            "experts.0.w1.weight_scale_2",
            "experts.0.w3.weight_scale_2",
        ],
        false,
    );
    let vb = VarBuilderX::new(&ck);
    let cfg = config("X", 64, 1, 32);
    let m = FusedMoeMxfp4::new(&cfg, &vb, &Comm::default(), DType::BF16).unwrap();
    assert_eq!(m.experts.gate[0].blocks.path, "experts.0.w1.weight_packed");
    assert_eq!(m.experts.gate[0].scales.shape, [32, 2]);
    assert_eq!(m.experts.down[0].blocks.shape, [64, 16]);
    let mut n = FusedMoeNvfp4::new(&cfg, &vb, &Comm::default(), DType::BF16).unwrap();
    n.set_sigmoid_routing();
    n.set_apply_router_weight_on_input(true);
    assert!(n.routing.use_sigmoid_scoring && n.apply_router_weight_on_input);
    match n.experts {
        Nvfp4Experts::Each(e) => {
            assert_eq!(e.gate[0].scales.shape, [32, 4]);
            assert_eq!((e.gate_up_global.len(), e.gate_up_input.len()), (1, 1));
            // the factor of gate counts, though up has its own
            match (&e.gate_up_global[0], &e.up[0].global_scale) {
                (ScaleSource::Direct(a), ScaleSource::Direct(b)) => {
                    assert!(a.tries[0].path.contains("w1") && b.tries[0].path.contains("w3"));
                }
                _ => panic!("stored factors were expected"),
            }
            assert!(matches!(e.gate_up_input[0], ScaleSource::One));
            assert_eq!(e.joined, JoinedRows::of(e.joined.gate.len));
            assert_eq!(e.joined.up.start, e.joined.gate.len);
        }
        Nvfp4Experts::Packed(_) => panic!("experts one by one were expected"),
    }
    let gguf = checkpoint(&[], true);
    assert_eq!(
        FusedMoeMxfp4::new(&cfg, &VarBuilderX::new(&gguf), &Comm::default(), DType::BF16).err(),
        Some(MoeError::Gguf)
    );
    assert_eq!(
        FusedMoeMxfp4::new(&config("X", 64, 0, 32), &vb, &Comm::default(), DType::BF16).err(),
        Some(MoeError::NoExperts)
    );
}

#[test]
fn passes_follow_the_format() {
    let input = MoeInput {
        tokens: 3,
        hidden: 16,
        topk: 2,
        input: DType::F32,
        gate_dtype: DType::F32,
        dtype: DType::BF16,
        is_prefill: false,
        world_size: 2,
    };
    let plain = moe_pass(ExpertFormat::Plain, input);
    assert_eq!((plain.experts, plain.result, plain.sorts, plain.all_reduce), (DType::F32, None, true, true));
    assert_eq!(plain.outputs, (3, 2, 16));
    let blocks = moe_pass(ExpertFormat::Blocks, MoeInput { input: DType::BF16, ..input });
    assert_eq!((blocks.router, blocks.experts, blocks.result), (DType::F32, DType::F32, Some(DType::BF16)));
    assert_eq!((blocks.sums, plain.sums), (Some(DType::BF16), None));
    assert_eq!(moe_pass(ExpertFormat::Fp8, input).experts, DType::BF16);
    let mxfp4 = moe_pass(ExpertFormat::Mxfp4, MoeInput { dtype: DType::F32, ..input });
    assert_eq!((mxfp4.experts, mxfp4.sorts, mxfp4.result), (DType::BF16, false, Some(DType::F32)));
    let nvfp4 = moe_pass(ExpertFormat::Nvfp4 { weight_on_input: true }, input);
    assert_eq!((nvfp4.weights, nvfp4.sorts), (RouterWeights::Inputs, false));
    assert_eq!(gated_activation(4, true), GatedPass::Fused { half: 4 });
}

#[test]
fn packed_parts_have_to_fit_together() {
    assert!(FusedMoe::packed_shapes_agree((32, 64), (32, 64), (64, 32), 64));
    assert!(!FusedMoe::packed_shapes_agree((32, 64), (32, 64), (32, 64), 64));
}
