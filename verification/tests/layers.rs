use xinfer::attention::{
    name_of_part, Attention, AttentionError, AttnPart, AttnShape, GateSplit, NaiveAttention, NormShapes, PackedQkv, QkNormUse,
    QkNorms, QkvProjection, QkvSize,
};
use xinfer::checkpoint::{Checkpoint, DType, VarBuilderX};
use xinfer::config::{Config, HeadSize, QuantConfig};
use xinfer::distributed::{shard, Comm, KvShardError, Shard, Span};
use xinfer::linear::{Fp8Error, LinearX};
use xinfer::minimax3::{BlockChoice, MiniMax3SparseAttention, SparseError, SparseIndex, SparsePass};
use xinfer::mla::{DsaIndexer, HeadRows, IndexerConfig, MlaAttention, MlaConfig, MlaError, MlaInputs, MlaPath, QueryProjection, StoredUp, UpProjection};
use xinfer::mlp::{
    resolve_names, GateUpOutputs, GateUpProjection, Half, JoinedRows, MergedGateUp, MlpSize, NaiveMLP, PackedGateUp, MLP,
};

fn checkpoint(names: &[&str], gguf: bool) -> Checkpoint {
    Checkpoint { names: names.iter().map(|n| n.to_string()).collect(), gguf, dtype: DType::BF16 }
}

fn config(arch: &str) -> Config {
    Config {
        architectures: Some(vec![arch.to_string()]),
        head_dim: Some(16),
        num_attention_heads: 8,
        num_key_value_heads: 4,
        max_position_embeddings: 1024,
        hidden_size: 128,
        num_hidden_layers: 2,
        intermediate_size: 256,
        vocab_size: Some(100),
        attention_bias: None,
        qkv_bias: None,
        attn_output_gate: None,
        tie_word_embeddings: None,
        sliding_window: None,
        quant: None,
        moe_cfg: None,
        quantization_config: None,
        extra_config_json: None,
        expert_dtype: None,
        is_f16_mode: false,
        higher_precision_required: false,
        fp8_keys: false,
    }
}

fn quant(method: &str, block: Option<Vec<usize>>) -> QuantConfig {
    QuantConfig {
        quant_method: method.to_string(),
        weight_block_size: block,
        is_mlx_nvfp4: false,
        skipped_fp8: vec![],
        skipped_fp4: vec![],
    }
}

#[test]
fn attention_shapes_follow_the_architecture() {
    let cfg = config("LlamaForCausalLM");
    let plain = AttnShape::of_config(&cfg, cfg.heads(), false);
    assert_eq!((plain.head_dim, plain.q_out_dim, plain.kv_out_dim, plain.width), (16, 128, 64, 128));
    assert!(plain.bias && !plain.output_gate && !plain.norm_plus_one);
    let next = config("Qwen3NextForCausalLM");
    let gated = AttnShape::of_config(&next, next.heads(), false);
    assert!(gated.output_gate && !gated.bias && gated.norm_plus_one && gated.no_per_head_norm);
    assert_eq!(gated.q_out_dim, 256);
    let gemma = config("Gemma4ForCausalLM");
    assert!(AttnShape::of_config(&gemma, gemma.heads(), false).norm_values);
    let derived = AttnShape::of_config(&cfg, HeadSize { head_dim: None, num_kv_heads: 2 }, false);
    assert_eq!((derived.head_dim, derived.kv_out_dim), (16, 32));
    assert_eq!(name_of_part(true, AttnPart::O), "attn_output");
    assert_eq!(name_of_part(false, AttnPart::QNorm), "q_norm");
}

#[test]
fn attention_layers_are_planned_for_a_rank() {
    let ck = checkpoint(&[], false);
    let root = VarBuilderX::new(&ck);
    let cfg = config("LlamaForCausalLM");
    let a = Attention::new(&root.pp("self_attn"), &Comm { rank: 3, world_size: 8 }, &cfg, Some(64), DType::BF16).unwrap();
    assert_eq!((a.num_heads, a.num_kv_heads, a.sliding_window), (1, 1, Some(64)));
    match &a.qkv_proj {
        QkvProjection::Packed { packed, otherwise } => {
            assert_eq!(packed.output_splits(), [16, 16, 16]);
            let paths: Vec<_> = packed.parts().iter().map(|p| p.weight.path.clone()).collect();
            assert!(paths[0].contains("q_proj") && paths[1].contains("k_proj") && paths[2].contains("v_proj"));
            assert_eq!(packed.k.weight.shard, shard(0, 1, 4));
            assert!(matches!(&otherwise.q_proj.linear, LinearX::Linear(l) if l.weight.path == "self_attn.q_proj.weight"));
            assert_eq!((packed.k.bias_dtype, packed.q.bias.as_ref().map(|b| b.dtype)), (DType::BF16, Some(DType::F32)));
            assert_eq!(packed.settles(true, (true, true, true)), Ok(true));
            assert_eq!(packed.settles(true, (true, false, true)), Ok(false));
            let unread = if packed.block.is_none() { Err(AttentionError::Unread) } else { Ok(false) };
            assert_eq!(packed.settles(false, (true, true, true)), unread);
        }
        QkvProjection::Separate(_) => panic!("packed projections were expected"),
    }
    assert_eq!(
        Attention::new(&root, &Comm { rank: 0, world_size: 3 }, &cfg, None, DType::BF16).err(),
        Some(AttentionError::KvHeads(KvShardError::NotPartitioned { heads: 4, world_size: 3 }))
    );
    let mut fp8 = config("LlamaForCausalLM");
    fp8.quantization_config = Some(quant("fp8", None));
    assert_eq!(Attention::new(&root, &Comm::default(), &fp8, None, DType::BF16).err(), Some(AttentionError::NoBlockSize));
    fp8.quantization_config = Some(quant("fp8", Some(vec![128])));
    assert_eq!(
        Attention::new(&root, &Comm::default(), &fp8, None, DType::BF16).err(),
        Some(AttentionError::Fp8(Fp8Error::BlockSizeLen { len: 1 }))
    );
}

#[test]
fn attention_passes_split_gates_and_pick_norms() {
    let ck = checkpoint(&[], false);
    let vb = VarBuilderX::new(&ck);
    let a = Attention::new(&vb, &Comm::default(), &config("Qwen3NextForCausalLM"), None, DType::BF16).unwrap();
    let pass = a.forward_ext(5, Some(3), 256, DType::BF16, QkNormUse::Heads).unwrap();
    assert_eq!(pass.gate, Some(GateSplit { query: Span { start: 0, len: 16 }, gate: Span { start: 16, len: 16 } }));
    assert_eq!((pass.q_shape, pass.kv_shape, pass.norm), ((5, 8, 16), (5, 4, 16), Some(NormShapes::Whole)));
    assert_eq!(
        a.forward_ext(5, None, 128, DType::BF16, QkNormUse::Unused).err(),
        Some(AttentionError::QueryWidth { expected: 256, got: 128 })
    );
    assert_eq!(a.forward_ext(5, Some(2), 256, DType::BF16, QkNormUse::Unused).err(), Some(AttentionError::Outputs { got: 2 }));
    let plain = Attention::new(&vb, &Comm::default(), &config("LlamaForCausalLM"), None, DType::BF16).unwrap();
    let rows = plain.forward_ext(5, Some(3), 128, DType::BF16, QkNormUse::Heads).unwrap();
    assert_eq!(rows.norm, Some(NormShapes::Rows { q: (40, 16), k: (20, 16) }));
    let full = plain.forward_ext(5, Some(3), 128, DType::BF16, QkNormUse::FullDim).unwrap();
    assert_eq!(full.norm, Some(NormShapes::FullDim { q: (5, 128), k: (5, 64) }));
    assert_eq!(QkNorms::settle(true, true, true, true), QkNormUse::Heads);
    assert_eq!(QkNorms::settle(true, false, true, true), QkNormUse::FullDim);
    assert_eq!(QkNorms::settle(true, false, true, false), QkNormUse::Unused);
}

#[test]
fn packed_projections_need_a_plain_or_fp8_file() {
    let ck = checkpoint(&[], true);
    let vb = VarBuilderX::new(&ck);
    let size = QkvSize {
        hidden_size: 128,
        q_out_dim: 128,
        kv_out_dim: 64,
        q_shard: Shard::default(),
        kv_shard: Shard::default(),
        bias: false,
        dtype: DType::BF16,
    };
    assert!(PackedQkv::try_load_packed_qkv(&vb, size, &None, &None, false).unwrap().is_none());
}

#[test]
fn naive_attention_runs_in_chunks_of_queries() {
    let ck = checkpoint(&[], false);
    let a = NaiveAttention::new(&VarBuilderX::new(&ck), 4, 64, 16, DType::BF16, None);
    let pass = a.forward(2, 2500);
    assert_eq!(pass.heads, (2, 2500, 4, 16));
    let spans = pass.chunks;
    assert_eq!(spans.iter().map(|s| s.len).sum::<usize>(), 2500);
    for pair in spans.windows(2) {
        assert_eq!(pair[0].start + pair[0].len, pair[1].start);
    }
    assert!(a.forward(1, 0).chunks.is_empty());
}

#[test]
fn feed_forward_layers_are_planned_for_a_rank() {
    let ck = checkpoint(&["w1.weight"], false);
    let vb = VarBuilderX::new(&ck);
    let size = MlpSize { hidden_size: 128, intermediate_size: 256, gate_up_merged: false, dtype: DType::BF16 };
    let comm = Comm { rank: 1, world_size: 2 };
    let m = MLP::new(&vb, &comm, size, &None, &None, "").unwrap();
    assert!(m.down_proj.all_reduce);
    assert_eq!(resolve_names(&vb, false, "").0, "w1");
    let merged = MlpSize { gate_up_merged: true, ..size };
    let m = MLP::new(&vb, &comm, merged, &None, &None, "").unwrap();
    match m.gate_up_proj {
        GateUpProjection::Packed { packed, .. } => {
            assert_eq!((packed.gate.rows, packed.up.rows), (128, 128));
            assert_eq!(packed.output_splits(), [128, 128]);
            assert_eq!((packed.joined, packed.joined_scales), (JoinedRows::of(128), None));
            assert_eq!(packed.gate.weight.tries[0].shard, shard(0, 1, 4));
            assert_eq!(packed.up.weight.tries[0].shard, shard(0, 3, 4));
            assert!(packed.settles(true) && !packed.settles(false));
        }
        GateUpProjection::Separate { .. } => panic!("packed projections were expected"),
    }
    assert_eq!(MLP::new(&vb, &comm, size, &Some(quant("fp8", None)), &None, "").err(), Some(AttentionError::NoBlockSize));
    assert!(PackedGateUp::try_load_packed_gate_up(&vb, &comm, size, &None, &Some("q8".to_string())).unwrap().is_none());
}

#[test]
fn merged_passes_flatten_inputs() {
    let pass = MLP::merged_pass(&vec![2, 3, 8], 5);
    assert_eq!((pass.flat, pass.shape), (Some((6, 8)), vec![2, 3, 5]));
    assert_eq!((pass.gate, pass.up), (Span { start: 0, len: 5 }, Span { start: 5, len: 5 }));
    assert_eq!(MLP::merged_pass(&vec![3, 8], 5).flat, None);
    assert_eq!(MLP::forward(2), Ok(()));
    assert_eq!(MLP::forward(3), Err(GateUpOutputs { got: 3 }));
}

#[test]
fn nvfp4_halves_are_merged_when_alike() {
    let ck = checkpoint(
        &["gate_proj.weight_packed", "gate_proj.weight_scale", "up_proj.weight_packed", "up_proj.weight_scale"], false);
    let vb = VarBuilderX::new(&ck);
    let size = MlpSize { hidden_size: 128, intermediate_size: 256, gate_up_merged: false, dtype: DType::BF16 };
    let m = MLP::new(&vb, &Comm::default(), size, &Some(quant("nvfp4", None)), &None, "").unwrap();
    match m.gate_up_proj {
        GateUpProjection::Separate { gate_proj, up_proj } => {
            let dims = vec![256, 64];
            let merged = MergedGateUp {
                rows: 256,
                joined: JoinedRows { gate: Span { start: 0, len: 256 }, up: Span { start: 256, len: 256 } },
                global_from: Half::Gate,
                input_from: Half::Up,
            };
            assert_eq!((merged.row_factor(255), merged.row_factor(256)), (Half::Gate, Half::Up));
            assert_eq!(
                MLP::merge_nvfp4_gate_up(&gate_proj, &up_proj, false, false, &dims, &dims, false),
                Some(MergedGateUp { input_from: Half::Gate, ..merged })
            );
            assert_eq!(MLP::merge_nvfp4_gate_up(&gate_proj, &up_proj, false, false, &dims, &dims, true), Some(merged));
            assert_eq!(MLP::merge_nvfp4_gate_up(&gate_proj, &up_proj, false, true, &dims, &dims, true), None);
            assert_eq!(MLP::merge_nvfp4_gate_up(&gate_proj, &up_proj, false, false, &dims, &vec![128, 64], true), None);
        }
        GateUpProjection::Packed { .. } => panic!("separate projections were expected"),
    }
    let naive = NaiveMLP::new(&vb, 8, 16, true, "fc1", "fc2", DType::BF16);
    assert!(matches!(naive.fc2.linear, LinearX::Linear(l) if l.weight.shape == [8, 16]));
}

#[test]
fn latent_attention_reads_its_file() {
    let mut cfg = config("DeepseekV2ForCausalLM");
    cfg.extra_config_json = Some(r#"{"q_lora_rank": 24, "kv_lora_rank": 32, "qk_nope_head_dim": 8, "v_head_dim": 12}"#.to_string());
    let mla = MlaConfig::from_config(&cfg);
    assert_eq!((mla.q_lora_rank, mla.kv_lora_rank, mla.qk_nope_head_dim), (Some(24), 32, 8));
    assert_eq!((mla.qk_rope_head_dim, mla.v_head_dim, mla.index_topk), (64, 12, None));
    let ck = checkpoint(&[], false);
    let root = VarBuilderX::new(&ck);
    let stored = StoredUp { k_b: None, v_b: None };
    let a = MlaAttention::new(&root.pp("attn"), &mla, &cfg, &stored, DType::BF16, 0).unwrap();
    assert!(matches!(a.query, QueryProjection::Low { .. }));
    let rows = HeadRows { heads: cfg.num_attention_heads, keys: Span { start: 0, len: 8 }, values: Span { start: 8, len: 12 } };
    assert!(matches!(a.up, UpProjection::Joint { rows: r, .. } if r == rows));
    assert_eq!(a.scale_width, 8 + 64);
    let cuts = a.cuts();
    assert_eq!((cuts.q_nope, cuts.q_pe), (Span { start: 0, len: 8 }, Span { start: 8, len: 64 }));
    assert_eq!((cuts.latent, cuts.k_pe), (Span { start: 0, len: 32 }, Span { start: 32, len: 64 }));
    assert_eq!((cuts.rotate_as, cuts.attend_as), (None, DType::BF16));
    assert!(a.indexer.is_none());
}

#[test]
fn latent_attention_picks_a_kernel() {
    let ck = checkpoint(&[], false);
    let root = VarBuilderX::new(&ck);
    let cfg = config("DeepseekV2ForCausalLM");
    let mla = MlaConfig::from_config(&cfg);
    let a = MlaAttention::new(&root, &mla, &cfg, &StoredUp { k_b: None, v_b: None }, DType::BF16, 0).unwrap();
    let none = MlaInputs {
        is_prefill: true,
        cache: true,
        planned: false,
        prefill_plan: false,
        decode_plan: false,
        block_tables: true,
        context_lens: true,
        cu_seqlens: true,
        chosen: false,
    };
    assert!(!a.asks_indexer(&none));
    assert_eq!(a.project_mla_output(7), (7, a.cfg.num_attention_heads * a.cfg.v_head_dim));
    assert_eq!(a.forward(&none).map(|p| p.path), Ok(MlaPath::PagedPrefill));
    assert_eq!(a.forward(&MlaInputs { is_prefill: false, ..none }).map(|p| p.path), Ok(MlaPath::PagedDecode));
    assert_eq!(a.forward(&MlaInputs { cu_seqlens: false, ..none }), Err(MlaError::NoCuSeqlens));
    assert_eq!(a.forward(&MlaInputs { cache: false, ..none }), Err(MlaError::Unsupported));
    let planned = MlaInputs { planned: true, ..none };
    assert_eq!(a.forward(&planned), Err(MlaError::NoPrefillPlan));
    assert_eq!(a.forward(&MlaInputs { prefill_plan: true, ..planned }).map(|p| p.path), Ok(MlaPath::PlannedPrefill));
    assert_eq!(a.forward(&MlaInputs { is_prefill: false, ..planned }), Err(MlaError::NoDecodePlan));
    assert_eq!(a.forward(&MlaInputs { is_prefill: false, decode_plan: true, ..planned }).map(|p| p.path), Ok(MlaPath::PlannedDecode));
}

#[test]
fn sparse_attention_has_an_index_branch() {
    let ck = checkpoint(&[], false);
    let vb = VarBuilderX::new(&ck);
    let index = SparseIndex { index_dim: 32, index_heads: 4, topk_blocks: 8, block_size: 64, use_gemma_norm: true };
    let comm = Comm { rank: 1, world_size: 2 };
    let mut cfg = config("MiniMaxM3");
    cfg.sliding_window = Some(512);
    cfg.fp8_keys = true;
    let a = MiniMax3SparseAttention::new(&vb, &comm, &cfg, index, DType::BF16).unwrap();
    assert_eq!((a.num_heads, a.num_kv_heads, a.index_heads, a.head_dim), (4, 2, 2, 16));
    assert!(a.q_norm.plus_one);
    let shapes = a.project_and_rotate(7, true);
    assert_eq!((shapes.q, shapes.kv, shapes.index_q), ((7, 4, 16), (7, 2, 16), (7, 2, 32)));
    assert_eq!((shapes.index_k, shapes.rotated_k), ((7, 32), Some((7, 1, 32))));
    assert_eq!(a.project_and_rotate(7, false).rotated_k, None);
    let wrong = SparseIndex { index_heads: 3, ..index };
    assert_eq!(
        MiniMax3SparseAttention::new(&vb, &comm, &config("MiniMaxM3"), wrong, DType::BF16).err(),
        Some(SparseError::IndexHeads { index_heads: 3, kv_heads: 4 })
    );
    let ends = Some(vec![3u32, 7]);
    let paged = SparsePass::Paged { sliding_window: Some(512), fp8_keys: true };
    assert_eq!(a.forward(true, 7, &ends, &ends), SparsePass::Blocks);
    assert_eq!(a.forward(false, 7, &ends, &ends), paged);
    assert_eq!(a.forward(true, 8, &ends, &ends), paged);
    assert_eq!(a.forward(true, 7, &ends, &Some(vec![3, 9])), paged);
    assert_eq!(a.forward(true, 7, &None, &None), paged);
    assert_eq!(a.choice(true), Ok(BlockChoice { topk_blocks: 8, block_size: 64 }));
    assert_eq!(a.choice(false), Err(SparseError::NoOffsets));
}

#[test]
fn short_prefills_are_not_indexed() {
    let ck = checkpoint(&[], false);
    let vb = VarBuilderX::new(&ck);
    let cfg = IndexerConfig {
        index_head_dim: 32,
        index_n_heads: 4,
        index_topk: 16,
        index_skip_topk_offset: 1,
        qk_rope_head_dim: 8,
        q_lora_rank: 64,
        hidden_size: 128,
    };
    let x = DsaIndexer::new(&vb.pp("indexer"), &config("DeepseekV32ForCausalLM"), cfg, DType::BF16).unwrap();
    assert_eq!((x.index_topk(), x.forward(16)), (16, None));
    let pass = x.forward(17).unwrap();
    assert_eq!((pass.rope, pass.pass), (Span { start: 0, len: 8 }, Span { start: 8, len: 24 }));
    assert_eq!((pass.score_as, pass.weights_as, pass.topk), (DType::BF16, DType::F32, 16));
}
