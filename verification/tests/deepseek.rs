use xinfer::checkpoint::{Checkpoint, DType, VarBuilderX};
use xinfer::config::{Config, MoEConfig};
use xinfer::deepseek4::{
    experts_are_fp4, uses_w2, DeepSeekV4Config, DeepSeekV4ForCausalLM, MoeOrMlp, V4AttnPass, V4Error, V4LayerFacts,
    V4ModelInput, V4PassError,
};
use xinfer::distributed::{Comm, Shard, Span};
use xinfer::ds_v4::compressor::{CompressorDecodeState, CompressorWeights, DecodeStep, LayerCompressionType};
use xinfer::ds_v4::decode_buffers::{Clear, Fill, LayerDecodeBuffers};
use xinfer::ds_v4::hyper_connection::{hc_expand, HcBlockWeights, HcHeadWeights};
use xinfer::ds_v4::indexer::{IndexHeadsError, IndexerDecodeState, IndexerSize, IndexerWeights};
use xinfer::ds_v4::mla_attention::{MlaV4Attention, MlaV4Config, V4AttnError};
use xinfer::ds_v4::moe_v4::{ExpertBuffers, FusedMoeMxfp4, FusedMoeW2, V4MoeError, V4Route, V4Router, W2Path};
use xinfer::ds_v4::rope_cache::{CacheError, LayerSparseKvCache, RopeError, RowCopy, V4RopeTables};
use xinfer::linear::{LinearSize, LinearX};
use xinfer::moe::experts::MoeError;
use xinfer::moe::routing::RouteError;

fn checkpoint(names: &[&str], gguf: bool) -> Checkpoint {
    Checkpoint { names: names.iter().map(|n| n.to_string()).collect(), gguf, dtype: DType::BF16 }
}

const JSON: &str = r#"{"head_dim": 32, "q_lora_rank": 24, "qk_rope_head_dim": 8, "o_groups": 2, "o_lora_rank": 16,
    "hc_mult": 2, "num_hash_layers": 1, "index_head_dim": 16, "index_n_heads": 4, "index_topk": 2,
    "compress_ratios": [0, "x", 4, 8]}"#;

fn config(json: &str) -> Config {
    Config {
        architectures: Some(vec!["DeepseekV4ForCausalLM".to_string()]),
        head_dim: None,
        num_attention_heads: 4,
        num_key_value_heads: 1,
        max_position_embeddings: 64,
        hidden_size: 64,
        num_hidden_layers: 3,
        intermediate_size: 128,
        vocab_size: Some(100),
        attention_bias: None,
        qkv_bias: None,
        attn_output_gate: None,
        tie_word_embeddings: None,
        sliding_window: Some(8),
        quant: None,
        moe_cfg: Some(MoEConfig {
            moe_intermediate_size: 64,
            num_experts: Some(2),
            num_experts_per_tok: 2,
            norm_topk_prob: true,
            n_group: None,
            topk_group: None,
            topk_method: None,
            scoring_func: None,
            shared_expert_intermediate_size: Some(32),
            n_shared_experts: Some(2),
        }),
        quantization_config: None,
        extra_config_json: Some(json.to_string()),
        expert_dtype: None,
        is_f16_mode: false,
        higher_precision_required: false,
        fp8_keys: false,
    }
}

fn input(seq_len: usize, is_prefill: bool, max_context_len: usize) -> V4ModelInput {
    let facts = V4LayerFacts { sink_read: true, index_cols: 5 };
    V4ModelInput { seq_len, is_prefill, max_context_len, caches: Some(3), facts: vec![facts; 3] }
}

fn model(names: &[&str]) -> DeepSeekV4ForCausalLM {
    let ck = checkpoint(names, false);
    let vb = VarBuilderX::new(&ck);
    DeepSeekV4ForCausalLM::new(&vb, &Comm::default(), &config(JSON), 64, 0, DType::BF16).unwrap().unwrap()
}

#[test]
fn settings_have_defaults() {
    let v4 = DeepSeekV4Config::from_config(&config("{}"));
    assert_eq!((v4.hc_mult, v4.hc_sinkhorn_iters, v4.n_hash_layers), (4, 20, 3));
    assert_eq!((v4.index_head_dim, v4.index_n_heads, v4.index_topk, v4.sliding_window), (128, 64, 512, 8));
    assert!(v4.compress_ratios.is_empty());
    let mla = MlaV4Config::from_config(&config("{}"));
    assert_eq!((mla.head_dim, mla.q_lora_rank, mla.qk_rope_head_dim, mla.o_groups, mla.o_lora_rank), (512, 1024, 64, 8, 1024));
    let mut bare = config("{}");
    bare.sliding_window = None;
    assert_eq!(DeepSeekV4Config::from_config(&bare).sliding_window, 128);
}

#[test]
fn ratios_skip_what_is_no_integer() {
    let v4 = DeepSeekV4Config::from_config(&config(JSON));
    assert_eq!(v4.compress_ratios, vec![0, 4, 8]);
    assert_eq!(v4.layer_compression(0), LayerCompressionType::Swa);
    assert_eq!(v4.layer_compression(1), LayerCompressionType::Overlap);
    assert_eq!(v4.layer_compression(2), LayerCompressionType::NonOverlap(8));
    assert_eq!(v4.layer_compression(3), LayerCompressionType::Swa);
}

#[test]
fn quantization_names_are_read_in_any_case() {
    assert!(uses_w2(&Some("MOE_W2".to_string())) && uses_w2(&Some("w2".to_string())));
    assert!(!uses_w2(&Some("q4k".to_string())) && !uses_w2(&None));
    assert!(experts_are_fp4(&None) && experts_are_fp4(&Some("MXFP4".to_string())));
    assert!(!experts_are_fp4(&Some("fp8".to_string())));
}

#[test]
fn models_are_planned_with_flat_or_nested_names() {
    let flat = model(&[]);
    assert_eq!((flat.layers.len(), flat.get_vocab_size(), flat.dtype()), (3, 100, DType::BF16));
    assert_eq!(flat.norm.weight.path, "norm.weight");
    assert_eq!(flat.layers[1].attn_norm.weight.path, "layers.1.attn_norm.weight");
    assert!(flat.layers.iter().all(|l| l.sparse_kv.is_some() && l.decode_buffers.is_some()));
    assert!(flat.layers[1].indexer.is_some() && flat.layers[2].indexer.is_none());
    assert!(!flat.layers[0].rope.compressed_base && flat.layers[1].rope.compressed_base);
    assert_eq!((flat.layers[0].rope.original_seq_len, flat.layers[1].rope.original_seq_len), (0, 64));
    assert!(flat.hc_head.is_some() && !flat.embed_forward(DType::BF16));
    assert!(flat.layers[0].shared_expert.is_some());
    let nested = model(&["model.layers.0.attn_norm.weight"]);
    assert_eq!(nested.norm.weight.path, "model.norm.weight");
    assert_eq!(nested.layers[2].attn_norm.weight.path, "model.layers.2.attn_norm.weight");
}

#[test]
fn models_that_cannot_be_planned_are_refused() {
    let ck = checkpoint(&[], false);
    let vb = VarBuilderX::new(&ck);
    let plan = |cfg: &Config, vb: &VarBuilderX, comm: Comm| DeepSeekV4ForCausalLM::new(vb, &comm, cfg, 64, 0, DType::BF16);
    let one = Comm::default();
    let mut quant = config(JSON);
    quant.quant = Some("q4k".to_string());
    assert_eq!(plan(&quant, &vb, one).unwrap().err(), Some(V4Error::Quant));
    quant.quant = Some("W2".to_string());
    let w2 = plan(&quant, &vb, one).unwrap().unwrap();
    assert!(matches!(w2.layers[0].mlp, MoeOrMlp::FusedMoeW2(_)) && !w2.embed_forward(DType::BF16));
    let mut experts = config(JSON);
    experts.expert_dtype = Some("fp8".to_string());
    assert_eq!(plan(&experts, &vb, one).unwrap().err(), Some(V4Error::ExpertDtype));
    let gguf = checkpoint(&[], true);
    assert_eq!(plan(&config(JSON), &VarBuilderX::new(&gguf), one).unwrap().err(), Some(V4Error::GgufExperts));
    let three = Comm { rank: 0, world_size: 3 };
    assert_eq!(
        plan(&config(JSON), &vb, three).unwrap().err(),
        Some(V4Error::Attention(V4AttnError::Heads { heads: 4, world_size: 3 }))
    );
    let four = Comm { rank: 0, world_size: 4 };
    assert_eq!(
        plan(&config(JSON), &vb, four).unwrap().err(),
        Some(V4Error::Attention(V4AttnError::Groups { groups: 2, world_size: 4 }))
    );
    let odd = JSON.replace("\"qk_rope_head_dim\": 8", "\"qk_rope_head_dim\": 7");
    assert_eq!(plan(&config(&odd), &vb, one).unwrap().err(), Some(V4Error::Rope(RopeError::RotaryDim { rotary_dim: 7 })));
    let heads = JSON.replace("\"index_n_heads\": 4", "\"index_n_heads\": 3");
    let two = Comm { rank: 0, world_size: 2 };
    assert_eq!(
        plan(&config(&heads), &vb, two).unwrap().err(),
        Some(V4Error::IndexHeads(IndexHeadsError { index_n_heads: 3, world_size: 2 }))
    );
    let no_groups = JSON.replace("\"o_groups\": 2", "\"o_groups\": 0");
    assert!(plan(&config(&no_groups), &vb, one).is_none());
}

#[test]
fn a_prefill_then_decoding_runs() {
    let mut m = model(&[]);
    let pass = m.forward(&input(10, true, 10), &vec![10]).unwrap();
    assert_eq!((pass.layers.len(), pass.head.last_rows, pass.head.weighted), (3, Some(vec![9]), true));
    assert_eq!((pass.layers[0].branch, pass.head.norm_input), (DType::F32, DType::BF16));
    assert!(matches!(pass.layers[0].route, V4Route::Score { .. }) && pass.layers[0].adds_shared);
    match &pass.layers[0].attn {
        V4AttnPass::Prefill(p) => assert_eq!((p.window_topk, p.compressed_len, p.total_topk, p.kv_len), (8, None, 8, 10)),
        V4AttnPass::Decode(_) => panic!("a prefill was expected"),
    }
    match &pass.layers[1].attn {
        V4AttnPass::Prefill(p) => {
            assert_eq!((p.compressed_len, p.compress_topk, p.total_topk, p.kv_len), (Some(2), 2, 10, 12));
            assert_eq!(p.compressed, Some(RowCopy { from: Span { start: 0, len: 2 }, row: 8, offset: 8 * 32 }));
            assert!(p.indexer_rows.is_some());
            assert_eq!(p.sparse_clear, Clear { rows: 8 + 16, cols: 32, with: Fill::Zero });
            let seed = p.compressor_seed.as_ref().unwrap();
            assert_eq!((seed.clear.scores.rows, seed.clear.scores.with, seed.copies.len()), (8, Fill::MinusInfinity, 2));
            assert_eq!(p.indexer_clear.unwrap().state, p.indexer_seed.as_ref().unwrap().clear);
        }
        V4AttnPass::Decode(_) => panic!("a prefill was expected"),
    }
    match &pass.layers[2].attn {
        V4AttnPass::Prefill(p) => assert_eq!((p.compressed_len, p.compress_topk, p.total_topk), (Some(1), 5, 13)),
        V4AttnPass::Decode(_) => panic!("a prefill was expected"),
    }
    assert_eq!(m.layers[1].sparse_kv.unwrap().compressed_len, 2);
    assert_eq!(m.layers[1].indexer_state.unwrap().compressed_len, 2);
    let step = m.forward(&input(1, false, 11), &vec![]).unwrap();
    match &step.layers[1].attn {
        V4AttnPass::Decode(d) => {
            assert_eq!((d.start_pos, d.compress_topk, d.total_topk, d.scores), (10, 2, 10, Some((2, 2))));
            assert_eq!((d.ratio, d.kv_len), (4, 8 + 16));
        }
        V4AttnPass::Prefill(_) => panic!("a decode step was expected"),
    }
    match &step.layers[0].attn {
        V4AttnPass::Decode(d) => assert_eq!((d.scores, d.ratio, d.kv_len), (None, 1, 8)),
        V4AttnPass::Prefill(_) => panic!("a decode step was expected"),
    }
    assert_eq!(m.layers[1].indexer_state.unwrap().compressed_len, 2);
    // the token at position 11 completes the third run of four
    let step = m.forward(&input(1, false, 12), &vec![]).unwrap();
    match &step.layers[1].attn {
        V4AttnPass::Decode(d) => assert_eq!((d.completed_row, d.scores), (Some(2), Some((3, 2)))),
        V4AttnPass::Prefill(_) => panic!("a decode step was expected"),
    }
    assert_eq!(m.layers[1].indexer_state.unwrap().compressed_len, 3);
    assert_eq!(m.layers[1].sparse_kv.unwrap().compressed_len, 3);
    // an earlier token takes no row back
    m.forward(&input(1, false, 4), &vec![]).unwrap();
    assert_eq!(m.layers[1].sparse_kv.unwrap().compressed_len, 3);
    let cleared = m.reset_decode_state_for_graph();
    assert_eq!(cleared.len(), 3);
    assert!(cleared[0].compressor.is_none() && cleared[0].indexer.is_none());
    assert_eq!(cleared[1].sparse, Some(Clear { rows: 8 + 16, cols: 32, with: Fill::Zero }));
    assert_eq!(cleared[1].compressor, m.layers[1].compressor_state.map(|s| s.reset()));
    assert!(cleared[1].indexer.is_some() && cleared[2].indexer.is_none());
    assert_eq!(m.layers[1].sparse_kv.unwrap().compressed_len, 0);
    assert_eq!(m.prewarm_cuda_graph_scratch(), (128, 4 * 128));
}

#[test]
fn passes_that_cannot_be_done_are_refused() {
    let mut m = model(&[]);
    assert_eq!(m.forward(&input(2, false, 5), &vec![]).err(), Some(V4PassError::ManySequences { seq_len: 2 }));
    assert_eq!(
        m.forward(&input(1, false, 65), &vec![]).err(),
        Some(V4PassError::Position { start_pos: 64, capacity: 64 })
    );
    let mut sinkless = input(4, true, 4);
    sinkless.facts[1].sink_read = false;
    assert_eq!(m.forward(&sinkless, &vec![]).err(), Some(V4PassError::Attention(V4AttnError::NoAttnSink)));
    assert_eq!(
        m.forward(&input(80, true, 80), &vec![]).err(),
        Some(V4PassError::Cache(CacheError::TooMany { len: 20, capacity: 16 }))
    );
    let mut packed = model(&[]);
    packed.layers[0].self_attn.wo_a = LinearX::Wna16 {
        scope: String::new(),
        size: LinearSize { in_dim: 8, out_dim: 8, shard: Shard::default(), bias: false, dtype: DType::BF16 },
    };
    assert_eq!(
        packed.forward(&input(4, true, 4), &vec![]).err(),
        Some(V4PassError::Attention(V4AttnError::UnsupportedOutput))
    );
    assert_eq!(packed.layers[1].sparse_kv.unwrap().compressed_len, 0);
    let none = V4ModelInput { caches: None, ..input(4, true, 4) };
    assert!(m.forward(&none, &vec![]).unwrap().layers.is_empty());
}

#[test]
fn hash_layers_need_the_tokens() {
    let mut m = model(&["layers.1.ffn.gate.tid2eid"]);
    assert!(matches!(&m.layers[1].mlp, MoeOrMlp::FusedMoeMxfp4(x) if matches!(x.router, V4Router::Hash { .. })));
    assert_eq!(m.forward(&input(4, true, 4), &vec![]).err(), Some(V4PassError::Moe(V4MoeError::NoInputIds)));
    let mut first = model(&["layers.0.ffn.gate.tid2eid"]);
    let pass = first.forward(&input(4, true, 4), &vec![]).unwrap();
    assert_eq!(pass.layers[0].route, V4Route::Hash { input: DType::BF16 });
}

#[test]
fn compression_types_keep_their_ratio() {
    for ratio in [0usize, 1, 4, 8, 128] {
        let kind = LayerCompressionType::from_ratio(ratio);
        assert_eq!((kind.ratio(), kind.has_compressor(), kind.has_indexer()), (ratio, ratio != 0, ratio == 4));
    }
}

#[test]
fn compressors_emit_at_block_ends_and_seed_their_state() {
    let ck = checkpoint(&[], false);
    let vb = VarBuilderX::new(&ck);
    assert!(CompressorWeights::load(&vb, "c", 0, 16, 64).is_none());
    let c = CompressorWeights::load(&vb, "c", 4, 16, 64).unwrap();
    assert_eq!((c.wkv.path.as_str(), c.wkv.shape.clone(), c.ape.shape.clone()), ("c.wkv.weight", vec![32, 64], vec![4, 32]));
    assert!(c.is_overlap());
    assert_eq!(c.prefill(10), (2, 4));
    assert_eq!(c.decode(6), DecodeStep::Accumulate);
    assert_eq!(c.decode(7), DecodeStep::Emit { rope_pos: 4 });
    let state = CompressorDecodeState::new(4, 16);
    let seed = c.seed_decode_state_after_prefill(&state, 10);
    assert_eq!(seed.clear.values, Clear { rows: 8, cols: 32, with: Fill::Zero });
    assert_eq!(seed.clear.scores, Clear { rows: 8, cols: 32, with: Fill::MinusInfinity });
    let seeds = seed.copies;
    assert_eq!(seeds.len(), 2);
    assert_eq!((seeds[0].token, seeds[0].rows, seeds[0].slot), (4, 4, 0));
    assert_eq!((seeds[1].token, seeds[1].rows, seeds[1].slot, seeds[1].elem_offset), (8, 2, 4, 128));
    let wide = CompressorWeights::load(&vb, "c", 8, 16, 64).unwrap();
    let state = CompressorDecodeState::new(8, 16);
    let seeds = wide.seed_decode_state_after_prefill(&state, 10).copies;
    assert_eq!((seeds.len(), seeds[0].token, seeds[0].slot), (1, 8, 0));
    let whole = wide.seed_decode_state_after_prefill(&state, 16);
    assert!(whole.copies.is_empty());
    assert_eq!(whole.clear, state.reset());
    assert_eq!(CompressorDecodeState::new(4, 16), CompressorDecodeState { state_dim: 32, slots: 8 });
    assert_eq!(CompressorDecodeState::new(8, 16), CompressorDecodeState { state_dim: 16, slots: 8 });
}

#[test]
fn sparse_caches_are_rings_with_compressed_rows_behind() {
    let mut c = LayerSparseKvCache::new(4, 4, 20, 8);
    assert_eq!((c.compressed_slots, c.total_slots()), (5, 9));
    let copies = c.seed_window_from_prefill(10);
    assert_eq!(
        copies,
        vec![
            RowCopy { from: Span { start: 6, len: 2 }, row: 2, offset: 16 },
            RowCopy { from: Span { start: 8, len: 2 }, row: 0, offset: 0 },
        ]
    );
    assert_eq!(c.seed_window_from_prefill(3), vec![RowCopy { from: Span { start: 0, len: 3 }, row: 0, offset: 0 }]);
    // the next token takes the place of the oldest
    assert_eq!(c.write_window_token(10).row, 2);
    assert_eq!(c.seed_compressed_from_prefill(6), Err(CacheError::TooMany { len: 6, capacity: 5 }));
    assert_eq!(c.seed_compressed_from_prefill(2).unwrap().row, 4);
    assert_eq!(c.write_compressed_row(5), Err(CacheError::Row { row: 5, capacity: 5 }));
    assert_eq!(c.write_compressed_row(3).unwrap().offset, 7 * 8);
    assert_eq!(c.compressed_len, 4);
    assert_eq!(c.reset(), Clear { rows: 9, cols: 8, with: Fill::Zero });
    assert_eq!(c.compressed_len, 0);
}

#[test]
fn rotation_tables_need_an_even_width_and_a_length() {
    assert_eq!(V4RopeTables::precompute(0, 8, true, 0), Err(RopeError::EmptySequence));
    assert_eq!(V4RopeTables::precompute(4, 0, true, 0), Err(RopeError::RotaryDim { rotary_dim: 0 }));
    let plain = V4RopeTables::for_layer_kind(4, 8, false, 16).unwrap();
    assert_eq!((plain.pairs, plain.compressed_base, plain.original_seq_len), (4, false, 0));
    assert_eq!(V4RopeTables::for_layer_kind(4, 8, true, 16).unwrap().original_seq_len, 16);
}

#[test]
fn indexers_choose_and_cache_rows() {
    let ck = checkpoint(&["a.indexer.wq_b.scale"], false);
    let root = VarBuilderX::new(&ck);
    let size = IndexerSize { hidden_dim: 64, index_head_dim: 16, index_n_heads: 4, index_topk: 3, q_lora_rank: 128 };
    let comm = Comm { rank: 1, world_size: 2 };
    let w = IndexerWeights::load(&root.pp("a"), "", size, &comm).unwrap();
    assert_eq!((w.wq_b.dtype, w.wq_b.shape.clone(), w.index_n_heads, w.score_all_reduce), (DType::U8, vec![64, 128], 2, true));
    assert!(w.wq_b_scale.is_some());
    assert_eq!((w.topk_prefill(2), w.topk_prefill(5), w.topk_decode(9)), (2, 3, 3));
    assert_eq!(w.topk_prefill_from_pos(0), (1, 1));
    let scores = w.scores_prefill_against_cache(5, 0);
    assert_eq!((scores.heads, scores.flat, scores.rows), ((5, 2, 16), (5, 32), 1));
    assert_eq!((w.scores_decode(7).rows, w.scores_prefill(5, 7).rows), (7, 7));
    let odd = IndexerSize { index_n_heads: 3, ..size };
    assert_eq!(
        IndexerWeights::load(&root, "", odd, &comm).err(),
        Some(IndexHeadsError { index_n_heads: 3, world_size: 2 })
    );
    let mut s = IndexerDecodeState::new(16, 10);
    assert_eq!(s.max_compressed_len, 3);
    assert_eq!(s.seed_from_prefill(4), Err(CacheError::TooMany { len: 4, capacity: 3 }));
    assert_eq!(s.seed_from_prefill(1).unwrap(), Some(RowCopy { from: Span { start: 0, len: 1 }, row: 0, offset: 0 }));
    assert_eq!(s.append_compressed().unwrap().row, 1);
    assert_eq!(s.append_compressed_rows_at(1, 2).unwrap().unwrap().offset, 32);
    assert_eq!(s.append_compressed(), Err(CacheError::Row { row: 3, capacity: 3 }));
    assert_eq!(s.write_compressed_at(0).unwrap().row, 0);
    assert_eq!(s.compressed_len, 3);
    let cleared = s.reset();
    assert_eq!(cleared.rows, Clear { rows: 3, cols: 16, with: Fill::Zero });
    assert_eq!(cleared.state, s.compressor_state.reset());
    assert_eq!(s.compressed_len, 0);
}

#[test]
fn grouped_outputs_need_whole_blocks() {
    assert_eq!(MlaV4Attention::materialize_wo_a_bf16(256, 384, 128, 128), Ok((2, 3)));
    assert_eq!(
        MlaV4Attention::materialize_wo_a_bf16(256, 380, 128, 128),
        Err(V4AttnError::Unaligned { out_dim: 256, in_dim: 380 })
    );
    let ck = checkpoint(&[], false);
    let vb = VarBuilderX::new(&ck);
    let cfg = config(JSON);
    let comm = Comm { rank: 1, world_size: 2 };
    let a = MlaV4Attention::new(&vb, &comm, &MlaV4Config::from_config(&cfg), &cfg, DType::BF16).unwrap();
    assert_eq!((a.get_num_heads(), a.get_head_dim(), a.get_qk_rope_head_dim(), a.o_groups, a.per_group_dim), (2, 32, 8, 1, 64));
    // the groups of a rank take the whole output of its heads
    assert_eq!(a.o_groups * a.per_group_dim, a.num_heads * a.head_dim);
    let out = a.project_output(5).unwrap();
    assert_eq!((out.grouped, out.weight, out.output), ((5, 1, 64), (1, 16, 64), (5, 16)));
    let pass = a.sparse_attn(5, true).unwrap();
    assert_eq!((pass.q_shape, pass.nope, pass.rope), ((5, 2, 32), Span { start: 0, len: 24 }, Span { start: 24, len: 8 }));
    assert_eq!(a.sparse_attn(5, false), Err(V4AttnError::NoAttnSink));
    assert_eq!(a.cache_prefill_kv().1, Span { start: 24, len: 8 });
}

#[test]
fn experts_tile_their_buffers() {
    let ck = checkpoint(&["experts.0.gate_proj.weight", "experts.0.gate_proj.scale"], false);
    let vb = VarBuilderX::new(&ck);
    let comm = Comm { rank: 0, world_size: 2 };
    let m = FusedMoeMxfp4::new(&config(JSON), &vb, &comm, DType::F32).unwrap();
    assert_eq!(m.buffers, ExpertBuffers { experts: 2, hidden: 64, local: 32 });
    assert_eq!(m.buffers.gate_up_shapes(), ((2, 64, 32), (2, 64, 2)));
    assert_eq!(m.buffers.down_shapes(), ((2, 64, 16), (2, 64, 1)));
    assert_eq!((m.gate[0].blocks.path.as_str(), m.gate[0].scales.tries[0].path.as_str()), ("experts.0.gate_proj.weight", "experts.0.gate_proj.scale"));
    assert_eq!(m.gate[0].scales.tries[0].dtype, DType::F8E8M0);
    assert_eq!(m.gate[1].blocks.path, "experts.1.w1.blocks");
    let mut offsets: Vec<usize> = m.gate.iter().chain(m.up.iter()).map(|x| x.block_offset).collect();
    offsets.sort();
    assert_eq!(offsets, vec![0, 1024, 2048, 3072]);
    assert_eq!((m.down[1].block_offset, m.down[1].scale_offset), (1024, 64));
    let pass = m.forward_with_ids_f32(3, 64);
    assert_eq!((pass.dtype, pass.quantize, pass.flat, pass.all_reduce), (DType::BF16, true, (6, 64), true));
    assert_eq!((pass.up, pass.down_inputs, pass.output), (Span { start: 32, len: 32 }, (3, 2, 32), (3, 2, 64)));
    assert_eq!(m.router.score_route(&vec![3, 9]).unwrap(), vec![1, 0]);
    let gguf = checkpoint(&[], true);
    assert_eq!(FusedMoeMxfp4::new(&config(JSON), &VarBuilderX::new(&gguf), &comm, DType::F32).err(), Some(MoeError::Gguf));
}

#[test]
fn two_bit_experts_may_be_restored() {
    let ck = checkpoint(&[], false);
    let comm = Comm { rank: 0, world_size: 2 };
    let mx = FusedMoeMxfp4::new(&config(JSON), &VarBuilderX::new(&ck), &comm, DType::F32).unwrap();
    let m = FusedMoeW2::from_mxfp4(&mx, (2, 64, 32), 3, (2, 64, 16), 2, true).unwrap();
    assert_eq!((m.gate_up_k, m.down_k, m.gate_up_reshape, m.down_reshape), (64, 32, None, Some((2, 64, 1))));
    assert_eq!((m.gate_up_scales, m.down_scales), ((2, 128), (2, 64)));
    assert_eq!(m.forward_with_ids(false, true), W2Path::Restore);
    assert_eq!(m.forward_with_ids(true, true), W2Path::TwoBit);
    assert_eq!(m.forward_with_ids(false, false), W2Path::TwoBit);
    let off = FusedMoeW2::from_mxfp4(&mx, (2, 64, 32), 3, (2, 64, 16), 3, false).unwrap();
    assert!(!off.asks_router(false) && !off.keeps_restore);
    assert_eq!(FusedMoeW2::from_mxfp4(&mx, (2, 64, 32), 1, (2, 64, 16), 4, true).err(), Some(V4MoeError::ScaleDims { dims: 1 }));
    assert_eq!(FusedMoeW2::from_mxfp4(&mx, (2, 64, 32), 2, (2, 64, 16), 4, true).err(), Some(V4MoeError::ScaleDims { dims: 4 }));
    let pass = m.forward_with_ids_2bit(2, 64, &vec![1, 0, 0, 1]).unwrap();
    assert_eq!((pass.dtype, pass.result, pass.all_reduce), (DType::BF16, DType::F32, true));
    assert_eq!(pass.experts, vec![0, 0, 1, 1]);
    let mut slots = pass.slots.clone();
    slots[..2].sort();
    slots[2..].sort();
    assert_eq!(slots, vec![1, 2, 0, 3]);
    assert_eq!((pass.gate_up, pass.down, pass.output), ((64, 64), (64, 32), (2, 2, 64)));
    assert_eq!((pass.gate, pass.up), (Span { start: 0, len: 32 }, Span { start: 32, len: 32 }));
    assert_eq!(m.forward_with_ids_2bit(0, 64, &vec![]).err(), Some(RouteError::Keys { len: 0 }));
}

#[test]
fn hyper_connections_and_buffers_have_exact_sizes() {
    let ck = checkpoint(&[], false);
    let vb = VarBuilderX::new(&ck);
    let w = HcBlockWeights::load(&vb, "hc_attn", 4, 64);
    assert_eq!((w.hc_fn.path.as_str(), w.hc_fn.shape.clone(), w.hc_base.shape.clone()), ("hc_attn_fn", vec![24, 256], vec![24]));
    assert_eq!(HcHeadWeights::load(&vb, 4, 64).hc_fn.shape, [4, 256]);
    assert_eq!(hc_expand(5, 64, 4).hc_pre(), ((5, 256), 24));
    let b = LayerDecodeBuffers::new(4, 32, 8, 0, 0, Some(32), None);
    assert_eq!((b.attn_out, b.compress_topk, b.concat_topk, b.indexer_scores), ((1, 4, 32), (1, 1), (1, 8), None));
    assert_eq!(b.compressor, Some((32, 1)));
}
