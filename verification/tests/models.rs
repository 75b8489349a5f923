use xinfer::checkpoint::{Checkpoint, DType, VarBuilderX};
use xinfer::config::{Config, MoEConfig};
use xinfer::dflash::{
    build_dflash_attn_bias, build_target_layer_ids, DFlashConfig, DFlashDraftModel, DFlashError, DFlashGroupedConv,
    DFlashModelConfig,
};
use xinfer::distributed::{Comm, Span};
use xinfer::gemma3::{Gemma3Error, Gemma3ForConditionalGeneration, Gemma3MultiModalProjector, ImageSlice};
use xinfer::moe::routing::RouteError;
use xinfer::gemma4::{Gemma4ForCausalLM, Gemma4Head, Gemma4Keys, Gemma4Settings};

fn checkpoint(gguf: bool) -> Checkpoint {
    Checkpoint { names: vec![], gguf, dtype: DType::BF16 }
}

fn config(layers: usize, json: Option<&str>) -> Config {
    Config {
        architectures: Some(vec!["Gemma4ForCausalLM".to_string()]),
        head_dim: Some(16),
        num_attention_heads: 8,
        num_key_value_heads: 4,
        max_position_embeddings: 1024,
        hidden_size: 128,
        num_hidden_layers: layers,
        intermediate_size: 256,
        vocab_size: Some(100),
        attention_bias: None,
        qkv_bias: None,
        attn_output_gate: None,
        tie_word_embeddings: None,
        sliding_window: Some(64),
        quant: None,
        moe_cfg: None,
        quantization_config: None,
        extra_config_json: json.map(|s| s.to_string()),
        expert_dtype: None,
        is_f16_mode: false,
        higher_precision_required: false,
        fp8_keys: false,
    }
}

fn draft() -> DFlashModelConfig {
    DFlashModelConfig {
        architectures: None,
        hidden_size: 64,
        num_hidden_layers: 3,
        num_attention_heads: 4,
        num_key_value_heads: 2,
        intermediate_size: 128,
        head_dim: None,
        vocab_size: 100,
        max_position_embeddings: 512,
        attention_bias: None,
        block_size: None,
        num_target_layers: 20,
        dflash_config: None,
        sliding_window: None,
        is_causal: None,
    }
}

fn drafting() -> DFlashConfig {
    DFlashConfig {
        block_size: Some(8),
        mask_token_id: Some(5),
        target_layer_ids: None,
        conv_group_size: Some(16),
        conv_kernel_size: Some(3),
        selector_rank: Some(4),
        selector_top_k: Some(2),
    }
}

#[test]
fn draft_layers_look_at_spread_target_layers() {
    assert_eq!(build_target_layer_ids(36, 5), vec![1, 9, 17, 25, 33]);
    assert_eq!(build_target_layer_ids(36, 1), vec![18]);
    assert_eq!(build_target_layer_ids(4, 2), vec![1, 1]);
    assert!(build_target_layer_ids(36, 0).is_empty());
}

#[test]
fn draft_configurations_have_defaults() {
    let plain = draft();
    assert!(!plain.is_dflash2());
    assert_eq!((plain.head_dim(), plain.block_size(), plain.mask_token_id()), (16, 1, None));
    assert_eq!(plain.target_layer_ids(), vec![1, 9, 17]);
    let mut second = draft();
    second.dflash_config = Some(drafting());
    assert!(second.is_dflash2());
    assert_eq!((second.block_size(), second.mask_token_id()), (8, Some(5)));
    let mut named = draft();
    named.architectures = Some(vec!["XDFlash2Model".to_string()]);
    assert!(named.is_dflash2());
    let cfg = plain.to_config(true);
    assert!(cfg.higher_precision_required && cfg.architectures.is_none() && cfg.vocab_size == Some(100));
}

#[test]
fn draft_masks_hide_what_is_outside_the_window() {
    assert_eq!(build_dflash_attn_bias(3, 2, None, false), None);
    assert_eq!(build_dflash_attn_bias(3, 2, Some(5), false), None);
    // window of two around positions 3 and 4
    assert_eq!(
        build_dflash_attn_bias(3, 2, Some(2), false),
        Some(vec![true, true, false, false, false, true, true, true, false, false])
    );
    assert_eq!(build_dflash_attn_bias(1, 2, None, true), Some(vec![false, false, true, false, false, false]));
}

#[test]
fn draft_models_are_planned() {
    let ck = checkpoint(false);
    let vb = VarBuilderX::new(&ck);
    let mut cfg = draft();
    cfg.dflash_config = Some(drafting());
    let model = DFlashDraftModel::new(&vb, &Comm::default(), &cfg, DType::BF16).unwrap();
    assert!(model.is_dflash2());
    assert_eq!((model.layers.len(), model.select_candidates(), model.dtype()), (3, Ok(2), DType::BF16));
    assert!(model.layers[0].attention_conv.is_some());
    assert_eq!(model.project_layer_hiddens(3), Ok(()));
    assert_eq!(model.project_layer_hiddens(2), Err(DFlashError::LayerHiddens { expected: 3, got: 2 }));
    let pass = model.layers[0].self_attn.forward(3, 2, 5);
    assert_eq!((pass.q_shape, pass.kv_shape, pass.repeat), ([1, 2, 4, 16], [1, 5, 2, 16], Some(2)));
    assert_eq!(pass.q_rotations, Some(Span { start: 3, len: 2 }));
    let plain = DFlashDraftModel::new(&vb, &Comm::default(), &draft(), DType::BF16).unwrap();
    assert_eq!(plain.select_candidates(), Err(DFlashError::NoSelector));
}

#[test]
fn draft_models_need_their_settings() {
    let ck = checkpoint(false);
    let vb = VarBuilderX::new(&ck);
    let mut cfg = draft();
    cfg.architectures = Some(vec!["DFlash2".to_string()]);
    assert_eq!(DFlashDraftModel::new(&vb, &Comm::default(), &cfg, DType::BF16).err(), Some(DFlashError::MissingConfig));
    let cases = [
        (DFlashConfig { conv_group_size: None, ..drafting() }, DFlashError::MissingConvGroupSize),
        (DFlashConfig { conv_kernel_size: None, ..drafting() }, DFlashError::MissingConvKernelSize),
        (DFlashConfig { selector_rank: None, ..drafting() }, DFlashError::MissingSelectorRank),
        (DFlashConfig { selector_top_k: None, ..drafting() }, DFlashError::MissingSelectorTopK),
    ];
    for (settings, error) in cases {
        cfg.dflash_config = Some(settings);
        assert_eq!(DFlashDraftModel::new(&vb, &Comm::default(), &cfg, DType::BF16).err(), Some(error));
    }
    assert_eq!(
        DFlashGroupedConv::new(&vb, 64, 24, 3, 8, DType::BF16).err(),
        Some(DFlashError::GroupSize { group_size: 24, hidden_size: 64 })
    );
    let conv = DFlashGroupedConv::new(&vb, 64, 16, 3, 8, DType::BF16).unwrap();
    assert_eq!((conv.num_groups, conv.base_kernel.shape.clone()), (4, vec![2, 3, 64]));
}

#[test]
fn text_only_settings_are_filled_in() {
    let cfg = Gemma3ForConditionalGeneration::synthesize_text_only_config(&config(2, None));
    assert_eq!((cfg.text_config.head_dim, cfg.text_config.sliding_window, cfg.text_config.sliding_window_pattern), (16, 64, 6));
    assert!(cfg.text_config.tie_word_embeddings && !cfg.has_vision);
    let mut bare = config(2, None);
    bare.head_dim = None;
    bare.vocab_size = None;
    bare.sliding_window = None;
    let cfg = Gemma3ForConditionalGeneration::synthesize_text_only_config(&bare);
    assert_eq!((cfg.text_config.head_dim, cfg.text_config.vocab_size, cfg.text_config.sliding_window), (256, 262_208, 1024));
}

#[test]
fn text_models_are_planned() {
    let ck = checkpoint(false);
    let vb = VarBuilderX::new(&ck);
    let g_cfg = config(2, None);
    let cfg = Gemma3ForConditionalGeneration::synthesize_text_only_config(&g_cfg);
    let m = Gemma3ForConditionalGeneration::new(&vb, &Comm::default(), &cfg, &g_cfg, DType::BF16).unwrap();
    assert_eq!((m.layers.len(), m.get_vocab_size(), m.vision_tower.is_none()), (2, 100, true));
    assert!(!m.embed_forward(DType::BF16));
    assert_eq!(m.config.text_config.sliding_window_pattern, 6);
    assert_eq!((m.layer_pass(0, true), m.layer_pass(1, false)), ((true, true), (false, true)));
    let ids = vec![7, 3, 7];
    assert_eq!(Gemma3ForConditionalGeneration::image_places(&ids, 7, 2), vec![0, 1, 4, 5]);
    assert!(Gemma3ForConditionalGeneration::image_places(&ids, 5, 2).is_empty());
    assert!(m.hands_sliding_mask(0) && m.hands_sliding_mask(4) && !m.hands_sliding_mask(5) && m.hands_sliding_mask(6));
}

#[test]
fn images_are_pooled_into_their_tokens() {
    let ck = checkpoint(false);
    let vb = VarBuilderX::new(&ck);
    let mut cfg = Gemma3ForConditionalGeneration::synthesize_text_only_config(&config(2, None));
    cfg.vision_config.image_size = 896;
    cfg.vision_config.patch_size = 14;
    cfg.mm_tokens_per_image = 256;
    let p = Gemma3MultiModalProjector::new(&vb, &cfg, DType::BF16);
    assert_eq!((p.patches, p.avg_pool.kernel_size, p.avg_pool.stride), (64, 4, 4));
    let side = (p.patches - p.avg_pool.kernel_size) / p.avg_pool.stride + 1;
    assert_eq!(side * side, 256);
}

#[test]
fn image_features_replace_image_tokens() {
    assert_eq!(Gemma3ForConditionalGeneration::image_slice(4, 1), Some(Span { start: 1, len: 3 }));
    assert_eq!(Gemma3ForConditionalGeneration::image_slice(4, 0), None);
    assert_eq!(Gemma3ForConditionalGeneration::image_slice(4, 4), None);
    let run = Gemma3ForConditionalGeneration::forward_inner;
    assert_eq!(run(0, 8, 10, 0), Ok(None));
    assert_eq!(run(12, 8, 10, 0), Err(Gemma3Error::UnevenImageTokens { places: 12, hidden: 8 }));
    assert_eq!(run(24, 8, 10, 4), Ok(Some(ImageSlice { features: Some(Span { start: 4, len: 3 }) })));
    assert_eq!(run(80, 8, 10, 0), Ok(Some(ImageSlice { features: None })));
    assert_eq!(run(32, 8, 10, 8), Err(Gemma3Error::ImageTokens { start: 8, len: 4, total: 10 }));
}

#[test]
fn every_sixth_layer_sees_everything_by_default() {
    let keys = Gemma4Keys::read(&None);
    let full: Vec<usize> = (0..13).filter(|i| !keys.is_sliding(*i)).collect();
    assert_eq!(full, vec![5, 11]);
    let typed = Gemma4Keys::read(&Some(
        r#"{"text_config": {"layer_types": ["full_attention", "sliding_attention", 3]}}"#.to_string(),
    ));
    let slides: Vec<bool> = (0..4).map(|i| typed.is_sliding(i)).collect();
    assert_eq!(slides, vec![false, true, true, true]);
}

#[test]
fn settings_come_from_the_root_or_the_text_part() {
    let json = r#"{"attention_k_eq_v": true, "text_config": {"head_dim": 32, "global_head_dim": 64,
        "num_global_key_value_heads": 2, "hidden_size_per_layer_input": 8, "num_kv_shared_layers": 1,
        "use_double_wide_mlp": true}}"#;
    let cfg = config(3, Some(json));
    let s = Gemma4Settings::from_keys(&Gemma4Keys::read(&cfg.extra_config_json), &cfg);
    assert_eq!((s.swa_head_dim, s.global_head_dim, s.global_kv_heads, s.per_layer_input), (32, 64, Some(2), Some(8)));
    assert!(s.k_eq_v && !s.enable_moe);
    assert_eq!((s.heads(&cfg, true).num_kv_heads, s.heads(&cfg, false).num_kv_heads), (4, 2));
    assert_eq!((s.intermediate_size(&cfg, 1), s.intermediate_size(&cfg, 2)), (256, 512));
}

#[test]
fn gemma_models_are_planned_and_run() {
    let ck = checkpoint(false);
    let vb = VarBuilderX::new(&ck);
    let cfg = config(6, Some(r#"{"hidden_size_per_layer_input": 8}"#));
    let m = Gemma4ForCausalLM::new(&vb, &Comm::default(), &cfg, 0, DType::BF16).unwrap().unwrap();
    assert_eq!((m.layers.len(), m.get_vocab_size()), (6, 100));
    assert!(m.layers[0].is_sliding && !m.layers[5].is_sliding);
    assert_eq!(m.layers[0].forward(true), (true, true));
    assert_eq!(m.get_per_layer_embeddings(7), Some((7, 6, 8)));
    let pass = m.forward_inner(Some(4), true, &vec![3, 4], false);
    assert_eq!((pass.layers, pass.mask_sides, pass.last_rows), (4, Some(vec![3, 1]), Some(vec![2, 3])));
    assert_eq!(pass.head, Gemma4Head::Logits { cast: Some(DType::BF16) });
    let hidden = m.forward_inner(None, false, &vec![3, 4], true);
    assert_eq!((hidden.layers, hidden.mask_sides, hidden.last_rows), (0, None, None));
    assert_eq!(hidden.head, Gemma4Head::Hidden);
    let mut odd = config(6, None);
    odd.vocab_size = None;
    assert!(Gemma4ForCausalLM::new(&vb, &Comm::default(), &odd, 0, DType::BF16).is_none());
}

#[test]
fn gemma_models_may_have_experts() {
    let ck = checkpoint(false);
    let vb = VarBuilderX::new(&ck);
    let mut cfg = config(1, None);
    cfg.moe_cfg = Some(MoEConfig {
        moe_intermediate_size: 32,
        num_experts: Some(4),
        num_experts_per_tok: 2,
        norm_topk_prob: true,
        n_group: None,
        topk_group: None,
        topk_method: None,
        scoring_func: None,
        shared_expert_intermediate_size: None,
        n_shared_experts: None,
    });
    let m = Gemma4ForCausalLM::new(&vb, &Comm::default(), &cfg, 0, DType::BF16).unwrap().unwrap();
    let router = &m.layers[0].experts.as_ref().unwrap().router;
    assert_eq!(router.forward(&vec![4, 9, -1, 6]).unwrap(), vec![1, 3]);
    assert_eq!(router.forward(&vec![4]), Err(RouteError::TooFew { have: 1, want: 2 }));
}

#[test]
fn sizes_are_counted_before_planning() {
    let one = Comm::default();
    assert!(DFlashDraftModel::can_plan(&draft(), &one, false, DType::BF16));
    let mut few = draft();
    few.num_target_layers = 3;
    assert!(!DFlashDraftModel::can_plan(&few, &one, false, DType::BF16));
    let mut headless = draft();
    headless.num_attention_heads = 0;
    assert!(!DFlashDraftModel::can_plan(&headless, &one, false, DType::BF16));
    let g_cfg = config(2, None);
    let mut cfg = Gemma3ForConditionalGeneration::synthesize_text_only_config(&g_cfg);
    assert!(Gemma3ForConditionalGeneration::can_plan(&cfg, &g_cfg, false, &one, DType::BF16));
    cfg.has_vision = true;
    assert!(!Gemma3ForConditionalGeneration::can_plan(&cfg, &g_cfg, false, &one, DType::BF16));
}
