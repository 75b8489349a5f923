use xinfer::ds_v4::hybrid_kv::{
    align_native_block, build_v4_cache_specs, v4_bytes_per_native_page, V4CacheKind, V4LayerCacheSpec,
};

#[test]
fn kinds_follow_the_ratio() {
    let spec = V4LayerCacheSpec::new(0, 4, 128, 512, Some(128), true);
    assert_eq!(spec.residual_window, 8);
    assert_eq!(
        spec.kinds(),
        vec![
            V4CacheKind::Swa,
            V4CacheKind::C4,
            V4CacheKind::CompressorResidual,
            V4CacheKind::IndexerCompressed,
            V4CacheKind::IndexerResidual,
        ]
    );
    let bare = V4LayerCacheSpec::new(0, 4, 128, 512, None, true);
    assert_eq!(bare.kinds(), vec![V4CacheKind::Swa, V4CacheKind::C4, V4CacheKind::CompressorResidual]);
    let wide = V4LayerCacheSpec::new(1, 128, 128, 512, None, false);
    assert_eq!(wide.kinds(), vec![V4CacheKind::Swa, V4CacheKind::C128, V4CacheKind::CompressorResidual]);
    let none = V4LayerCacheSpec::new(2, 0, 128, 512, None, false);
    assert_eq!(none.kinds(), vec![V4CacheKind::Swa]);
    assert_eq!(none.residual_window, 0);
}

#[test]
fn overlapping_blocks_double_the_residual() {
    let spec = V4LayerCacheSpec::new(0, 4, 128, 512, Some(128), true);
    assert_eq!((spec.coff(), spec.residual_state_width(), spec.packed_residual_dim()), (2, 1024, 2048));
    let wide = V4LayerCacheSpec::new(1, 128, 128, 512, None, false);
    assert_eq!((wide.coff(), wide.residual_state_width(), wide.packed_residual_dim()), (1, 512, 1024));
}

#[test]
fn pages_have_exact_sizes() {
    let spec = V4LayerCacheSpec::new(0, 4, 128, 512, Some(128), true);
    assert_eq!(spec.compressed_entries_per_native_block(), 64);
    assert_eq!(spec.entries_per_page(V4CacheKind::Swa), 256);
    assert_eq!(spec.entries_per_page(V4CacheKind::C4), 64);
    assert_eq!(spec.entries_per_page(V4CacheKind::CompressorResidual), 8);
    assert_eq!(spec.page_row_bytes(V4CacheKind::Swa), 1024);
    assert_eq!(spec.page_row_bytes(V4CacheKind::IndexerCompressed), 256);
    assert_eq!(spec.page_row_bytes(V4CacheKind::CompressorResidual), 8192);
    assert_eq!(spec.page_row_bytes(V4CacheKind::IndexerResidual), 2048);
    assert_eq!(spec.page_size_bytes(V4CacheKind::Swa), 262_144);
    // 256 * 1024 + 64 * 1024 + 8 * 8192 + 64 * 256 + 8 * 2048
    assert_eq!(spec.native_page_bytes(), 262_144 + 65_536 + 65_536 + 16_384 + 16_384);
    let none = V4LayerCacheSpec::new(2, 0, 128, 512, None, false);
    assert_eq!(none.compressed_entries_per_native_block(), 0);
    assert_eq!(none.native_page_bytes(), 262_144);
}

#[test]
fn an_indexer_width_that_is_not_given_counts_as_128() {
    let spec = V4LayerCacheSpec::new(0, 4, 128, 512, None, true);
    assert_eq!(spec.page_row_bytes(V4CacheKind::IndexerCompressed), 256);
}

#[test]
fn specifications_come_one_for_each_ratio() {
    let specs = build_v4_cache_specs(&[0, 4, 128], 128, 512, 64);
    assert_eq!(specs.len(), 3);
    assert_eq!((specs[0].layer_idx, specs[0].compress_ratio, specs[0].index_head_dim), (0, 0, None));
    assert_eq!((specs[1].layer_idx, specs[1].residual_window, specs[1].index_head_dim), (1, 8, Some(64)));
    assert_eq!((specs[2].layer_idx, specs[2].residual_window, specs[2].index_head_dim), (2, 128, None));
    let each: usize = specs.iter().map(|s| s.native_page_bytes()).sum();
    assert_eq!(v4_bytes_per_native_page(&specs), each);
}

#[test]
fn lengths_align_down_to_blocks() {
    assert_eq!(align_native_block(0), 0);
    assert_eq!(align_native_block(255), 0);
    assert_eq!(align_native_block(256), 256);
    assert_eq!(align_native_block(511), 256);
    assert_eq!(align_native_block(align_native_block(1000)), align_native_block(1000));
}
