use xinfer::ds_v4::hybrid_kv::{build_v4_cache_specs, v4_bytes_per_native_page};
use xinfer::ds_v4::hybrid_pool::{PageGather, PageTensor, PageWrite, PoolError, ResidualCopy, V4HybridPagePool};

fn pool(ratios: &[usize], pages: usize) -> V4HybridPagePool {
    V4HybridPagePool::new(&build_v4_cache_specs(ratios, 128, 16, 8), pages).unwrap()
}

#[test]
fn a_pool_needs_pages() {
    assert!(matches!(V4HybridPagePool::new(&build_v4_cache_specs(&[0], 128, 16, 8), 0), Err(PoolError::NoPages)));
}

#[test]
fn page_tensors_follow_the_specification() {
    let pool = pool(&[0, 4, 128], 3);
    assert_eq!(pool.native_block_size, 256);
    assert!(pool.layer(3).is_none());
    let plain = pool.layer(0).unwrap();
    assert!(plain.compressed.is_none() && plain.residual.is_none());
    assert_eq!(plain.zero_page(0), vec![PageTensor::Swa]);
    let four = pool.layer(1).unwrap();
    assert_eq!((four.compressed.unwrap().rows, four.compressed.unwrap().width), (64, 16));
    assert_eq!((four.residual.unwrap().rows, four.residual.unwrap().width), (8, 64));
    assert_eq!((four.indexer_residual.unwrap().rows, four.indexer_residual.unwrap().width), (8, 32));
    assert_eq!(pool.zero_page(1)[1].len(), 5);
}

#[test]
fn pool_bytes_are_pages_times_block_bytes() {
    let specs = build_v4_cache_specs(&[0, 4, 128], 128, 16, 8);
    let pool = V4HybridPagePool::new(&specs, 5).unwrap();
    let mut bytes = 0usize;
    for layer in &pool.layers {
        for shape in [Some(layer.swa), layer.compressed, layer.residual, layer.indexer_compressed, layer.indexer_residual] {
            if let Some(s) = shape {
                let size = if s.dtype == xinfer::checkpoint::DType::F32 { 4 } else { 2 };
                bytes += s.pages * s.rows * s.width * size;
            }
        }
    }
    assert_eq!(bytes, 5 * v4_bytes_per_native_page(&specs));
}

#[test]
fn residuals_freeze_at_block_boundaries_only() {
    let mut pool = pool(&[4], 4);
    let table = [2u32, 0];
    pool.mark_residual_frozen(300, &table);
    assert!(!pool.residual_frozen_at(300, &table));
    pool.mark_residual_frozen(512, &table);
    assert!(pool.residual_frozen_at(512, &table));
    assert!(!pool.residual_frozen_at(256, &table));
    pool.update_residual_freeze(500, &table);
    assert!(!pool.residual_frozen_at(512, &table));
    pool.update_residual_freeze(512, &table);
    assert!(pool.residual_frozen_at(512, &table));
    pool.clear_residual_frozen(0);
    assert!(!pool.residual_frozen_at(512, &table));
}

#[test]
fn lengths_without_a_page_are_never_frozen() {
    let mut pool = pool(&[4], 2);
    pool.mark_residual_frozen(512, &[0]);
    assert!(!pool.residual_frozen_at(512, &[0]));
    pool.mark_residual_frozen(256, &[7]);
    assert!(!pool.residual_frozen_at(256, &[7]));
    assert!(!pool.residual_frozen_at(0, &[0]));
}

#[test]
fn token_rows_are_written_in_runs() {
    let pool = pool(&[0], 4);
    let positions = [254i64, 255, 256, 257, 900];
    let writes = pool.write_swa_rows(0, 5, &positions, &[3, 1]).unwrap();
    assert_eq!(
        writes,
        vec![
            PageWrite { src: 0, rows: 2, page: 3, row: 254, elem_offset: 254 * 16 },
            PageWrite { src: 2, rows: 2, page: 1, row: 0, elem_offset: 0 },
        ]
    );
    assert!(matches!(
        pool.write_swa_rows(0, 4, &positions, &[3, 1]),
        Err(PoolError::LengthMismatch { kv: 4, pos: 5 })
    ));
    assert!(pool.write_swa_rows(1, 4, &positions, &[3, 1]).unwrap().is_empty());
}

#[test]
fn compressed_rows_are_written_behind_each_other() {
    let pool = pool(&[4], 4);
    let writes = pool.write_compressed_rows(0, 4, 62, &[3, 1]);
    assert_eq!(
        writes,
        vec![
            PageWrite { src: 0, rows: 2, page: 3, row: 62, elem_offset: 62 * 16 },
            PageWrite { src: 2, rows: 2, page: 1, row: 0, elem_offset: 0 },
        ]
    );
}

#[test]
fn gathering_finds_what_was_written() {
    let pool = pool(&[4], 4);
    let table = [3u32, 1];
    let plan = pool.gather_sparse_into(0, 4, 2, 258, &table);
    assert_eq!(
        plan.window,
        vec![
            PageGather { abs: 254, rows: 2, page: 3, row: 254, slot: 2, elem_offset: 32 },
            PageGather { abs: 256, rows: 2, page: 1, row: 0, slot: 0, elem_offset: 0 },
        ]
    );
    assert_eq!(plan.compressed, vec![PageGather { abs: 0, rows: 2, page: 3, row: 0, slot: 4, elem_offset: 64 }]);
    let positions: Vec<i64> = (254..258).collect();
    for write in pool.write_swa_rows(0, 4, &positions, &table).unwrap() {
        for k in 0..write.rows {
            let pos = positions[write.src + k] as usize;
            let found = plan.window.iter().any(|g| {
                g.abs <= pos && pos < g.abs + g.rows && g.page == write.page && g.row + pos - g.abs == write.row + k
            });
            assert!(found);
        }
    }
}

#[test]
fn residuals_round_trip_through_the_last_page() {
    let pool = pool(&[4], 4);
    let table = [3u32, 1];
    let saved = pool.save_residual_from_state(0, (8, 32), (8, 32), 300, &table, false).unwrap();
    assert_eq!(saved, Some(ResidualCopy { page: 1, rows: 8, width: 32 }));
    let loaded = pool.load_residual_into_state(0, (8, 32), 300, &table, false);
    assert_eq!(loaded, saved);
    assert!(matches!(
        pool.save_residual_from_state(0, (8, 32), (4, 32), 300, &table, false),
        Err(PoolError::ScoreRows { have: 4, want: 8 })
    ));
    assert_eq!(pool.save_residual_from_state(0, (8, 30), (8, 32), 300, &table, false).unwrap(), None);
    assert_eq!(pool.save_residual_from_state(0, (8, 32), (8, 32), 0, &table, false).unwrap(), None);
}

#[test]
fn layers_of_a_pool_can_be_changed() {
    let mut p = pool(&[0, 4], 2);
    assert!(p.layer_mut(2).is_none() && p.layer(2).is_none());
    p.layer_mut(1).unwrap().residual_window = 3;
    assert_eq!(p.layer(1).unwrap().residual_window, 3);
}
