use xinfer::checkpoint::{Checkpoint, DType, VarBuilderX};
use xinfer::config::QuantConfig;
use xinfer::distributed::{shard, Comm, Shard, Span};
use xinfer::linear::{LinearX, ScaleLayout};
use xinfer::merged::{
    find_scale_block, MergeError, MergedParallelColumnLinear, MergedRequest, MergedSource, PlainPart, ScaledPart, SplitError,
};

fn checkpoint(gguf: bool) -> Checkpoint {
    Checkpoint { names: vec![], gguf, dtype: DType::BF16 }
}

fn quant(method: &str, block: Option<Vec<usize>>) -> Option<QuantConfig> {
    Some(QuantConfig {
        quant_method: method.to_string(),
        weight_block_size: block,
        is_mlx_nvfp4: false,
        skipped_fp8: vec![],
        skipped_fp4: vec![],
    })
}

fn request(out_dim: usize, chunks: Vec<usize>) -> MergedRequest {
    MergedRequest { in_dim: 256, out_dim, chunk_dim: 0, chunks, chunk_shards: None, quant: None, dtype: DType::BF16 }
}

fn load(req: &MergedRequest, rank: usize, world_size: usize, cfg: &Option<QuantConfig>) -> Result<MergedParallelColumnLinear, MergeError> {
    let ck = checkpoint(false);
    MergedParallelColumnLinear::load_merged_chunks(req, &VarBuilderX::new(&ck), &Comm { rank, world_size }, cfg)
}

#[test]
fn plain_chunks_are_cut_each_on_its_own() {
    let m = load(&request(12, vec![8, 4]), 1, 2, &None).unwrap();
    assert_eq!(m.linears, 2);
    match m.source {
        MergedSource::Plain { weight, dtype, chunks, .. } => {
            assert_eq!((weight.dtype, dtype), (DType::BF16, DType::BF16));
            assert_eq!(weight.shape, [12, 256]);
            assert_eq!(
                chunks,
                vec![
                    PlainPart { chunk: Span { start: 0, len: 8 }, rows: Span { start: 4, len: 4 } },
                    PlainPart { chunk: Span { start: 8, len: 4 }, rows: Span { start: 2, len: 2 } },
                ]
            );
        }
        _ => panic!("plain chunks were expected"),
    }
}

#[test]
fn fp8_chunks_keep_the_scales_of_their_rows() {
    let m = load(&request(1024, vec![512, 512]), 1, 2, &quant("fp8", None)).unwrap();
    assert_eq!(m.linears, 1);
    assert_eq!(m.output_splits, Some(vec![256, 256]));
    match m.source {
        MergedSource::Fp8 { by, bx, parts, .. } => {
            assert_eq!((by, bx), (128, 128));
            assert_eq!(
                parts,
                vec![
                    ScaledPart { rows: Span { start: 256, len: 256 }, scales: Span { start: 2, len: 2 } },
                    ScaledPart { rows: Span { start: 768, len: 256 }, scales: Span { start: 6, len: 2 } },
                ]
            );
        }
        _ => panic!("FP8 chunks were expected"),
    }
}

#[test]
fn plain_chunks_are_read_as_stored_and_cast_after() {
    let req = MergedRequest { dtype: DType::F32, ..request(12, vec![8, 4]) };
    match load(&req, 0, 1, &None).unwrap().source {
        MergedSource::Plain { weight, dtype, .. } => assert_eq!((weight.dtype, dtype), (DType::BF16, DType::F32)),
        _ => panic!("dense chunks were expected"),
    }
}

#[test]
fn fp4_chunks_keep_their_rows() {
    let m = load(&request(12, vec![8, 4]), 1, 2, &quant("mxfp4", None)).unwrap();
    assert_eq!(m.output_splits, Some(vec![4, 2]));
    match m.source {
        MergedSource::Fp4 { nvfp4, blocks, scales, parts, .. } => {
            assert!(!nvfp4);
            assert_eq!((blocks.shape, scales.shape), (vec![12, 128], vec![12, 8]));
            assert_eq!(parts[1].rows, Span { start: 10, len: 2 });
        }
        _ => panic!("FP4 chunks were expected"),
    }
}

#[test]
fn merged_weights_that_cannot_be_cut_are_refused() {
    let gguf = checkpoint(true);
    let one = Comm::default();
    assert_eq!(
        MergedParallelColumnLinear::load_merged_chunks(&request(12, vec![8, 4]), &VarBuilderX::new(&gguf), &one, &None).err(),
        Some(MergeError::Gguf)
    );
    assert_eq!(load(&request(12, vec![8, 4]), 0, 1, &quant("gptq", None)).err(), Some(MergeError::UnsupportedMethod));
    let mut shards = request(12, vec![8, 4]);
    shards.chunk_shards = Some(vec![Shard::default()]);
    assert_eq!(load(&shards, 0, 1, &None).err(), Some(MergeError::ShardCount { expected: 2, got: 1 }));
    assert_eq!(load(&request(12, vec![8, 8]), 0, 1, &None).err(), Some(MergeError::ChunkOutOfRange { chunk: 1 }));
    assert_eq!(
        load(&request(12, vec![8, 3]), 0, 2, &None).err(),
        Some(MergeError::NotDivisible { chunk: 1, size: 3, world_size: 2 })
    );
    assert_eq!(
        load(&request(1024, vec![512, 512]), 0, 1, &quant("fp8", Some(vec![128]))).err(),
        Some(MergeError::BlockSizeLen { len: 1 })
    );
    assert_eq!(
        load(&request(1024, vec![512, 512]), 0, 1, &quant("fp8", Some(vec![0, 128]))).err(),
        Some(MergeError::BlockSizeZero)
    );
    assert_eq!(
        load(&request(1024, vec![512, 512]), 1, 8, &quant("fp8", None)).err(),
        Some(MergeError::Unaligned { chunk: 0, start: 64, block: 128 })
    );
    assert_eq!(load(&request(1024, vec![]), 0, 1, &quant("fp8", None)).err(), Some(MergeError::NoChunks));
    let mut columns = request(1024, vec![512, 512]);
    columns.chunk_dim = 2;
    assert_eq!(load(&columns, 0, 1, &None).err(), Some(MergeError::ChunkDim { dim: 2 }));
}

#[test]
fn equal_chunks_are_shards_of_shards() {
    let ck = checkpoint(false);
    let vb = VarBuilderX::new(&ck);
    let two = Comm { rank: 1, world_size: 2 };
    let load = |cfg: &Option<QuantConfig>, quant: &Option<String>| {
        MergedParallelColumnLinear::load_merged_with_hints(8, 12, 0, 3, &vb, &two, cfg, quant, DType::F32)
    };
    let m = load(&None, &None).unwrap();
    assert_eq!((m.linears, m.bias), (3, false));
    match m.source {
        MergedSource::Layers(layers) => {
            let shards = layers.iter().map(|l| match l {
                LinearX::Linear(l) => (l.weight.shard, l.dtype),
                _ => panic!("dense layers were expected"),
            });
            let want: Vec<_> = [1, 3, 5].iter().map(|rank| (shard(0, *rank, 6), DType::F32)).collect();
            assert_eq!(shards.collect::<Vec<_>>(), want);
        }
        _ => panic!("one layer for each chunk was expected"),
    }
    assert_eq!(load(&None, &Some("q8".to_string())).err(), Some(MergeError::QuantizedAtLoad));
}

#[test]
fn outputs_are_cut_into_their_widths() {
    let m = MergedParallelColumnLinear::from_packed_local(true, vec![4, 2, 2], Some("q8".to_string()));
    assert_eq!(
        m.forward(8),
        Ok(Some(vec![Span { start: 0, len: 4 }, Span { start: 4, len: 2 }, Span { start: 6, len: 2 }]))
    );
    assert_eq!(m.forward(9), Err(SplitError::SplitMismatch { got: 9, expected: 8 }));
    let two = MergedParallelColumnLinear { linears: 2, ..MergedParallelColumnLinear::from_packed_local_qlinear(false, vec![4]) };
    assert_eq!(two.forward(4), Err(SplitError::LinearCount { got: 2 }));
    assert_eq!(MergedParallelColumnLinear::new(3).forward(4), Ok(None));
    let fp8 = MergedParallelColumnLinear::from_packed_local_fp8(false, 90, vec![4]);
    assert!(matches!(fp8.source, MergedSource::Local { scales: Some(ScaleLayout::TransposedCopy), requant: None }));
    assert!(m.bias && !fp8.bias && !two.bias);
    assert!(matches!(&m.source, MergedSource::Local { scales: None, requant: Some(q) } if q == "q8"));
}

#[test]
fn every_row_of_a_chunk_is_kept_by_one_rank() {
    let mut seen = vec![0usize; 12];
    for rank in 0..4 {
        let m = load(&request(12, vec![8, 4]), rank, 4, &None).unwrap();
        if let MergedSource::Plain { chunks, .. } = m.source {
            for c in chunks {
                for i in 0..c.rows.len {
                    seen[c.chunk.start + c.rows.start + i] += 1;
                }
            }
        }
    }
    assert_eq!(seen, vec![1usize; 12]);
}

#[test]
fn scale_blocks_have_a_default() {
    assert_eq!(find_scale_block(&quant("fp8", None)), vec![128, 128]);
    assert_eq!(find_scale_block(&quant("fp8", Some(vec![64, 32]))), vec![64, 32]);
}
