use xinfer::distributed::{
    kv_head_shard, pad_vocab_size, shard, tensor_parallel_chunk, ChunkError, Comm, Id, KvShardError, Shard, Span,
};

#[test]
fn a_default_group_has_one_rank() {
    let comm = Comm::default();
    assert_eq!((comm.rank(), comm.world_size(), comm.dim()), (0, 1, 0));
}

#[test]
fn an_identifier_keeps_its_bits() {
    let mut internal = [0i8; 128];
    internal[0] = 7;
    internal[1] = -1;
    internal[127] = -128;
    let bytes = Id { internal }.as_bytes();
    assert_eq!(bytes.len(), 128);
    assert_eq!((bytes[0], bytes[1], bytes[2], bytes[127]), (7, 255, 0, 128));
}

#[test]
fn chunks_are_equal_parts() {
    assert_eq!(tensor_parallel_chunk(10, 0, 3, 1), Ok(Span { start: 0, len: 10 }));
    assert_eq!(tensor_parallel_chunk(12, 0, 2, 4), Ok(Span { start: 6, len: 3 }));
    assert_eq!(
        tensor_parallel_chunk(10, 1, 0, 4),
        Err(ChunkError::NotDivisible { dim: 1, size: 10, world_size: 4 })
    );
    assert_eq!(tensor_parallel_chunk(12, 0, 4, 4), Err(ChunkError::RankOutOfRange { rank: 4, world_size: 4 }));
}

#[test]
fn chunks_of_all_ranks_cover_each_index_once() {
    let mut seen = vec![0usize; 24];
    for rank in 0..6 {
        let span = tensor_parallel_chunk(24, 0, rank, 6).unwrap();
        for i in span.start..span.start + span.len {
            seen[i] += 1;
        }
    }
    assert_eq!(seen, vec![1usize; 24]);
}

#[test]
fn many_kv_heads_are_partitioned() {
    assert_eq!(kv_head_shard(8, 3, 4), Ok((2, Shard { dim: 0, rank: 3, world_size: 4 })));
}

#[test]
fn few_kv_heads_are_held_by_consecutive_ranks() {
    let parts: Vec<_> = (0..4).map(|rank| kv_head_shard(2, rank, 4).unwrap()).collect();
    assert_eq!(parts[0], (1, shard(0, 0, 2)));
    assert_eq!(parts[1], (1, shard(0, 0, 2)));
    assert_eq!(parts[2], (1, shard(0, 1, 2)));
    assert_eq!(parts[3], (1, shard(0, 1, 2)));
}

#[test]
fn kv_heads_that_do_not_spread_are_refused() {
    assert_eq!(kv_head_shard(0, 0, 1), Err(KvShardError::NoHeads));
    assert_eq!(kv_head_shard(4, 0, 0), Err(KvShardError::EmptyGroup));
    assert_eq!(kv_head_shard(4, 2, 2), Err(KvShardError::RankOutOfRange { rank: 2, world_size: 2 }));
    assert_eq!(kv_head_shard(6, 0, 4), Err(KvShardError::NotPartitioned { heads: 6, world_size: 4 }));
    assert_eq!(kv_head_shard(3, 0, 4), Err(KvShardError::NotReplicated { heads: 3, world_size: 4 }));
}

#[test]
fn query_heads_meet_their_kv_head() {
    let (queries, kv, ranks) = (16usize, 4usize, 8usize);
    for head in 0..queries {
        let rank = head / (queries / ranks);
        let (count, part) = kv_head_shard(kv, rank, ranks).unwrap();
        let first = part.rank * (kv / part.world_size);
        let wanted = head / (queries / kv);
        assert!(first <= wanted && wanted < first + count);
    }
}

#[test]
fn vocabularies_are_padded_to_units_and_ranks() {
    assert_eq!(pad_vocab_size(64, 1), 64);
    assert_eq!(pad_vocab_size(65, 1), 128);
    assert_eq!(pad_vocab_size(32000, 8), 32000);
    assert_eq!(pad_vocab_size(151_936, 3), 151_936 + 64);
    assert_eq!(pad_vocab_size(0, 2), 0);
}
