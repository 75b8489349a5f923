//! DeepSeek V4: sparse attention over a window and compressed rows, and its
//! paged state.

pub mod compressor;
pub mod decode_buffers;
pub mod hybrid_kv;
pub mod hybrid_pool;
pub mod hyper_connection;
pub mod indexer;
pub mod mla_attention;
pub mod moe_v4;
pub mod rope_cache;
