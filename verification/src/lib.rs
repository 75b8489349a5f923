//! Planning and bookkeeping of tensor-parallel language-model layers.
//!
//! The library decides what is loaded, how it is cut over the ranks of a
//! tensor-parallel group, where cached rows live, and which path a forward
//! pass takes. It works on plain values: names, shapes, positions, block
//! tables. Moving and multiplying tensors is left to the caller.

pub mod activation;
pub mod attention;
pub mod batch;
pub mod checkpoint;
pub mod config;
pub mod deepseek4;
pub mod dflash;
pub mod distributed;
pub mod ds_v4;
pub mod gemma3;
pub mod gemma4;
pub mod ggml;
pub mod json;
pub mod linear;
pub mod math;
pub mod merged;
pub mod minimax3;
pub mod mla;
pub mod mlp;
pub mod moe;
pub mod moe_w2_delta;
pub mod others;
pub mod parallel;
pub mod text;

