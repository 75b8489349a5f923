//! Mixtures of experts: routing, and what each rank reads of the experts.

pub mod blocks;
pub mod experts;
pub mod fp4;
pub mod fp8;
pub mod pass;
pub mod routing;
