//! Value semantics of SQL decimals, aggregate kernels, leader election decisions,
//! datagen source planning and storage-level sanity checks.

pub mod fixed;
pub mod decimal;
pub mod decimal_codec;
pub mod decimal_order;
pub mod decimal_laws;
pub mod agg;
pub mod agg_laws;
pub mod elections;
pub mod election_laws;
pub mod strings;
pub mod datagen_options;
pub mod datagen;
pub mod datagen_laws;
pub mod hummock;
pub mod hummock_laws;
