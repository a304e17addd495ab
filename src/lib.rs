//! A price oracle over concentrated-liquidity pools.
//!
//! A registry record lists up to ten pools, each tagged with the binary
//! layout of its on-ledger state, and the price engine decodes each pool's
//! square-root price, squares it and averages the results.
pub mod bytes;
pub mod codec;
pub mod engine;
pub mod error;
pub mod layouts;
pub mod registry;
pub mod whirlpools;
