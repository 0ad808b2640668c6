//! EVM word arithmetic, the bitwise and comparison instructions of the
//! interpreter, and the Optimism gas accounting at the end of a call.

pub mod u256;
pub mod i256;
pub mod primitives;
pub mod gas;
pub mod interpreter;
pub mod bitwise;
pub mod optimism;
pub mod inspector;
