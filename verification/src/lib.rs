//! Build planning and runtime data layout for RISC-V smart contracts that run
//! inside an EVM-shaped host.

pub mod abi;
pub mod bytecode;
pub mod call;
pub mod compile;
pub mod create;
pub mod db;
pub mod deployable;
pub mod cycle;
pub mod frame;
pub mod gas;
pub mod generate;
pub mod hash;
pub mod manifest;
pub mod mapping;
pub mod project;
pub mod source;
pub mod storage;
pub mod text;
pub mod word;
