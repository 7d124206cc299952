//! Branch-lifecycle workflows over configured branch types: name resolution,
//! target expansion, integration strategies, hooks and branch-set
//! reconciliation, each stated as a contract and proved.

pub mod pattern;
pub mod template;
pub mod config;
pub mod matcher;
pub mod resolve;
pub mod hook;
pub mod flow;
pub mod sync;
pub mod env;
pub mod git;
