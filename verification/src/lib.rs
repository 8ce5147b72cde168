use vstd::prelude::*;

pub mod cache;
pub mod cri;
pub mod ctx;
pub mod decimal;
pub mod deps;
pub mod error;
pub mod executor;
pub mod flmctl;
pub mod flmexec;
pub mod fmt;
pub mod install;
pub mod keyed;
pub mod sdk;
pub mod shims;
pub mod storage;
pub mod strs;

verus! {

} // verus!
