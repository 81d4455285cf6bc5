use vstd::prelude::*;

pub mod counters;
pub mod registry;
pub mod state;
pub mod ranking;
pub mod combos;
pub mod sweep;
pub mod text;
pub mod devices;
pub mod config;
pub mod export;

verus! {

/// Errors reported by an RX/TX device.
#[derive(Debug, PartialEq, Eq, Clone, Copy, Structural)]
pub enum RxTxDevError {
    RxEndOfData,
    RxReadError,
}

} // verus!
