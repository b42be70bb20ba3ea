//! Deterministic precompiled-contract handlers for an EVM-compatible engine.
//!
//! A handler receives raw input bytes and a gas limit and returns either the gas
//! it consumed together with its output bytes, or a typed failure.  Every handler
//! meters first and computes afterwards, and its result is fixed by its inputs.

use vstd::prelude::*;
use crate::encoding::be_value;

pub mod abi;
pub mod encoding;
pub mod fibonacci;
pub mod gas;
pub mod outcome;
pub mod png_chart;
pub mod png_chart_utils;
pub mod sequence;
pub mod template;
pub mod word;

verus! {

/// The handlers this library provides.
#[derive(Clone, Copy, Debug, PartialEq, Eq)]
pub enum Handler {
    /// [`fibonacci::fibonacci`].
    Fibonacci,
    /// [`png_chart::png_chart`] and [`png_chart::ChartJob::finish`].
    PngChart,
}

/// A handler and the address it answers at.
#[derive(Clone, Copy, Debug, PartialEq, Eq)]
pub struct PrecompileWithAddress {
    /// The 20-byte address.
    pub address: [u8; 20],
    /// The handler called at that address.
    pub handler: Handler,
}

/// `revm`'s `u64_to_address`: the 20-byte address whose big-endian value is
/// `x`.
#[verifier::external_body]
fn u64_to_address(x: u64) -> (address: [u8; 20])
    ensures
        be_value(address@) == x,
{
    revm::precompile::u64_to_address(x).0.0
}

/// The precompiles with their addresses, in a fixed order: Fibonacci at
/// `0xF0`, then the chart at `0xC0`.
pub fn precompiles() -> (table: Vec<PrecompileWithAddress>)
    ensures
        table@.len() == 2,
        table@[0].handler == Handler::Fibonacci,
        be_value(table@[0].address@) == fibonacci::ADDRESS,
        table@[1].handler == Handler::PngChart,
        be_value(table@[1].address@) == png_chart::ADDRESS,
{
    let mut table: Vec<PrecompileWithAddress> = Vec::new();
    table.push(
        PrecompileWithAddress {
            address: u64_to_address(fibonacci::ADDRESS),
            handler: Handler::Fibonacci,
        },
    );
    table.push(
        PrecompileWithAddress {
            address: u64_to_address(png_chart::ADDRESS),
            handler: Handler::PngChart,
        },
    );
    table
}

} // verus!
