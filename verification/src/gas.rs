//! Gas accounting shared by every handler.
//!
//! The cost of a call is fixed by the shape of its input: a base fee plus a fee
//! per unit of work.  A handler asks for the charge before it does the work the
//! charge pays for.

use vstd::prelude::*;
use crate::outcome::{Failure, PrecompileError};

verus! {

/// The fees of one precompile.
#[derive(Clone, Copy, Debug, PartialEq, Eq)]
pub struct GasSchedule {
    /// Charged for every call.
    pub base_fee: u64,
    /// Charged for each unit of work.
    pub per_unit_fee: u64,
}

impl GasSchedule {
    /// Cost of `units` units of work, as an unbounded number.
    pub open spec fn cost(self, units: nat) -> nat {
        self.base_fee as nat + self.per_unit_fee as nat * units
    }

    /// Charges for `units` units of work against `gas_limit`.
    ///
    /// Returns the gas consumed when the limit covers it.  A cost above the
    /// limit, or one that does not fit in 64 bits, is a shortage of gas: the
    /// arithmetic never wraps.
    pub fn charge(&self, units: u64, gas_limit: u64) -> (r: Result<u64, PrecompileError>)
        ensures
            r is Ok <==> self.cost(units as nat) <= gas_limit,
            r matches Ok(gas_used) ==> gas_used == self.cost(units as nat),
            r matches Err(e) ==> e@ == Failure::OutOfGas,
    {
        let work = match self.per_unit_fee.checked_mul(units) {
            Some(work) => work,
            None => {
                return Err(PrecompileError::OutOfGas);
            },
        };
        let gas_used = match self.base_fee.checked_add(work) {
            Some(gas_used) => gas_used,
            None => {
                return Err(PrecompileError::OutOfGas);
            },
        };
        if gas_used > gas_limit {
            return Err(PrecompileError::OutOfGas);
        }
        Ok(gas_used)
    }
}

} // verus!
