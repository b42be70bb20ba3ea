//! The skeleton of a handler: a precompile that charges its base fee and
//! returns no bytes.  A new precompile starts from here.

use vstd::prelude::*;
use crate::outcome::{
    empty_input_reason, outcome, Failure, Output, PrecompileError, PrecompileOutput,
    PrecompileResult,
};

verus! {

/// Address of the precompile.
pub const ADDRESS: u64 = 0x00;

/// Gas charged for every call.
pub const GAS_BASE_FEE: u64 = 0;

/// What a call returns, as a function of its input and gas limit.
pub open spec fn template_result(input: Seq<u8>, gas_limit: u64) -> Result<Output, Failure> {
    if gas_limit < GAS_BASE_FEE {
        Err(Failure::OutOfGas)
    } else if input.len() == 0 {
        Err(Failure::InvalidInput(empty_input_reason()))
    } else {
        Ok(Output { gas_used: GAS_BASE_FEE as nat, bytes: Seq::empty() })
    }
}

/// The precompile: checks the gas limit against the base fee, refuses an
/// empty input, and returns no bytes.
pub fn template(input: &[u8], gas_limit: u64) -> (result: PrecompileResult)
    ensures
        outcome(result) == template_result(input@, gas_limit),
{
    if gas_limit < GAS_BASE_FEE {
        return Err(PrecompileError::OutOfGas);
    }
    if input.len() == 0 {
        return Err(PrecompileError::empty_input());
    }
    Ok(PrecompileOutput::new(GAS_BASE_FEE, Vec::new()))
}

} // verus!
