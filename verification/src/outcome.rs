//! What a precompile call returns: consumed gas and output bytes, or a failure.

use vstd::prelude::*;

verus! {

/// Successful result of a precompile call.
#[derive(Clone, Debug, PartialEq, Eq)]
pub struct PrecompileOutput {
    /// Gas charged to the caller.
    pub gas_used: u64,
    /// Bytes handed back as return data.
    pub bytes: Vec<u8>,
}

/// Mathematical value of a [`PrecompileOutput`].
pub ghost struct Output {
    pub gas_used: nat,
    pub bytes: Seq<u8>,
}

impl View for PrecompileOutput {
    type V = Output;

    open spec fn view(&self) -> Output {
        Output { gas_used: self.gas_used as nat, bytes: self.bytes@ }
    }
}

impl PrecompileOutput {
    /// Pairs the gas charged with the bytes returned.
    pub fn new(gas_used: u64, bytes: Vec<u8>) -> (out: Self)
        ensures
            out.gas_used == gas_used,
            out.bytes == bytes,
    {
        PrecompileOutput { gas_used, bytes }
    }
}

/// Why a precompile call failed.
#[derive(Clone, Debug, PartialEq, Eq)]
pub enum PrecompileError {
    /// The gas limit does not cover the cost of the call.
    OutOfGas,
    /// The input was rejected; the message is the revert reason.
    InvalidInput(String),
}

/// Mathematical value of a [`PrecompileError`].
pub ghost enum Failure {
    OutOfGas,
    InvalidInput(Seq<char>),
}

impl View for PrecompileError {
    type V = Failure;

    open spec fn view(&self) -> Failure {
        match self {
            PrecompileError::OutOfGas => Failure::OutOfGas,
            PrecompileError::InvalidInput(reason) => Failure::InvalidInput(reason@),
        }
    }
}

impl Failure {
    /// The text surfaced to the caller as the revert reason.
    pub open spec fn message(self) -> Seq<char> {
        match self {
            Failure::OutOfGas => "out of gas"@,
            Failure::InvalidInput(reason) => reason,
        }
    }
}

/// Result of a precompile call.
pub type PrecompileResult = Result<PrecompileOutput, PrecompileError>;

/// Mathematical value of the result of a call.
pub open spec fn outcome(result: PrecompileResult) -> Result<Output, Failure> {
    match result {
        Ok(output) => Ok(output@),
        Err(error) => Err(error@),
    }
}

/// Revert reason of a call without input.
pub open spec fn empty_input_reason() -> Seq<char> {
    "input must not be empty"@
}

/// Revert reason of a call whose input is longer than the handler reads.
pub open spec fn input_too_large_reason() -> Seq<char> {
    "input too large"@
}

impl PrecompileError {
    /// The failure of a call without input.
    pub fn empty_input() -> (error: PrecompileError)
        ensures
            error@ == Failure::InvalidInput(empty_input_reason()),
    {
        PrecompileError::InvalidInput(String::from_str("input must not be empty"))
    }

    /// The failure of a call whose input is longer than the handler reads.
    pub fn input_too_large() -> (error: PrecompileError)
        ensures
            error@ == Failure::InvalidInput(input_too_large_reason()),
    {
        PrecompileError::InvalidInput(String::from_str("input too large"))
    }

    /// The text surfaced to the caller as the revert reason.
    pub fn message(&self) -> (text: String)
        ensures
            text@ == self@.message(),
    {
        match self {
            PrecompileError::OutOfGas => String::from_str("out of gas"),
            PrecompileError::InvalidInput(reason) => reason.clone(),
        }
    }
}

} // verus!
