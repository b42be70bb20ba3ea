//! The Fibonacci precompile.
//!
//! The input is a big-endian index `n` of at most 32 bytes.  The call costs a
//! base fee plus a fee for each bit of `n`, and returns `F(n)` reduced modulo
//! 2^256 in its shortest big-endian encoding.  `F(n)` itself fits in 256 bits
//! up to `n = 370`, so up to there the output is the exact number.

use vstd::prelude::*;
use vstd::arithmetic::div_mod::{lemma_add_mod_noop, lemma_small_mod};
use vstd::arithmetic::power2::lemma2_to64;
use crate::encoding::{be_value, lemma_minimal_be_decodes, minimal_be};
use crate::gas::GasSchedule;
use crate::outcome::{
    empty_input_reason, input_too_large_reason, outcome, Failure, Output, PrecompileError,
    PrecompileOutput, PrecompileResult,
};
use crate::sequence::{
    fib, largest_exact_index, lemma_doubling_step_mod, lemma_fib_doubling, lemma_fib_fits_in_word,
};
use crate::word::{
    bit_length, lemma_be_value_bound, lemma_bit_length_bound, lemma_word_modulus, word_modulus,
    U256,
};

verus! {

/// Address of the precompile.
pub const ADDRESS: u64 = 0xF0;

/// Gas charged for every call.
pub const GAS_BASE_FEE: u64 = 750;

/// Gas charged for each bit of the index.
pub const GAS_STEP_FEE: u64 = 50;

/// Longest input read as an index, in bytes.
pub const MAX_INPUT_LEN: usize = 32;

/// Gas consumed by a call with index `n`.
pub open spec fn fibonacci_gas(n: nat) -> nat {
    GAS_BASE_FEE as nat + GAS_STEP_FEE as nat * bit_length(n)
}

/// What a call returns, as a function of its input and gas limit.
pub open spec fn fibonacci_result(input: Seq<u8>, gas_limit: u64) -> Result<Output, Failure> {
    if gas_limit < GAS_BASE_FEE {
        Err(Failure::OutOfGas)
    } else if input.len() == 0 {
        Err(Failure::InvalidInput(empty_input_reason()))
    } else if input.len() > MAX_INPUT_LEN {
        Err(Failure::InvalidInput(input_too_large_reason()))
    } else if fibonacci_gas(be_value(input)) > gas_limit {
        Err(Failure::OutOfGas)
    } else {
        Ok(
            Output {
                gas_used: fibonacci_gas(be_value(input)),
                bytes: minimal_be(fib(be_value(input)) % word_modulus()),
            },
        )
    }
}

/// The cost of a call is the base fee plus the step fee for each bit of the
/// index, and a call succeeds exactly when the gas limit covers that cost:
/// with one unit less it fails for want of gas.
pub proof fn lemma_fibonacci_gas(input: Seq<u8>, gas_limit: u64)
    requires
        1 <= input.len() <= MAX_INPUT_LEN,
    ensures
        fibonacci_result(input, gas_limit) is Ok <==> gas_limit >= 750 + 50 * bit_length(
            be_value(input),
        ),
        fibonacci_result(input, gas_limit) matches Ok(output) ==> output.gas_used == 750 + 50
            * bit_length(be_value(input)),
        fibonacci_result(input, gas_limit) is Err ==> fibonacci_result(input, gas_limit) == Err::<
            Output,
            Failure,
        >(Failure::OutOfGas),
{
}

/// No call costs more than the base fee and the step fee for 256 bits.
pub proof fn lemma_fibonacci_gas_bound(input: Seq<u8>)
    requires
        input.len() <= MAX_INPUT_LEN,
    ensures
        fibonacci_gas(be_value(input)) <= 13_550,
{
    lemma_be_value_bound(input);
    lemma_word_modulus();
    lemma_bit_length_bound(be_value(input), 256);
}

/// A call without input is refused as empty, whatever gas limit at or above
/// the base fee it comes with.
pub proof fn lemma_fibonacci_empty_input(gas_limit: u64)
    requires
        gas_limit >= GAS_BASE_FEE,
    ensures
        fibonacci_result(Seq::empty(), gas_limit) == Err::<Output, Failure>(
            Failure::InvalidInput(empty_input_reason()),
        ),
{
}

/// The output of a successful call is the minimal big-endian encoding of
/// `F(n)` modulo 2^256, and of `F(n)` itself up to the largest exact index.
/// Reading the output back and encoding it again gives the same bytes.
pub proof fn lemma_fibonacci_output(input: Seq<u8>, gas_limit: u64)
    requires
        fibonacci_result(input, gas_limit) is Ok,
    ensures
        ({
            let n = be_value(input);
            let bytes = fibonacci_result(input, gas_limit)->Ok_0.bytes;
            &&& be_value(bytes) == fib(n) % word_modulus()
            &&& minimal_be(be_value(bytes)) == bytes
            &&& 1 <= bytes.len()
            &&& n <= largest_exact_index() ==> bytes == minimal_be(fib(n)) && be_value(bytes)
                == fib(n)
        }),
{
    let n = be_value(input);
    lemma_minimal_be_decodes(fib(n) % word_modulus());
    lemma_fib_fits_in_word(n);
    if n <= largest_exact_index() {
        lemma_small_mod(fib(n), word_modulus());
    }
}

/// Two calls with the same input and the same gas limit return the same gas
/// and the same bytes, or fail alike.
pub proof fn lemma_fibonacci_deterministic(
    first: PrecompileResult,
    second: PrecompileResult,
    input: Seq<u8>,
    gas_limit: u64,
)
    requires
        outcome(first) == fibonacci_result(input, gas_limit),
        outcome(second) == fibonacci_result(input, gas_limit),
    ensures
        outcome(first) == outcome(second),
{
}

/// Fast doubling: the pair `(F(n), F(n + 1))`, each reduced modulo 2^256.
pub fn fib_pair(n: U256) -> (pair: (U256, U256))
    ensures
        pair.0@ == fib(n@) % word_modulus(),
        pair.1@ == fib(n@ + 1) % word_modulus(),
    decreases n@,
{
    if n.is_zero() {
        return (U256::from_u64(0), U256::from_u64(1));
    }
    let half = n.wrapping_shr(1);
    proof {
        lemma2_to64();
    }
    let (a, b) = fib_pair(half);
    let two_b = b.wrapping_shl(1);
    let c = a.wrapping_mul(two_b.wrapping_sub(a));
    let d = a.wrapping_mul(a).wrapping_add(b.wrapping_mul(b));
    proof {
        lemma_doubling_step_mod(half@, a@, b@, word_modulus());
        lemma_fib_doubling(half@);
    }
    if n.is_even() {
        assert(n@ == 2 * half@);
        (c, d)
    } else {
        assert(n@ == 2 * half@ + 1);
        let e = c.wrapping_add(d);
        proof {
            lemma_add_mod_noop(
                fib(2 * half@) as int,
                fib(2 * half@ + 1) as int,
                word_modulus() as int,
            );
        }
        (d, e)
    }
}

/// The precompile: `F(n)` for the index `n` that `input` encodes.
///
/// Fails with a shortage of gas where `gas_limit` is below the base fee or
/// below the cost of the call, and with an invalid input where `input` is
/// empty or longer than 32 bytes.  The gas is checked before the number is
/// computed.
pub fn fibonacci(input: &[u8], gas_limit: u64) -> (result: PrecompileResult)
    ensures
        outcome(result) == fibonacci_result(input@, gas_limit),
{
    if gas_limit < GAS_BASE_FEE {
        return Err(PrecompileError::OutOfGas);
    }
    if input.len() == 0 {
        return Err(PrecompileError::empty_input());
    }
    if input.len() > MAX_INPUT_LEN {
        return Err(PrecompileError::input_too_large());
    }
    let n = U256::from_be_slice(input);
    let steps: usize = 256 - n.leading_zeros();
    let schedule = GasSchedule { base_fee: GAS_BASE_FEE, per_unit_fee: GAS_STEP_FEE };
    let gas_used = match schedule.charge(steps as u64, gas_limit) {
        Ok(gas_used) => gas_used,
        Err(error) => {
            return Err(error);
        },
    };
    let (f_n, _) = fib_pair(n);
    Ok(PrecompileOutput::new(gas_used, f_n.to_minimal_be_bytes()))
}

} // verus!
