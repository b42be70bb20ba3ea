use precompiles::fibonacci::{fib_pair, fibonacci, GAS_BASE_FEE, GAS_STEP_FEE};
use precompiles::outcome::PrecompileError;
use precompiles::word::U256 as Word;
use revm::primitives::U256;

/// Invokes the precompile on `n` with exactly the gas it charges and reads the
/// returned bytes back as a number.
fn run_fib(n: u64) -> (U256, u64) {
    let mut data = n.to_be_bytes().to_vec();
    while data.len() > 1 && data[0] == 0 {
        data.remove(0);
    }

    let n_u256 = U256::from(n);
    let steps = 256 - n_u256.leading_zeros();
    let work = GAS_STEP_FEE * steps as u64;
    let gas_limit = GAS_BASE_FEE + work;

    let output = fibonacci(&data, gas_limit).expect("should succeed with sufficient gas");

    let slice: &[u8] = &output.bytes;
    let mut buf = [0u8; 32];
    buf[32 - slice.len()..].copy_from_slice(slice);

    (U256::from_be_bytes(buf), output.gas_used)
}

#[test]
fn test_fib_values() {
    let cases = [
        (0, U256::from(0)),
        (1, U256::from(1)),
        (2, U256::from(1)),
        (3, U256::from(2)),
        (4, U256::from(3)),
        (5, U256::from(5)),
        (10, U256::from(55)),
        (15, U256::from(610)),
        (20, U256::from(6_765)),
        (30, U256::from(832_040)),
        (50, U256::from(12_586_269_025u64)),
    ];
    for (n, expected) in cases {
        let (result, _) = run_fib(n);
        assert_eq!(result, expected, "F({}) != {}", n, expected);
    }
}

#[test]
fn test_fib_370() {
    let n = 370;
    let expected = U256::from_str_radix(
        "94611056096305838013295371573764256526437182762229865607320618320601813254535",
        10,
    )
    .unwrap();

    let (result, gas) = run_fib(n);
    println!("[fib][{}] Gas used: {}", n, gas);

    assert_eq!(result, expected, "F({}) != {}", n, expected);
}

#[test]
fn test_insufficient_gas() {
    let input = vec![1u8];
    let err = fibonacci(&input, GAS_BASE_FEE);
    assert!(err.is_err(), "expected OutOfGas");
    let e = err.unwrap_err();
    assert!(e.message().contains("out of gas"), "wrong error: {}", e.message());
}

#[test]
fn test_empty_input() {
    let input: Vec<u8> = Vec::new();
    let err = fibonacci(&input, GAS_BASE_FEE);
    assert!(err.is_err(), "expected empty-input error");
    let e = err.unwrap_err();
    assert!(e.message().contains("must not be empty"), "wrong error: {}", e.message());
}

#[test]
fn fib_gas_is_exact_at_the_limit() {
    // n = 10 has four bits: 750 + 50 * 4.
    let output = fibonacci(&[10], 950).expect("limit equals cost");
    assert_eq!(output.gas_used, 950);
    assert_eq!(output.bytes, vec![55u8]);
    assert_eq!(fibonacci(&[10], 949), Err(PrecompileError::OutOfGas));
}

#[test]
fn fib_pair_wraps_past_the_largest_exact_index() {
    let n = Word { limbs: [371, 0, 0, 0] };
    let (f, _) = fib_pair(n);
    let exact = U256::from_str_radix(
        "153083904475345790698149223310665389766178449653686710164582374234640876900329",
        10,
    );
    // F(371) does not fit in 256 bits.
    assert!(exact.is_err());
    let wrapped = U256::from_str_radix(
        "37291815238029595274578238301977481912908464988046146125124790226727747260393",
        10,
    )
    .unwrap();
    assert_eq!(U256::from_limbs(f.limbs), wrapped);
}

#[test]
fn fib_of_the_first_indices() {
    let expected: [u8; 6] = [0, 1, 1, 2, 3, 5];
    for (n, value) in expected.iter().enumerate() {
        let output = fibonacci(&[n as u8], 13_550).expect("covered");
        assert_eq!(output.bytes, vec![*value]);
    }
}

#[test]
fn fib_of_zero_is_one_zero_byte() {
    let output = fibonacci(&[0], GAS_BASE_FEE).expect("zero has no bits");
    assert_eq!(output.gas_used, 750);
    assert_eq!(output.bytes, vec![0u8]);
}

#[test]
fn fib_input_longer_than_a_word_is_refused() {
    let error = fibonacci(&[1u8; 33], u64::MAX).unwrap_err();
    assert_eq!(error, PrecompileError::InvalidInput("input too large".to_string()));
    assert!(fibonacci(&[0u8; 32], u64::MAX).is_ok());
}

#[test]
fn fib_below_the_base_fee_is_out_of_gas_whatever_the_input() {
    assert_eq!(fibonacci(&[], 749), Err(PrecompileError::OutOfGas));
    assert_eq!(fibonacci(&[1u8; 40], 749), Err(PrecompileError::OutOfGas));
    assert_eq!(fibonacci(&[0], 0), Err(PrecompileError::OutOfGas));
}

#[test]
fn fib_empty_input_is_refused_at_any_covering_limit() {
    for gas_limit in [750, 751, 13_550, u64::MAX] {
        let error = fibonacci(&[], gas_limit).unwrap_err();
        assert_eq!(error, PrecompileError::InvalidInput("input must not be empty".to_string()));
    }
}

#[test]
fn fib_leading_zero_bytes_cost_nothing() {
    let short = fibonacci(&[20], 1_000).expect("five bits");
    let long = fibonacci(&[0, 0, 0, 20], 1_000).expect("five bits");
    assert_eq!(short.gas_used, 1_000);
    assert_eq!(short, long);
    assert_eq!(short.bytes, vec![0x1a, 0x6d]);
}

#[test]
fn fib_of_the_largest_index_costs_the_most() {
    let input = [0xffu8; 32];
    assert_eq!(fibonacci(&input, 13_549), Err(PrecompileError::OutOfGas));
    let output = fibonacci(&input, 13_550).expect("limit equals cost");
    assert_eq!(output.gas_used, 750 + 50 * 256);
    assert!(!output.bytes.is_empty() && output.bytes.len() <= 32);
    assert!(output.bytes.len() == 1 || output.bytes[0] != 0);
}

#[test]
fn fib_output_survives_a_round_trip() {
    for n in [0u64, 1, 7, 93, 200, 370, 371, 1_000, u64::MAX] {
        let (value, _) = run_fib(n);
        let again = Word { limbs: value.into_limbs() }.to_minimal_be_bytes();
        let mut data = n.to_be_bytes().to_vec();
        while data.len() > 1 && data[0] == 0 {
            data.remove(0);
        }
        let output = fibonacci(&data, 13_550).expect("covered");
        assert_eq!(output.bytes, again);
    }
}

#[test]
fn fib_is_the_same_on_every_call() {
    let input = [0x01, 0x72];
    let first = fibonacci(&input, 5_000);
    assert_eq!(first, fibonacci(&input, 5_000));
    assert_eq!(first.expect("covered").gas_used, 750 + 50 * 9);
}

#[test]
fn fib_pair_follows_the_recurrence() {
    let mut previous = fib_pair(Word::from_u64(0));
    assert_eq!(previous, (Word::from_u64(0), Word::from_u64(1)));
    for n in 1u64..400 {
        let pair = fib_pair(Word::from_u64(n));
        assert_eq!(pair.0, previous.1);
        let sum =
            U256::from_limbs(previous.0.limbs).wrapping_add(U256::from_limbs(previous.1.limbs));
        assert_eq!(U256::from_limbs(pair.1.limbs), sum);
        previous = pair;
    }
}

#[test]
fn word_reads_big_endian_bytes() {
    assert_eq!(Word::from_be_slice(&[]), Word::from_u64(0));
    assert_eq!(Word::from_be_slice(&[1, 2]), Word::from_u64(258));
    let mut bytes = [0u8; 32];
    bytes[0] = 0x80;
    assert_eq!(Word::from_be_slice(&bytes), Word { limbs: [0, 0, 0, 1 << 63] });
    bytes[31] = 9;
    assert_eq!(Word::from_be_slice(&bytes), Word { limbs: [9, 0, 0, 1 << 63] });
}

#[test]
fn word_writes_minimal_big_endian_bytes() {
    assert_eq!(Word::from_u64(0).to_minimal_be_bytes(), vec![0u8]);
    assert_eq!(Word::from_u64(255).to_minimal_be_bytes(), vec![255u8]);
    assert_eq!(Word::from_u64(256).to_minimal_be_bytes(), vec![1u8, 0]);
    let top = Word { limbs: [0, 0, 0, 1 << 63] };
    let bytes = top.to_minimal_be_bytes();
    assert_eq!(bytes.len(), 32);
    assert_eq!(bytes[0], 0x80);
    assert_eq!(Word::from_be_slice(&bytes), top);
}

#[test]
fn word_predicates() {
    assert!(Word::from_u64(0).is_zero());
    assert!(!Word { limbs: [0, 0, 1, 0] }.is_zero());
    assert!(Word::from_u64(4).is_even());
    assert!(!Word { limbs: [5, 0, 0, 8] }.is_even());
    assert_eq!(Word::from_u64(77).saturating_to_u64(), 77);
    assert_eq!(Word { limbs: [77, 1, 0, 0] }.saturating_to_u64(), u64::MAX);
}
