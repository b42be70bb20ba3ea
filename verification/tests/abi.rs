use alloy_sol_types::SolValue;
use precompiles::abi::is_well_sized;
use precompiles::outcome::PrecompileError;
use precompiles::png_chart::png_chart as chart_call;
use precompiles::png_chart_utils::decode_records as decode;
use precompiles::word::U256 as Word;
use revm::primitives::{Address, U256};

type Row = (String, Address, U256);

const OVERRUN: &str = "ABI decode error: ABI decoding failed: buffer overrun while deserializing";

fn abi_word(low: u64) -> [u8; 32] {
    let mut w = [0u8; 32];
    w[24..].copy_from_slice(&low.to_be_bytes());
    w
}

fn words(lows: &[u64]) -> Vec<u8> {
    let mut input = Vec::new();
    for low in lows {
        input.extend_from_slice(&abi_word(*low));
    }
    input
}

fn rows() -> Vec<Vec<Row>> {
    let long: String = "x".repeat(100);
    vec![
        vec![],
        vec![(String::new(), Address::ZERO, U256::ZERO)],
        vec![("a".to_string(), Address::from([0xff; 20]), U256::MAX)],
        // a value that looks like a length no buffer can hold
        vec![("bad length?".to_string(), Address::from([1; 20]), U256::from(u64::MAX))],
        vec![
            (long.clone(), Address::from([2; 20]), U256::from(u64::MAX - 31)),
            ("thirty-two bytes of label text!!".to_string(), Address::from([3; 20]), U256::from(7)),
            ("é ü 漢字".to_string(), Address::from([4; 20]), U256::from(1) << 200),
        ],
    ]
}

fn direct(input: &[u8]) -> Option<Vec<Row>> {
    <Vec<Row>>::abi_decode(input, true).ok()
}

fn library(input: &[u8]) -> Option<Vec<Row>> {
    decode(input).ok().map(|records| {
        records
            .into_iter()
            .map(|r| (r.label, Address::from(r.record_address), U256::from_limbs(r.value.limbs)))
            .collect()
    })
}

#[test]
fn length_that_overflows_the_buffer_position_is_refused() {
    // offset of the array, one record, offset of its tuple, offset of its
    // label, address, value, and a label length of 2^64 - 1
    let input = words(&[0x20, 1, 0x20, 0x60, 7, 9, u64::MAX]);
    assert!(!is_well_sized(&input));
    assert_eq!(decode(&input).unwrap_err().message, OVERRUN);
    let reason = format!("input decoding failed: {}", OVERRUN);
    assert_eq!(chart_call(&input, 1_000_000), Err(PrecompileError::InvalidInput(reason)));
    for length in [u64::MAX - 31, u64::MAX - 32, 1 << 63, 33, 1] {
        let input = words(&[0x20, 1, 0x20, 0x60, 7, 9, length]);
        assert_eq!(decode(&input).unwrap_err().message, OVERRUN);
    }
}

#[test]
fn well_formed_input_is_well_sized() {
    for rows in rows() {
        let input = rows.abi_encode();
        assert!(is_well_sized(&input), "{:?}", rows);
        assert_eq!(library(&input), Some(rows));
    }
}

#[test]
fn value_shaped_like_a_bad_length_is_kept() {
    let rows = vec![("w".to_string(), Address::from([5; 20]), U256::from(u64::MAX))];
    let decoded = decode(&rows.abi_encode()).expect("well-formed");
    assert_eq!(decoded[0].value, Word { limbs: [u64::MAX, 0, 0, 0] });
}

#[test]
fn labels_outside_the_input_are_found() {
    assert!(!is_well_sized(&[]));
    // one word that points to itself and counts no records
    assert!(!is_well_sized(&[0u8; 32]));
    // of the right length, and left to the decoder to refuse
    assert!(is_well_sized(&[0u8; 64]));
    assert_eq!(library(&[0u8; 64]), None);
    assert!(!is_well_sized(&[0u8; 31]));
    // the count is missing
    assert!(!is_well_sized(&words(&[0x20])));
    // no record, nothing to reach
    assert!(is_well_sized(&words(&[0x20, 0])));
    // the array starts past the end
    assert!(!is_well_sized(&words(&[0x60, 0])));
    // more records than words
    assert!(!is_well_sized(&words(&[0x20, 2, 0x20, 0x60, 7, 9, 0])));
    assert!(!is_well_sized(&words(&[0x20, u64::MAX])));
    // the tuple lies past the end
    assert!(!is_well_sized(&words(&[0x20, 1, 0xa1, 0x60, 7, 9, 0])));
    // the label lies past the end
    assert!(!is_well_sized(&words(&[0x20, 1, 0x20, 0x61, 7, 9, 0])));
    // the label is one byte too long
    assert!(!is_well_sized(&words(&[0x20, 1, 0x20, 0x60, 7, 9, 33, 0])));
    assert!(is_well_sized(&words(&[0x20, 1, 0x20, 0x60, 7, 9, 32, 0])));
    assert!(is_well_sized(&words(&[0x20, 1, 0x20, 0x60, 7, 9, 0])));
    // an offset with a high byte set is larger than any input
    let mut input = words(&[0x20, 1, 0x20, 0x60, 7, 9, 0]);
    input[64] = 1;
    assert!(!is_well_sized(&input));
}

#[test]
fn input_of_another_length_than_its_records_is_found() {
    // a word too many
    assert!(!is_well_sized(&words(&[0x20, 0, 0])));
    assert!(!is_well_sized(&words(&[0x20, 1, 0x20, 0x60, 7, 9, 0, 0])));
    // a label without its padding
    let mut input = words(&[0x20, 1, 0x20, 0x60, 7, 9, 1]);
    input.push(b'a');
    assert!(!is_well_sized(&input));
    input.extend_from_slice(&[0u8; 31]);
    assert!(is_well_sized(&input));
    let row = ("a".to_string(), Address::with_last_byte(7), U256::from(9));
    assert_eq!(library(&input), Some(vec![row]));
    // two records that share one label
    let shared = words(&[0x20, 2, 0x40, 0x40, 0x60, 7, 9, 0]);
    assert!(!is_well_sized(&shared));
    assert_eq!(direct(&shared), None);
    for rows in rows() {
        let mut input = rows.abi_encode();
        input.push(0);
        assert!(!is_well_sized(&input));
        assert_eq!(direct(&input), None);
        input.extend_from_slice(&[0u8; 31]);
        assert!(!is_well_sized(&input));
        assert_eq!(direct(&input), None);
    }
}

#[test]
fn every_cut_of_a_well_formed_input_is_refused_as_the_decoder_refuses_it() {
    for rows in rows() {
        let input = rows.abi_encode();
        for keep in 0..input.len() {
            let cut = &input[..keep];
            assert_eq!(direct(cut), None);
            assert_eq!(library(cut), None, "{} of {}", keep, input.len());
        }
    }
}

#[test]
fn every_damaged_byte_is_judged_as_the_decoder_judges_it() {
    let input = rows()[4].abi_encode();
    for at in 0..input.len() {
        for byte in [0x00u8, 0x01, 0x20, 0x7f, 0x80, 0xff] {
            let mut damaged = input.clone();
            damaged[at] = byte;
            assert_eq!(library(&damaged), direct(&damaged), "byte {} set to {}", at, byte);
        }
    }
}

#[test]
fn cut_input_gets_the_overrun_description() {
    for rows in rows() {
        let input = rows.abi_encode();
        for keep in 0..input.len() {
            assert_eq!(decode(&input[..keep]).unwrap_err().message, OVERRUN, "{}", keep);
        }
    }
}
