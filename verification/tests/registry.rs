use precompiles::gas::GasSchedule;
use precompiles::outcome::{PrecompileError, PrecompileOutput};
use precompiles::template::template;
use precompiles::{precompiles, Handler};
use revm::precompile::u64_to_address;

#[test]
fn registry_lists_both_precompiles_in_order() {
    let table = precompiles();
    assert_eq!(table.len(), 2);
    assert_eq!(table[0].handler, Handler::Fibonacci);
    assert_eq!(table[0].address, u64_to_address(0xF0).0 .0);
    assert_eq!(table[0].address[19], 0xF0);
    assert_eq!(table[0].address[..19], [0u8; 19]);
    assert_eq!(table[1].handler, Handler::PngChart);
    assert_eq!(table[1].address, u64_to_address(0xC0).0 .0);
    assert_eq!(precompiles(), table);
}

#[test]
fn template_charges_nothing_and_returns_nothing() {
    assert_eq!(template(&[1, 2, 3], 0), Ok(PrecompileOutput::new(0, Vec::new())));
    assert_eq!(template(&[0], u64::MAX), Ok(PrecompileOutput { gas_used: 0, bytes: vec![] }));
    let error = template(&[], 0).unwrap_err();
    assert_eq!(error, PrecompileError::InvalidInput("input must not be empty".to_string()));
}

#[test]
fn charge_is_base_fee_plus_fee_per_unit() {
    let schedule = GasSchedule { base_fee: 750, per_unit_fee: 50 };
    assert_eq!(schedule.charge(0, 750), Ok(750));
    assert_eq!(schedule.charge(0, 749), Err(PrecompileError::OutOfGas));
    assert_eq!(schedule.charge(256, 13_550), Ok(13_550));
    assert_eq!(schedule.charge(256, 13_549), Err(PrecompileError::OutOfGas));
}

#[test]
fn charge_that_overflows_is_out_of_gas() {
    let schedule = GasSchedule { base_fee: 25_000, per_unit_fee: 1_000 };
    assert_eq!(schedule.charge(u64::MAX, u64::MAX), Err(PrecompileError::OutOfGas));
    assert_eq!(schedule.charge(u64::MAX / 1_000, u64::MAX), Err(PrecompileError::OutOfGas));
    let schedule = GasSchedule { base_fee: u64::MAX, per_unit_fee: 1 };
    assert_eq!(schedule.charge(1, u64::MAX), Err(PrecompileError::OutOfGas));
    assert_eq!(schedule.charge(0, u64::MAX), Ok(u64::MAX));
}

#[test]
fn out_of_gas_message() {
    assert_eq!(PrecompileError::OutOfGas.message(), "out of gas");
    assert_eq!(PrecompileError::input_too_large().message(), "input too large");
    assert_eq!(PrecompileError::empty_input().message(), "input must not be empty");
}
