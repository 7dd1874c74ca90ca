use wasm_vm::{VmError, WasmVM};

fn magic_code() -> Vec<u8> {
    vec![0x00, 0x61, 0x73, 0x6d, 0x01, 0x00, 0x00, 0x00]
}

#[test]
fn test_deploy_and_call_contract() {
    let mut vm = WasmVM::new(1000000);
    let code = vec![0x00, 0x61, 0x73, 0x6d, 0x01, 0x00, 0x00, 0x00];
    assert!(vm.deploy_contract("contract1".to_string(), code).is_ok());

    let result = vm.call_contract("contract1", "get_balance", vec![]);
    assert!(result.is_ok());
    assert_eq!(result.unwrap(), "0");
}

#[test]
fn test_storage_operations() {
    let mut vm = WasmVM::new(1000000);
    let code = vec![0x00, 0x61, 0x73, 0x6d, 0x01, 0x00, 0x00, 0x00];
    vm.deploy_contract("contract1".to_string(), code).unwrap();

    let set_result = vm.call_contract(
        "contract1",
        "set_storage",
        vec!["key1".to_string(), "value1".to_string()],
    );
    assert!(set_result.is_ok());

    let get_result = vm.call_contract("contract1", "get_storage", vec!["key1".to_string()]);
    assert_eq!(get_result.unwrap(), "value1");
}

#[test]
fn duplicate_deploy_fails_and_first_contract_survives() {
    let mut vm = WasmVM::new(1000000);
    vm.deploy_contract("a".to_string(), magic_code()).unwrap();
    vm.deposit("a", 55).unwrap();
    let second = vm.deploy_contract("a".to_string(), magic_code());
    assert_eq!(second, Err(VmError::DuplicateAddress));
    let c = vm.get_contract("a").unwrap();
    assert_eq!(c.balance, 55);
    assert_eq!(c.code, magic_code());
}

#[test]
fn deploy_without_magic_registers_nothing() {
    let mut vm = WasmVM::new(1000000);
    let r = vm.deploy_contract("a".to_string(), vec![0x01, 0x02, 0x03, 0x04]);
    assert_eq!(r, Err(VmError::InvalidFormat));
    let r = vm.deploy_contract("b".to_string(), vec![0x00, 0x61, 0x73]);
    assert_eq!(r, Err(VmError::InvalidFormat));
    assert!(vm.get_contract("a").is_none());
    assert!(vm.get_contract("b").is_none());
    assert_eq!(vm.get_gas_used(), 0);
}

#[test]
fn deploy_charges_exactly_21000() {
    let mut vm = WasmVM::new(1000000);
    assert_eq!(vm.get_gas_used(), 0);
    vm.deploy_contract("a".to_string(), magic_code()).unwrap();
    assert_eq!(vm.get_gas_used(), 21000);
    vm.deploy_contract("b".to_string(), magic_code()).unwrap();
    assert_eq!(vm.get_gas_used(), 42000);
}

#[test]
fn fresh_contract_has_zero_balance_string() {
    let mut vm = WasmVM::new(1000000);
    vm.deploy_contract("a".to_string(), magic_code()).unwrap();
    assert_eq!(vm.call_contract("a", "get_balance", vec![]).unwrap(), "0");
    assert_eq!(vm.get_gas_used(), 24000);
}

#[test]
fn storage_write_then_read_round_trip() {
    let mut vm = WasmVM::new(1000000);
    vm.deploy_contract("a".to_string(), magic_code()).unwrap();
    let set = vm
        .call_contract("a", "set_storage", vec!["k".to_string(), "v".to_string()])
        .unwrap();
    assert_eq!(set, "Storage set: k = v");
    let got = vm
        .call_contract("a", "get_storage", vec!["k".to_string()])
        .unwrap();
    assert_eq!(got, "v");
}

#[test]
fn storage_unwritten_key_reads_empty() {
    let mut vm = WasmVM::new(1000000);
    vm.deploy_contract("a".to_string(), magic_code()).unwrap();
    let got = vm
        .call_contract("a", "get_storage", vec!["nothing".to_string()])
        .unwrap();
    assert_eq!(got, "");
}

#[test]
fn storage_overwrite_keeps_last_value() {
    let mut vm = WasmVM::new(1000000);
    vm.deploy_contract("a".to_string(), magic_code()).unwrap();
    vm.call_contract("a", "set_storage", vec!["k".to_string(), "v1".to_string()])
        .unwrap();
    vm.call_contract("a", "set_storage", vec!["k".to_string(), "v2".to_string()])
        .unwrap();
    let got = vm
        .call_contract("a", "get_storage", vec!["k".to_string()])
        .unwrap();
    assert_eq!(got, "v2");
}

#[test]
fn set_storage_charges_base_plus_5000() {
    let mut vm = WasmVM::new(1000000);
    vm.deploy_contract("a".to_string(), magic_code()).unwrap();
    let before = vm.get_gas_used();
    vm.call_contract("a", "set_storage", vec!["k".to_string(), "v".to_string()])
        .unwrap();
    assert_eq!(vm.get_gas_used(), before + 8000);
}

#[test]
fn transfer_on_zero_balance_fails_and_balance_stays() {
    let mut vm = WasmVM::new(1000000);
    vm.deploy_contract("a".to_string(), magic_code()).unwrap();
    let r = vm.call_contract("a", "transfer", vec!["100".to_string()]);
    assert_eq!(r, Err(VmError::InsufficientBalance));
    assert_eq!(vm.get_contract("a").unwrap().balance, 0);
    // only the base charge was kept
    assert_eq!(vm.get_gas_used(), 24000);
}

#[test]
fn deposit_then_transfer_drains_balance() {
    let mut vm = WasmVM::new(1000000);
    vm.deploy_contract("a".to_string(), magic_code()).unwrap();
    vm.deposit("a", 100).unwrap();
    assert_eq!(vm.get_contract("a").unwrap().balance, 100);
    let r = vm.call_contract("a", "transfer", vec!["100".to_string()]).unwrap();
    assert_eq!(r, "Transferred: 100");
    assert_eq!(vm.get_contract("a").unwrap().balance, 0);
    // base charge plus the transfer charge
    assert_eq!(vm.get_gas_used(), 21000 + 3000 + 10000);
}

#[test]
fn transfer_accepts_plus_sign() {
    let mut vm = WasmVM::new(1000000);
    vm.deploy_contract("a".to_string(), magic_code()).unwrap();
    vm.deposit("a", 7).unwrap();
    let r = vm.call_contract("a", "transfer", vec!["+7".to_string()]).unwrap();
    assert_eq!(r, "Transferred: 7");
    assert_eq!(vm.get_contract("a").unwrap().balance, 0);
}

#[test]
fn malformed_transfer_amount_counts_as_zero() {
    let mut vm = WasmVM::new(1000000);
    vm.deploy_contract("a".to_string(), magic_code()).unwrap();
    vm.deposit("a", 5).unwrap();
    // not a number: the amount is treated as 0 and the transfer "succeeds"
    let r = vm.call_contract("a", "transfer", vec!["abc".to_string()]).unwrap();
    assert_eq!(r, "Transferred: 0");
    // an overflowing number is also treated as 0
    let r = vm
        .call_contract("a", "transfer", vec!["99999999999999999999999".to_string()])
        .unwrap();
    assert_eq!(r, "Transferred: 0");
    // an empty string too
    let r = vm.call_contract("a", "transfer", vec!["".to_string()]).unwrap();
    assert_eq!(r, "Transferred: 0");
    // a negative sign does not parse for an unsigned amount
    let r = vm.call_contract("a", "transfer", vec!["-3".to_string()]).unwrap();
    assert_eq!(r, "Transferred: 0");
    assert_eq!(vm.get_contract("a").unwrap().balance, 5);
}

#[test]
fn transfer_exact_u64_max_boundary() {
    let mut vm = WasmVM::new(1000000);
    vm.deploy_contract("a".to_string(), magic_code()).unwrap();
    vm.deposit("a", u64::MAX).unwrap();
    // u64::MAX itself still parses
    let r = vm
        .call_contract("a", "transfer", vec!["18446744073709551615".to_string()])
        .unwrap();
    assert_eq!(r, "Transferred: 18446744073709551615");
    assert_eq!(vm.get_contract("a").unwrap().balance, 0);
    // one more than u64::MAX overflows and counts as 0
    let r = vm
        .call_contract("a", "transfer", vec!["18446744073709551616".to_string()])
        .unwrap();
    assert_eq!(r, "Transferred: 0");
}

#[test]
fn missing_arguments_are_rejected() {
    let mut vm = WasmVM::new(1000000);
    vm.deploy_contract("a".to_string(), magic_code()).unwrap();
    assert_eq!(
        vm.call_contract("a", "get_storage", vec![]),
        Err(VmError::MissingArgument)
    );
    assert_eq!(
        vm.call_contract("a", "set_storage", vec!["k".to_string()]),
        Err(VmError::MissingArgument)
    );
    assert_eq!(
        vm.call_contract("a", "transfer", vec![]),
        Err(VmError::MissingArgument)
    );
    // each failed call still kept its base charge
    assert_eq!(vm.get_gas_used(), 21000 + 3 * 3000);
}

#[test]
fn calls_on_unknown_address_fail() {
    let mut vm = WasmVM::new(1000000);
    assert_eq!(
        vm.call_contract("ghost", "get_balance", vec![]),
        Err(VmError::ContractNotFound)
    );
    assert_eq!(vm.execute_wasm("ghost", &[1, 2, 3]), Err(VmError::ContractNotFound));
    assert_eq!(vm.deposit("ghost", 10), Err(VmError::ContractNotFound));
    // the failed call kept its base charge; execute and deposit charged nothing
    assert_eq!(vm.get_gas_used(), 3000);
}

#[test]
fn gas_is_monotonic_across_mixed_calls() {
    let mut vm = WasmVM::new(30000);
    let mut last = vm.get_gas_used();
    vm.deploy_contract("a".to_string(), magic_code()).unwrap();
    assert!(vm.get_gas_used() >= last);
    last = vm.get_gas_used();
    let _ = vm.call_contract("a", "transfer", vec![]);
    assert!(vm.get_gas_used() >= last);
    last = vm.get_gas_used();
    let _ = vm.call_contract("missing", "get_balance", vec![]);
    assert!(vm.get_gas_used() >= last);
    last = vm.get_gas_used();
    let _ = vm.call_contract("a", "get_balance", vec![]);
    assert!(vm.get_gas_used() >= last);
    last = vm.get_gas_used();
    let _ = vm.call_contract("a", "anything", vec![]);
    assert!(vm.get_gas_used() >= last);
}

#[test]
fn exhaustion_hits_at_base_charge_and_is_kept() {
    // 23999 < 21000 + 3000: the first call overshoots the ceiling
    let mut vm = WasmVM::new(23999);
    vm.deploy_contract("a".to_string(), magic_code()).unwrap();
    let r = vm.call_contract("a", "get_balance", vec![]);
    assert_eq!(r, Err(VmError::GasExhausted));
    // the overshooting charge is recorded, not rolled back
    assert_eq!(vm.get_gas_used(), 24000);
    // and every further call fails the same way, still charging
    let r = vm.call_contract("a", "set_storage", vec!["k".to_string(), "v".to_string()]);
    assert_eq!(r, Err(VmError::GasExhausted));
    assert_eq!(vm.get_gas_used(), 27000);
    assert!(vm.get_contract("a").is_some());
}

#[test]
fn deploy_is_not_gas_checked() {
    // deploys charge but never fail on the ceiling
    let mut vm = WasmVM::new(0);
    vm.deploy_contract("a".to_string(), magic_code()).unwrap();
    assert_eq!(vm.get_gas_used(), 21000);
    assert_eq!(
        vm.call_contract("a", "get_balance", vec![]),
        Err(VmError::GasExhausted)
    );
}

#[test]
fn unknown_method_reports_and_mutates_nothing() {
    let mut vm = WasmVM::new(1000000);
    vm.deploy_contract("a".to_string(), magic_code()).unwrap();
    vm.deposit("a", 9).unwrap();
    vm.call_contract("a", "set_storage", vec!["k".to_string(), "v".to_string()])
        .unwrap();
    let before = vm.get_gas_used();
    let r = vm
        .call_contract("a", "mint", vec!["x".to_string(), "y".to_string()])
        .unwrap();
    assert_eq!(r, "WASM method 'mint' executed with 2 args");
    assert_eq!(vm.get_gas_used(), before + 4000);
    let c = vm.get_contract("a").unwrap();
    assert_eq!(c.balance, 9);
    let got = vm.call_contract("a", "get_storage", vec!["k".to_string()]).unwrap();
    assert_eq!(got, "v");
}

#[test]
fn unknown_method_with_no_args() {
    let mut vm = WasmVM::new(1000000);
    vm.deploy_contract("a".to_string(), magic_code()).unwrap();
    let r = vm.call_contract("a", "run", vec![]).unwrap();
    assert_eq!(r, "WASM method 'run' executed with 0 args");
}

#[test]
fn execute_wasm_reports_input_length() {
    let mut vm = WasmVM::new(1000000);
    vm.deploy_contract("a".to_string(), magic_code()).unwrap();
    let before = vm.get_gas_used();
    let out = vm.execute_wasm("a", &[9, 9, 9, 9, 9]).unwrap();
    assert_eq!(out, b"WASM executed for 5 bytes input".to_vec());
    assert_eq!(vm.get_gas_used(), before + 10000);
    let out = vm.execute_wasm("a", &[]).unwrap();
    assert_eq!(out, b"WASM executed for 0 bytes input".to_vec());
}

#[test]
fn get_contract_snapshot_and_absence() {
    let mut vm = WasmVM::new(1000000);
    assert!(vm.get_contract("a").is_none());
    vm.deploy_contract("a".to_string(), magic_code()).unwrap();
    let c = vm.get_contract("a").unwrap();
    assert_eq!(c.address, "a");
    assert_eq!(c.code, magic_code());
    assert_eq!(c.balance, 0);
}

#[test]
fn deposits_accumulate_without_gas() {
    let mut vm = WasmVM::new(1000000);
    vm.deploy_contract("a".to_string(), magic_code()).unwrap();
    let before = vm.get_gas_used();
    vm.deposit("a", 40).unwrap();
    vm.deposit("a", 2).unwrap();
    assert_eq!(vm.get_contract("a").unwrap().balance, 42);
    assert_eq!(vm.get_gas_used(), before);
}

#[test]
fn two_contracts_have_separate_state() {
    let mut vm = WasmVM::new(1000000);
    vm.deploy_contract("a".to_string(), magic_code()).unwrap();
    vm.deploy_contract("b".to_string(), magic_code()).unwrap();
    vm.deposit("a", 10).unwrap();
    vm.call_contract("a", "set_storage", vec!["k".to_string(), "va".to_string()])
        .unwrap();
    assert_eq!(vm.get_contract("b").unwrap().balance, 0);
    let got = vm.call_contract("b", "get_storage", vec!["k".to_string()]).unwrap();
    assert_eq!(got, "");
    assert_eq!(vm.call_contract("a", "get_balance", vec![]).unwrap(), "10");
}

#[test]
fn decimal_rendering_is_exact() {
    assert_eq!(wasm_vm::u64_to_string(0), "0");
    assert_eq!(wasm_vm::u64_to_string(7), "7");
    assert_eq!(wasm_vm::u64_to_string(1234567890), "1234567890");
    assert_eq!(wasm_vm::u64_to_string(u64::MAX), "18446744073709551615");
}

#[test]
fn set_storage_charge_can_cross_ceiling_write_kept() {
    // 28999 < 21000 + 3000 + 5000: the storage charge crosses the ceiling
    let mut vm = WasmVM::new(28999);
    vm.deploy_contract("a".to_string(), magic_code()).unwrap();
    let r = vm.call_contract("a", "set_storage", vec!["k".to_string(), "v".to_string()]);
    assert_eq!(r, Err(VmError::GasExhausted));
    // the write and the full charge stay in place
    assert_eq!(vm.get_gas_used(), 29000);
    let c = vm.get_contract("a").unwrap();
    assert_eq!(c.storage.get("k"), Some(&"v".to_string()));
}

#[test]
fn transfer_charge_can_cross_ceiling_decrement_kept() {
    // 33999 < 21000 + 3000 + 10000: the transfer charge crosses the ceiling
    let mut vm = WasmVM::new(33999);
    vm.deploy_contract("a".to_string(), magic_code()).unwrap();
    vm.deposit("a", 50).unwrap();
    let r = vm.call_contract("a", "transfer", vec!["30".to_string()]);
    assert_eq!(r, Err(VmError::GasExhausted));
    // the decrement and the full charge stay in place
    assert_eq!(vm.get_gas_used(), 34000);
    assert_eq!(vm.get_contract("a").unwrap().balance, 20);
}

#[test]
fn fallback_charge_can_cross_ceiling() {
    // 24999 < 21000 + 3000 + 1000: the fallback charge crosses the ceiling
    let mut vm = WasmVM::new(24999);
    vm.deploy_contract("a".to_string(), magic_code()).unwrap();
    let r = vm.call_contract("a", "noop", vec![]);
    assert_eq!(r, Err(VmError::GasExhausted));
    assert_eq!(vm.get_gas_used(), 25000);
}
