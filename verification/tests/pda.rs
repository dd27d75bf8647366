use anchor_lang::prelude::Pubkey as HostKey;
use casino_escrow::pda::{find_vault_address, is_derived};
use casino_escrow::pubkey::Pubkey;

#[test]
fn pda_vault_address_is_the_hosts_derivation() {
    for seed in [0u8, 1, 7, 200, 255] {
        let program = [seed; 32];
        let (address, bump) = find_vault_address(&Pubkey::new_from_array(program)).expect("an address is found");
        let (expected, expected_bump) = HostKey::find_program_address(&[b"vault"], &HostKey::new_from_array(program));
        assert_eq!(address.bytes, expected.to_bytes());
        assert_eq!(bump, expected_bump);
        assert_ne!(address.bytes, program);
    }
}

#[test]
fn pda_vault_address_differs_between_programs() {
    let (a, _) = find_vault_address(&Pubkey::new_from_array([1; 32])).expect("an address is found");
    let (b, _) = find_vault_address(&Pubkey::new_from_array([2; 32])).expect("an address is found");
    assert!(a != b);
}

#[test]
fn pda_is_derived_compares_with_the_derived_address() {
    let key = Pubkey::new_from_array([4; 32]);
    let other = Pubkey::new_from_array([5; 32]);
    assert!(is_derived(&Some(key), &key));
    assert!(!is_derived(&Some(key), &other));
    assert!(!is_derived(&None, &key));
}
