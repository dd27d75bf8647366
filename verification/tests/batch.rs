use anchor_lang::prelude::Pubkey as HostKey;
use anchor_lang::solana_program::sysvar::instructions::{
    construct_instructions_data, store_current_index, BorrowedInstruction,
};
use anchor_lang::solana_program::{ed25519_program, system_program};
use casino_escrow::batch::{
    ed25519_program_key, extract_signed, find_ed25519, is_made_with, read_u16, BatchInstruction,
};
use casino_escrow::pubkey::Pubkey;

fn batch(instructions: &[(HostKey, Vec<u8>)], current: u16) -> Vec<u8> {
    let borrowed: Vec<BorrowedInstruction> = instructions
        .iter()
        .map(|(program_id, data)| BorrowedInstruction { program_id, accounts: Vec::new(), data })
        .collect();
    let mut bytes = construct_instructions_data(&borrowed);
    store_current_index(&mut bytes, current);
    bytes
}

fn signature(pubkey: &[u8; 32], msg: &[u8]) -> Vec<u8> {
    let mut d = vec![1u8, 0];
    for v in [48u16, u16::MAX, 16, u16::MAX, 112, msg.len() as u16, u16::MAX] {
        d.extend_from_slice(&v.to_le_bytes());
    }
    d.extend_from_slice(pubkey);
    d.extend_from_slice(&[0u8; 64]);
    d.extend_from_slice(msg);
    d
}

#[test]
fn batch_finds_the_signature_check_at_the_hint() {
    let data = batch(
        &[(system_program::id(), vec![1, 2, 3]), (ed25519_program::id(), vec![9, 8, 7]), (system_program::id(), vec![])],
        2,
    );
    let found = find_ed25519(&data, 1).expect("a signature check stands at the hint");
    assert_eq!(found.program_id.bytes, ed25519_program::id().to_bytes());
    assert_eq!(found.data, vec![9, 8, 7]);
}

#[test]
fn batch_takes_the_hinted_check_even_after_the_running_operation() {
    let data = batch(&[(system_program::id(), vec![1]), (ed25519_program::id(), vec![5])], 0);
    let found = find_ed25519(&data, 1).expect("the hint is taken as it is");
    assert_eq!(found.data, vec![5]);
}

#[test]
fn batch_falls_back_to_a_scan_of_the_preceding_operations() {
    let data = batch(
        &[
            (system_program::id(), vec![1]),
            (ed25519_program::id(), vec![10]),
            (ed25519_program::id(), vec![20]),
            (system_program::id(), vec![]),
        ],
        3,
    );
    let found = find_ed25519(&data, 0).expect("the scan finds the first check");
    assert_eq!(found.data, vec![10]);
    let found = find_ed25519(&data, 200).expect("a hint out of range falls back to the scan");
    assert_eq!(found.data, vec![10]);
}

#[test]
fn batch_scan_stops_before_the_running_operation() {
    let data = batch(&[(system_program::id(), vec![1]), (system_program::id(), vec![2]), (ed25519_program::id(), vec![3])], 2);
    assert!(find_ed25519(&data, 0).is_none());
    let data = batch(&[(system_program::id(), vec![1]), (system_program::id(), vec![2]), (ed25519_program::id(), vec![3])], 3);
    assert_eq!(find_ed25519(&data, 0).map(|ix| ix.data), Some(vec![3]));
}

#[test]
fn batch_without_a_signature_check_has_none() {
    let data = batch(&[(system_program::id(), vec![1]), (HostKey::new_from_array([7; 32]), vec![2])], 2);
    assert!(find_ed25519(&data, 0).is_none());
    assert!(find_ed25519(&data, 1).is_none());
    assert!(find_ed25519(&data, 2).is_none());
    let empty = batch(&[], 0);
    assert!(find_ed25519(&empty, 0).is_none());
}

#[test]
fn batch_data_too_short_to_read_has_none() {
    assert!(find_ed25519(&vec![], 0).is_none());
    assert!(find_ed25519(&vec![1], 0).is_none());
    assert!(find_ed25519(&vec![0, 0], 0).is_none());
    assert!(find_ed25519(&vec![3, 0, 9, 9, 9, 9, 9, 9, 2, 0], 1).is_none());
}

#[test]
fn batch_read_u16_is_little_endian() {
    let d = vec![0x34u8, 0x12, 0xff, 0xff];
    assert_eq!(read_u16(&d, 0), Some(0x1234));
    assert_eq!(read_u16(&d, 1), Some(0xff12));
    assert_eq!(read_u16(&d, 2), Some(0xffff));
    assert_eq!(read_u16(&d, 3), None);
    assert_eq!(read_u16(&d, 4), None);
    assert_eq!(read_u16(&d, usize::MAX), None);
    assert_eq!(read_u16(&vec![1], 0), None);
}

#[test]
fn batch_extract_signed_reads_message_and_key() {
    let key = [3u8; 32];
    let ix = BatchInstruction { program_id: Pubkey::new_from_array([0; 32]), data: signature(&key, b"hello") };
    let (msg, pubkey) = extract_signed(&ix).expect("the layout is the expected one");
    assert_eq!(msg, b"hello".to_vec());
    assert_eq!(pubkey, key.to_vec());
}

#[test]
fn batch_extract_signed_reads_an_empty_message() {
    let key = [3u8; 32];
    let ix = BatchInstruction { program_id: Pubkey::new_from_array([0; 32]), data: signature(&key, b"") };
    let (msg, pubkey) = extract_signed(&ix).expect("the layout is the expected one");
    assert_eq!(msg, Vec::<u8>::new());
    assert_eq!(pubkey, key.to_vec());
}

#[test]
fn batch_extract_signed_refuses_a_bad_layout() {
    let key = [3u8; 32];
    let good = signature(&key, b"hello");
    let refuse = |data: Vec<u8>| {
        let ix = BatchInstruction { program_id: Pubkey::new_from_array([0; 32]), data };
        assert!(extract_signed(&ix).is_none());
    };
    refuse(vec![]);
    refuse(good[..15].to_vec());
    let mut two = good.clone();
    two[0] = 2;
    refuse(two);
    let mut none = good.clone();
    none[0] = 0;
    refuse(none);
    let mut key_out = good.clone();
    key_out[6..8].copy_from_slice(&((good.len() - 31) as u16).to_le_bytes());
    refuse(key_out);
    let mut msg_out = good.clone();
    msg_out[12..14].copy_from_slice(&6u16.to_le_bytes());
    refuse(msg_out);
    refuse(good[..116].to_vec());
}

#[test]
fn batch_extract_signed_accepts_fields_that_end_with_the_data() {
    let key = [3u8; 32];
    let good = signature(&key, b"hello");
    let mut key_last = good.clone();
    key_last[6..8].copy_from_slice(&((good.len() - 32) as u16).to_le_bytes());
    let ix = BatchInstruction { program_id: Pubkey::new_from_array([0; 32]), data: key_last.clone() };
    let (_, pubkey) = extract_signed(&ix).expect("a key that ends with the data lies within it");
    assert_eq!(pubkey, key_last[key_last.len() - 32..].to_vec());
}

#[test]
fn batch_signature_program_is_the_hosts() {
    assert_eq!(ed25519_program_key().bytes, ed25519_program::id().to_bytes());
    assert_ne!(ed25519_program_key().bytes, system_program::id().to_bytes());
}

#[test]
fn batch_is_made_with_compares_the_key_of_the_check() {
    let admin = [5u8; 32];
    let other = [6u8; 32];
    let data = batch(&[(ed25519_program::id(), signature(&admin, b"m")), (system_program::id(), vec![])], 1);
    assert!(is_made_with(&find_ed25519(&data, 0), &admin));
    assert!(!is_made_with(&find_ed25519(&data, 0), &other));
    assert!(is_made_with(&find_ed25519(&data, 9), &admin));
    assert!(!is_made_with(&None, &admin));
}

#[test]
fn batch_is_made_with_looks_only_at_the_check_that_was_picked() {
    let admin = [5u8; 32];
    let other = [6u8; 32];
    let data = batch(
        &[
            (ed25519_program::id(), signature(&other, b"m")),
            (ed25519_program::id(), signature(&admin, b"m")),
            (system_program::id(), vec![]),
        ],
        2,
    );
    assert!(is_made_with(&find_ed25519(&data, 1), &admin));
    assert!(!is_made_with(&find_ed25519(&data, 0), &admin));
    assert!(!is_made_with(&find_ed25519(&data, 7), &admin));
    assert!(is_made_with(&find_ed25519(&data, 7), &other));
}

#[test]
fn batch_is_made_with_refuses_a_missing_or_malformed_check() {
    let admin = [5u8; 32];
    let none = batch(&[(system_program::id(), signature(&admin, b"m"))], 1);
    assert!(!is_made_with(&find_ed25519(&none, 0), &admin));
    let malformed = batch(&[(ed25519_program::id(), vec![1, 0, 0])], 1);
    assert!(find_ed25519(&malformed, 0).is_some());
    assert!(!is_made_with(&find_ed25519(&malformed, 0), &admin));
}
