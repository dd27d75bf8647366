use anchor_lang::prelude::Pubkey as HostKey;
use anchor_lang::solana_program::sysvar::instructions::{
    construct_instructions_data, store_current_index, BorrowedInstruction,
};
use anchor_lang::solana_program::{ed25519_program, system_program};
use casino_escrow::batch::BatchInstruction;
use casino_escrow::ledger::{Account, Failure, Signer, SystemAccount, SystemError};
use casino_escrow::plinko::{
    build_canonical_msg, check_authorization, extract_ed25519_msg_and_pubkey, init_admin, init_vault, lock, rd_u16,
    resolve, resolve_with_check, AdminConfig, InitAdmin, InitVault, Lock, LockArgs, PendingRound, PlinkoError, PlinkoLocked,
    PlinkoResolved, Resolve, ResolveArgs, MAX_BALLS, MAX_BET_LAMPORTS, MAX_PAYOUT_LAMPORTS, MAX_ROWS,
    MIN_BET_LAMPORTS, MIN_ROWS,
};
use casino_escrow::pubkey::Pubkey;

const ADMIN: [u8; 32] = [42; 32];

fn key(n: u8) -> Pubkey {
    Pubkey::new_from_array([n; 32])
}

fn batch(instructions: &[(HostKey, Vec<u8>)], current: u16) -> Vec<u8> {
    let borrowed: Vec<BorrowedInstruction> = instructions
        .iter()
        .map(|(program_id, data)| BorrowedInstruction { program_id, accounts: Vec::new(), data })
        .collect();
    let mut bytes = construct_instructions_data(&borrowed);
    store_current_index(&mut bytes, current);
    bytes
}

fn signature(pubkey: &[u8; 32], msg: &[u8]) -> Vec<u8> {
    let mut d = vec![1u8, 0];
    for v in [48u16, u16::MAX, 16, u16::MAX, 112, msg.len() as u16, u16::MAX] {
        d.extend_from_slice(&v.to_le_bytes());
    }
    d.extend_from_slice(pubkey);
    d.extend_from_slice(&[0u8; 64]);
    d.extend_from_slice(msg);
    d
}

fn round() -> PendingRound {
    PendingRound {
        player: key(1),
        unit_amount: 100_000,
        balls: 3,
        rows: 12,
        difficulty: 4,
        nonce: 77,
        expiry_unix: 1_000,
        settled: false,
    }
}

fn message(round: &PendingRound, payout: u64) -> Vec<u8> {
    let mut m = b"PLINKO_V1".to_vec();
    m.extend_from_slice(&[10u8; 32]);
    m.extend_from_slice(&[2u8; 32]);
    m.extend_from_slice(&[1u8; 32]);
    m.extend_from_slice(&[3u8; 32]);
    m.extend_from_slice(&round.unit_amount.to_le_bytes());
    m.extend_from_slice(&(round.balls as u32).to_le_bytes());
    m.push(round.rows);
    m.push(round.difficulty);
    m.extend_from_slice(&payout.to_le_bytes());
    m.extend_from_slice(&round.nonce.to_le_bytes());
    m.extend_from_slice(&round.expiry_unix.to_le_bytes());
    m
}

fn signed_with(pubkey: &[u8; 32], msg: &[u8]) -> Vec<u8> {
    batch(&[(ed25519_program::id(), signature(pubkey, msg)), (system_program::id(), vec![])], 1)
}

fn fresh_lock() -> Lock {
    Lock {
        player: Signer { key: key(1), lamports: 10_000_000 },
        vault: SystemAccount { key: key(2), lamports: 500 },
        pending_round: Account {
            key: key(3),
            lamports: 1_500,
            data: PendingRound {
                player: key(0),
                unit_amount: 0,
                balls: 0,
                rows: 0,
                difficulty: 0,
                nonce: 0,
                expiry_unix: 0,
                settled: true,
            },
        },
    }
}

fn lock_args(unit_amount: u64, balls: u16, rows: u8, difficulty: u8) -> LockArgs {
    LockArgs { unit_amount, balls, rows, difficulty, nonce: 77, expiry_unix: 1_000 }
}

fn open_resolve(payout: u64) -> Resolve {
    Resolve {
        program_id: key(10),
        player: SystemAccount { key: key(1), lamports: 100 },
        vault: SystemAccount { key: key(2), lamports: 900_000_000_000_000 },
        admin_config: Account { key: key(4), lamports: 10, data: AdminConfig { admin_pubkey: ADMIN } },
        pending_round: Account { key: key(3), lamports: 1_500, data: round() },
        sysvar_instructions: signed_with(&ADMIN, &message(&round(), payout)),
    }
}

fn args(payout: u64) -> ResolveArgs {
    ResolveArgs { checksum: 9, payout, ed25519_instr_index: 0 }
}

#[test]
fn plinko_init_admin_records_the_key() {
    let mut ctx = InitAdmin {
        authority: Signer { key: key(9), lamports: 5 },
        admin_config: Account { key: key(4), lamports: 10, data: AdminConfig { admin_pubkey: [0; 32] } },
    };
    assert_eq!(init_admin(&mut ctx, ADMIN), Ok(()));
    assert_eq!(ctx.admin_config.data.admin_pubkey, ADMIN);
}

#[test]
fn plinko_init_vault_opens_the_vault_once() {
    let mut ctx =
        InitVault { payer: Signer { key: key(9), lamports: 1_000_000 }, vault: SystemAccount { key: key(2), lamports: 0 } };
    assert_eq!(init_vault(&mut ctx, 890_880), Ok(()));
    assert_eq!((ctx.payer.lamports, ctx.vault.lamports), (1_000_000 - 890_880, 890_880));
    let before = ctx;
    assert_eq!(init_vault(&mut ctx, 1), Err(Failure::System(SystemError::AccountAlreadyInUse)));
    assert_eq!(ctx, before);
    let mut ctx = InitVault { payer: Signer { key: key(9), lamports: 0 }, vault: SystemAccount { key: key(2), lamports: 0 } };
    assert_eq!(init_vault(&mut ctx, 0), Err(Failure::System(SystemError::ResultWithNegativeLamports)));
}

#[test]
fn plinko_lock_moves_the_stake_of_all_balls() {
    let mut ctx = fresh_lock();
    let event = lock(&mut ctx, lock_args(100_000, 3, 12, 4));
    assert_eq!(
        event,
        Ok(PlinkoLocked { player: key(1), unit_amount: 100_000, balls: 3, rows: 12, difficulty: 4, nonce: 77 })
    );
    assert_eq!(ctx.vault.lamports, 500 + 300_000);
    assert_eq!(ctx.player.lamports, 10_000_000 - 300_000);
    assert_eq!(ctx.pending_round.data, round());
    assert_eq!(ctx.pending_round.lamports, 1_500);
}

#[test]
fn plinko_lock_refuses_terms_out_of_their_domains() {
    for bad in [
        lock_args(100_000, 3, MIN_ROWS - 1, 0),
        lock_args(100_000, 3, MAX_ROWS + 1, 0),
        lock_args(100_000, 3, 12, 5),
        lock_args(100_000, 0, 12, 0),
        lock_args(100_000, MAX_BALLS + 1, 12, 0),
        lock_args(MIN_BET_LAMPORTS - 1, 3, 12, 0),
        lock_args(0, 3, 12, 0),
        lock_args(MAX_BET_LAMPORTS + 1, 1, 12, 0),
        lock_args(MAX_BET_LAMPORTS / 2 + 1, 2, 12, 0),
        lock_args(u64::MAX, MAX_BALLS, 12, 0),
    ] {
        let mut ctx = fresh_lock();
        ctx.player.lamports = u64::MAX - 500;
        let before = ctx;
        assert_eq!(lock(&mut ctx, bad), Err(Failure::Program(PlinkoError::BadParams)));
        assert_eq!(ctx, before);
    }
}

#[test]
fn plinko_lock_accepts_the_bounds_of_the_terms() {
    for good in [
        lock_args(MIN_BET_LAMPORTS, 1, MIN_ROWS, 0),
        lock_args(MIN_BET_LAMPORTS, MAX_BALLS, MAX_ROWS, 4),
        lock_args(MAX_BET_LAMPORTS, 1, 8, 0),
        lock_args(MAX_BET_LAMPORTS / 10_000, MAX_BALLS, 16, 2),
    ] {
        let mut ctx = fresh_lock();
        ctx.player.lamports = MAX_BET_LAMPORTS;
        assert!(lock(&mut ctx, good).is_ok());
        assert_eq!(ctx.player.lamports, MAX_BET_LAMPORTS - good.unit_amount * good.balls as u64);
        assert_eq!(ctx.vault.lamports, 500 + good.unit_amount * good.balls as u64);
    }
}

#[test]
fn plinko_lock_refuses_a_player_who_is_short() {
    let mut ctx = fresh_lock();
    ctx.player.lamports = 299_999;
    let before = ctx;
    assert_eq!(lock(&mut ctx, lock_args(100_000, 3, 12, 4)), Err(Failure::System(SystemError::ResultWithNegativeLamports)));
    assert_eq!(ctx, before);
}

#[test]
fn plinko_rd_u16_is_little_endian() {
    let d = vec![0x34u8, 0x12, 0xff];
    assert_eq!(rd_u16(&d, 0), Ok(0x1234));
    assert_eq!(rd_u16(&d, 1), Ok(0xff12));
    assert_eq!(rd_u16(&d, 2), Err(PlinkoError::InvalidEd25519));
    assert_eq!(rd_u16(&d, 3), Err(PlinkoError::InvalidEd25519));
    assert_eq!(rd_u16(&vec![], 0), Err(PlinkoError::InvalidEd25519));
}

#[test]
fn plinko_extract_reads_message_and_key() {
    let ix = BatchInstruction { program_id: key(0), data: signature(&ADMIN, b"signed") };
    assert_eq!(extract_ed25519_msg_and_pubkey(&ix), Ok((b"signed".to_vec(), ADMIN.to_vec())));
    let ix = BatchInstruction { program_id: key(0), data: vec![1, 0, 0] };
    assert_eq!(extract_ed25519_msg_and_pubkey(&ix), Err(PlinkoError::InvalidEd25519));
    let mut two = signature(&ADMIN, b"signed");
    two[0] = 2;
    let ix = BatchInstruction { program_id: key(0), data: two };
    assert_eq!(extract_ed25519_msg_and_pubkey(&ix), Err(PlinkoError::InvalidEd25519));
}

#[test]
fn plinko_canonical_message_has_the_fixed_layout() {
    let msg = build_canonical_msg(&key(10), &key(2), &key(1), &key(3), &round(), 250_000);
    assert_eq!(msg.len(), 9 + 4 * 32 + 8 + 4 + 1 + 1 + 8 + 8 + 8);
    assert_eq!(msg, message(&round(), 250_000));
    assert_eq!(&msg[..9], b"PLINKO_V1");
    assert_eq!(&msg[137..145], &[0xa0, 0x86, 0x01, 0, 0, 0, 0, 0]);
    assert_eq!(&msg[145..149], &[3, 0, 0, 0]);
    assert_eq!(msg[149], 12);
    assert_eq!(msg[150], 4);
    assert_eq!(&msg[151..159], &[0x90, 0xd0, 0x03, 0, 0, 0, 0, 0]);
    assert_eq!(&msg[159..167], &[77, 0, 0, 0, 0, 0, 0, 0]);
    assert_eq!(&msg[167..175], &[0xe8, 0x03, 0, 0, 0, 0, 0, 0]);
}

#[test]
fn plinko_canonical_message_encodes_a_negative_deadline() {
    let record = PendingRound { expiry_unix: -2, balls: u16::MAX, ..round() };
    let msg = build_canonical_msg(&key(10), &key(2), &key(1), &key(3), &record, u64::MAX);
    assert_eq!(msg, message(&record, u64::MAX));
    assert_eq!(&msg[145..149], &[0xff, 0xff, 0, 0]);
    assert_eq!(&msg[167..175], &[0xfe, 0xff, 0xff, 0xff, 0xff, 0xff, 0xff, 0xff]);
}

#[test]
fn plinko_canonical_message_changes_with_every_field() {
    let base = build_canonical_msg(&key(10), &key(2), &key(1), &key(3), &round(), 250_000);
    assert_ne!(build_canonical_msg(&key(11), &key(2), &key(1), &key(3), &round(), 250_000), base);
    assert_ne!(build_canonical_msg(&key(10), &key(9), &key(1), &key(3), &round(), 250_000), base);
    assert_ne!(build_canonical_msg(&key(10), &key(2), &key(9), &key(3), &round(), 250_000), base);
    assert_ne!(build_canonical_msg(&key(10), &key(2), &key(1), &key(9), &round(), 250_000), base);
    assert_ne!(build_canonical_msg(&key(10), &key(2), &key(1), &key(3), &round(), 250_001), base);
    for other in [
        PendingRound { unit_amount: 100_001, ..round() },
        PendingRound { balls: 4, ..round() },
        PendingRound { rows: 13, ..round() },
        PendingRound { difficulty: 3, ..round() },
        PendingRound { nonce: 78, ..round() },
        PendingRound { expiry_unix: 1_001, ..round() },
    ] {
        assert_ne!(build_canonical_msg(&key(10), &key(2), &key(1), &key(3), &other, 250_000), base);
    }
}

#[test]
fn plinko_resolve_pays_stake_and_payout() {
    let mut ctx = open_resolve(250_000);
    let check = Some(BatchInstruction { program_id: key(0), data: signature(&ADMIN, &message(&round(), 250_000)) });
    assert!(check_authorization(&ctx, &args(250_000), &check));
    assert!(!check_authorization(&ctx, &args(250_000), &None));
    let event = resolve(&mut ctx, args(250_000), 999);
    assert_eq!(event, Ok(PlinkoResolved { player: key(1), payout: 250_000, nonce: 77 }));
    assert_eq!(ctx.vault.lamports, 900_000_000_000_000 - 300_000 - 250_000);
    assert_eq!(ctx.player.lamports, 100 + 300_000 + 250_000 + 1_500);
    assert_eq!(ctx.pending_round.lamports, 0);
    assert_eq!(ctx.pending_round.data, PendingRound { settled: true, ..round() });
}

#[test]
fn plinko_resolve_without_a_payout_returns_the_stake() {
    let mut ctx = open_resolve(0);
    assert!(resolve(&mut ctx, args(0), 999).is_ok());
    assert_eq!(ctx.vault.lamports, 900_000_000_000_000 - 300_000);
    assert_eq!(ctx.player.lamports, 100 + 300_000 + 1_500);
}

#[test]
fn plinko_resolve_refuses_a_payout_that_was_not_signed() {
    let mut ctx = open_resolve(250_000);
    let before = ctx.clone();
    let check = Some(BatchInstruction { program_id: key(0), data: signature(&ADMIN, &message(&round(), 250_000)) });
    assert!(!check_authorization(&ctx, &args(250_001), &check));
    assert_eq!(resolve(&mut ctx, args(250_001), 999), Err(Failure::Program(PlinkoError::InvalidEd25519)));
    assert_eq!(resolve(&mut ctx, args(0), 999), Err(Failure::Program(PlinkoError::InvalidEd25519)));
    assert_eq!(ctx, before);
}

#[test]
fn plinko_resolve_refuses_a_signature_for_other_accounts() {
    for change in 0..4 {
        let mut ctx = open_resolve(250_000);
        match change {
            0 => ctx.program_id = key(90),
            1 => ctx.vault.key = key(90),
            2 => ctx.player.key = key(90),
            _ => ctx.pending_round.key = key(90),
        }
        let before = ctx.clone();
        assert_eq!(resolve(&mut ctx, args(250_000), 999), Err(Failure::Program(PlinkoError::InvalidEd25519)));
        assert_eq!(ctx, before);
    }
}

#[test]
fn plinko_resolve_signed_with_another_key_is_refused() {
    let mut ctx = open_resolve(250_000);
    ctx.sysvar_instructions = signed_with(&[43; 32], &message(&round(), 250_000));
    let before = ctx.clone();
    assert_eq!(resolve(&mut ctx, args(250_000), 999), Err(Failure::Program(PlinkoError::InvalidEd25519)));
    assert_eq!(ctx, before);
}

#[test]
fn plinko_resolve_without_a_signature_check_is_refused() {
    let mut ctx = open_resolve(250_000);
    ctx.sysvar_instructions = batch(&[(system_program::id(), signature(&ADMIN, &message(&round(), 250_000)))], 1);
    assert_eq!(resolve(&mut ctx, args(250_000), 999), Err(Failure::Program(PlinkoError::InvalidEd25519)));
    ctx.sysvar_instructions = batch(&[(ed25519_program::id(), vec![1, 2, 3])], 1);
    assert_eq!(resolve(&mut ctx, args(250_000), 999), Err(Failure::Program(PlinkoError::InvalidEd25519)));
    ctx.sysvar_instructions = vec![];
    assert_eq!(resolve(&mut ctx, args(250_000), 999), Err(Failure::Program(PlinkoError::InvalidEd25519)));
}

#[test]
fn plinko_resolve_with_check_goes_by_what_it_is_given() {
    let mut ctx = open_resolve(250_000);
    ctx.sysvar_instructions = vec![];
    let before = ctx.clone();
    assert_eq!(resolve_with_check(&mut ctx, args(250_000), 999, None), Err(Failure::Program(PlinkoError::InvalidEd25519)));
    let other = BatchInstruction { program_id: key(0), data: signature(&ADMIN, &message(&round(), 250_001)) };
    assert_eq!(
        resolve_with_check(&mut ctx, args(250_000), 999, Some(other)),
        Err(Failure::Program(PlinkoError::InvalidEd25519))
    );
    assert_eq!(ctx, before);
    let own = BatchInstruction { program_id: key(0), data: signature(&ADMIN, &message(&round(), 250_000)) };
    assert!(resolve_with_check(&mut ctx, args(250_000), 999, Some(own)).is_ok());
    assert_eq!(ctx.vault.lamports, 900_000_000_000_000 - 300_000 - 250_000);
}

#[test]
fn plinko_resolve_twice_fails_the_second_time() {
    let mut ctx = open_resolve(250_000);
    assert!(resolve(&mut ctx, args(250_000), 999).is_ok());
    let after_first = ctx.clone();
    assert_eq!(resolve(&mut ctx, args(250_000), 999), Err(Failure::Program(PlinkoError::AlreadySettled)));
    assert_eq!(resolve(&mut ctx, args(1), 5_000), Err(Failure::Program(PlinkoError::AlreadySettled)));
    assert_eq!(ctx, after_first);
}

#[test]
fn plinko_resolve_after_the_deadline_is_expired() {
    let mut ctx = open_resolve(250_000);
    let before = ctx.clone();
    assert_eq!(resolve(&mut ctx, args(250_000), 1_001), Err(Failure::Program(PlinkoError::Expired)));
    assert_eq!(ctx, before);
    assert!(resolve(&mut ctx, args(250_000), 1_000).is_ok());
}

#[test]
fn plinko_resolve_holds_the_payout_to_the_cap() {
    let mut ctx = open_resolve(MAX_PAYOUT_LAMPORTS + 1);
    let before = ctx.clone();
    assert_eq!(resolve(&mut ctx, args(MAX_PAYOUT_LAMPORTS + 1), 999), Err(Failure::Program(PlinkoError::BadPayout)));
    assert_eq!(ctx, before);
    let mut ctx = open_resolve(MAX_PAYOUT_LAMPORTS);
    assert!(resolve(&mut ctx, args(MAX_PAYOUT_LAMPORTS), 999).is_ok());
    assert_eq!(ctx.vault.lamports, 900_000_000_000_000 - 300_000 - MAX_PAYOUT_LAMPORTS);
}

#[test]
fn plinko_resolve_refuses_a_stake_that_no_balance_holds() {
    let mut ctx = open_resolve(0);
    ctx.pending_round.data.unit_amount = u64::MAX;
    ctx.sysvar_instructions = signed_with(&ADMIN, &message(&ctx.pending_round.data, 0));
    ctx.vault.lamports = 1_000;
    let before = ctx.clone();
    assert_eq!(resolve(&mut ctx, args(0), 999), Err(Failure::Program(PlinkoError::BadPayout)));
    assert_eq!(ctx, before);
}

#[test]
fn plinko_resolve_refuses_a_vault_that_is_short() {
    let mut ctx = open_resolve(250_000);
    ctx.vault.lamports = 549_999;
    let before = ctx.clone();
    assert_eq!(resolve(&mut ctx, args(250_000), 999), Err(Failure::System(SystemError::ResultWithNegativeLamports)));
    assert_eq!(ctx, before);
    ctx.vault.lamports = 550_000;
    assert!(resolve(&mut ctx, args(250_000), 999).is_ok());
    assert_eq!(ctx.vault.lamports, 0);
}

#[test]
fn plinko_round_survives_serialization() {
    for record in [
        round(),
        PendingRound {
            player: key(255),
            unit_amount: u64::MAX,
            balls: u16::MAX,
            rows: 255,
            difficulty: 254,
            nonce: u64::MAX,
            expiry_unix: i64::MAX,
            settled: true,
        },
        PendingRound { player: key(0), unit_amount: 0, balls: 0, rows: 0, difficulty: 0, nonce: 0, expiry_unix: i64::MIN, settled: false },
        PendingRound { balls: 0x0102, ..round() },
    ] {
        let bytes = record.to_bytes();
        assert_eq!(bytes.len() + 8, PendingRound::LEN);
        assert_eq!(PendingRound::from_bytes(&bytes), Some(record));
    }
    let bytes = PendingRound { balls: 0x0102, ..round() }.to_bytes();
    assert_eq!(&bytes[40..42], &[2, 1]);
}
