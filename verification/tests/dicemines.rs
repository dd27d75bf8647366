use anchor_lang::prelude::Pubkey as HostKey;
use anchor_lang::solana_program::sysvar::instructions::{
    construct_instructions_data, store_current_index, BorrowedInstruction,
};
use anchor_lang::solana_program::{ed25519_program, system_program};
use casino_escrow::dicemines::{
    activate_user_vault, deposit_to_vault, dice_lock, dice_lock_with_check, dice_resolve,
    dice_resolve_with_check, init_admin, init_house_vault, mines_lock, mines_lock_with_check, mines_resolve,
    mines_resolve_with_check, require_ed25519_present, safe_move_lamports, withdraw_from_vault, ActivateArgs,
    ActivateUserVault, AdminConfig, CasinoErr, DepositArgs, DepositToVault, DiceLock, DiceLockArgs, DiceLocked,
    DiceResolve, DiceResolveArgs, DiceResolved, InitAdmin, InitHouseVault, MinesLock, MinesLockArgs,
    MinesLocked, MinesResolve, MinesResolveArgs, MinesResolved, PendingBet, PendingRound, UserVault,
    WithdrawArgs, WithdrawFromVault, FEE_REIMBURSE_LAMPORTS, MAX_BET_LAMPORTS, MAX_PAYOUT_LAMPORTS,
    MIN_BET_LAMPORTS,
};
use casino_escrow::batch::BatchInstruction;
use casino_escrow::ledger::{Account, Failure, Signer, SystemAccount, SystemError};
use casino_escrow::pubkey::Pubkey;

const ADMIN: [u8; 32] = [42; 32];
const FEE: u64 = 1_400_000;

fn key(n: u8) -> Pubkey {
    Pubkey::new_from_array([n; 32])
}

fn batch(instructions: &[(HostKey, Vec<u8>)], current: u16) -> Vec<u8> {
    let borrowed: Vec<BorrowedInstruction> = instructions
        .iter()
        .map(|(program_id, data)| BorrowedInstruction { program_id, accounts: Vec::new(), data })
        .collect();
    let mut bytes = construct_instructions_data(&borrowed);
    store_current_index(&mut bytes, current);
    bytes
}

fn signature(pubkey: &[u8; 32], msg: &[u8]) -> Vec<u8> {
    let mut d = vec![1u8, 0];
    for v in [48u16, u16::MAX, 16, u16::MAX, 112, msg.len() as u16, u16::MAX] {
        d.extend_from_slice(&v.to_le_bytes());
    }
    d.extend_from_slice(pubkey);
    d.extend_from_slice(&[0u8; 64]);
    d.extend_from_slice(msg);
    d
}

fn signed_by(pubkey: &[u8; 32]) -> Vec<u8> {
    batch(&[(ed25519_program::id(), signature(pubkey, b"outcome")), (system_program::id(), vec![])], 1)
}

fn check_by(pubkey: &[u8; 32]) -> Option<BatchInstruction> {
    Some(BatchInstruction { program_id: key(0), data: signature(pubkey, b"outcome") })
}

fn unsigned() -> Vec<u8> {
    batch(&[(system_program::id(), vec![1]), (system_program::id(), vec![])], 1)
}

fn user_vault(owner: Pubkey, lamports: u64) -> Account<UserVault> {
    Account {
        key: key(5),
        lamports,
        data: UserVault { owner, bump: 254, _r1: [0; 7], _r2: [0; 32], _r3: 0, _r4: 0, _r5: 0 },
    }
}

#[test]
fn dicemines_safe_move_lamports_moves_or_refuses() {
    let (mut from, mut to) = (10u64, 1u64);
    assert_eq!(safe_move_lamports(&mut from, &mut to, 4), Ok(()));
    assert_eq!((from, to), (6, 5));
    assert_eq!(safe_move_lamports(&mut from, &mut to, 0), Err(CasinoErr::BadParams));
    assert_eq!(safe_move_lamports(&mut from, &mut to, 7), Err(CasinoErr::InsufficientVault));
    assert_eq!((from, to), (6, 5));
}

#[test]
fn dicemines_require_ed25519_present_wants_a_signature_check() {
    assert_eq!(require_ed25519_present(&signed_by(&ADMIN), 0), Ok(()));
    assert_eq!(require_ed25519_present(&signed_by(&[1; 32]), 5), Ok(()));
    assert_eq!(require_ed25519_present(&unsigned(), 0), Err(CasinoErr::InvalidEd25519));
    assert_eq!(require_ed25519_present(&vec![], 0), Err(CasinoErr::InvalidEd25519));
}

#[test]
fn dicemines_init_admin_records_the_key() {
    let mut ctx = InitAdmin {
        authority: Signer { key: key(9), lamports: 5 },
        admin_config: Account { key: key(4), lamports: 10, data: AdminConfig { admin_pubkey: [0; 32] } },
    };
    assert_eq!(init_admin(&mut ctx, ADMIN), Ok(()));
    assert_eq!(ctx.admin_config.data.admin_pubkey, ADMIN);
    assert_eq!(ctx.authority.lamports, 5);
}

#[test]
fn dicemines_init_house_vault_opens_the_vault_once() {
    let mut ctx = InitHouseVault {
        payer: Signer { key: key(9), lamports: 1_000_000 },
        house_vault: SystemAccount { key: key(2), lamports: 0 },
    };
    assert_eq!(init_house_vault(&mut ctx, 890_880), Ok(()));
    assert_eq!((ctx.payer.lamports, ctx.house_vault.lamports), (1_000_000 - 890_880, 890_880));
    let before = ctx;
    assert_eq!(init_house_vault(&mut ctx, 1), Err(Failure::System(SystemError::AccountAlreadyInUse)));
    assert_eq!(ctx, before);
}

#[test]
fn dicemines_init_house_vault_takes_at_least_one_lamport() {
    let mut ctx =
        InitHouseVault { payer: Signer { key: key(9), lamports: 1 }, house_vault: SystemAccount { key: key(2), lamports: 0 } };
    assert_eq!(init_house_vault(&mut ctx, 0), Ok(()));
    assert_eq!((ctx.payer.lamports, ctx.house_vault.lamports), (0, 1));
    let mut ctx =
        InitHouseVault { payer: Signer { key: key(9), lamports: 0 }, house_vault: SystemAccount { key: key(2), lamports: 0 } };
    assert_eq!(init_house_vault(&mut ctx, 0), Err(Failure::System(SystemError::ResultWithNegativeLamports)));
}

#[test]
fn dicemines_activate_user_vault_names_the_owner_and_takes_the_deposit() {
    let mut ctx = ActivateUserVault { player: Signer { key: key(1), lamports: 1_000 }, user_vault: user_vault(key(0), 50), bump: 251 };
    assert_eq!(activate_user_vault(&mut ctx, ActivateArgs { initial_deposit: 400 }), Ok(()));
    assert_eq!(ctx.user_vault.data.owner, key(1));
    assert_eq!(ctx.user_vault.data.bump, 251);
    assert_eq!((ctx.player.lamports, ctx.user_vault.lamports), (600, 450));
    let mut ctx = ActivateUserVault { player: Signer { key: key(1), lamports: 399 }, user_vault: user_vault(key(0), 50), bump: 251 };
    let before = ctx;
    assert_eq!(
        activate_user_vault(&mut ctx, ActivateArgs { initial_deposit: 400 }),
        Err(Failure::System(SystemError::ResultWithNegativeLamports))
    );
    assert_eq!(ctx, before);
}

#[test]
fn dicemines_deposit_and_withdraw_move_between_wallet_and_vault() {
    let mut ctx = DepositToVault { player: Signer { key: key(1), lamports: 1_000 }, user_vault: user_vault(key(1), 50) };
    assert_eq!(deposit_to_vault(&mut ctx, DepositArgs { amount: 300 }), Ok(()));
    assert_eq!((ctx.player.lamports, ctx.user_vault.lamports), (700, 350));
    assert_eq!(deposit_to_vault(&mut ctx, DepositArgs { amount: 0 }), Err(Failure::Program(CasinoErr::BadParams)));
    assert_eq!(
        deposit_to_vault(&mut ctx, DepositArgs { amount: 701 }),
        Err(Failure::System(SystemError::ResultWithNegativeLamports))
    );
    assert_eq!((ctx.player.lamports, ctx.user_vault.lamports), (700, 350));
    let mut ctx = WithdrawFromVault { player: ctx.player, user_vault: ctx.user_vault };
    assert_eq!(withdraw_from_vault(&mut ctx, WithdrawArgs { amount: 350 }), Ok(()));
    assert_eq!((ctx.player.lamports, ctx.user_vault.lamports), (1_050, 0));
    assert_eq!(withdraw_from_vault(&mut ctx, WithdrawArgs { amount: 0 }), Err(Failure::Program(CasinoErr::BadParams)));
    assert_eq!(withdraw_from_vault(&mut ctx, WithdrawArgs { amount: 1 }), Err(Failure::Program(CasinoErr::InsufficientVault)));
    assert_eq!((ctx.player.lamports, ctx.user_vault.lamports), (1_050, 0));
}

fn dice_record() -> PendingBet {
    PendingBet { player: key(1), amount: 1_000_000, bet_type: 0, target: 50, nonce: 500, expiry_unix: 1_000, settled: false }
}

fn dice_fresh_lock() -> DiceLock {
    DiceLock {
        player: SystemAccount { key: key(1), lamports: 3 },
        fee_payer: Signer { key: key(9), lamports: 1_000 },
        user_vault: user_vault(key(1), 50_000_000),
        house_vault: SystemAccount { key: key(2), lamports: 900_000 },
        pending_bet: Account { key: key(3), lamports: 1_500, data: PendingBet { settled: true, nonce: 0, ..dice_record() } },
        sysvar_instructions: signed_by(&[1; 32]),
    }
}

fn dice_lock_args() -> DiceLockArgs {
    DiceLockArgs { bet_amount: 1_000_000, bet_type: 0, target: 50, nonce: 500, expiry_unix: 1_000, ed25519_instr_index: 0 }
}

fn dice_open_resolve() -> DiceResolve {
    DiceResolve {
        player: SystemAccount { key: key(1), lamports: 3 },
        house_vault: SystemAccount { key: key(2), lamports: 900_000_000_000 },
        admin_config: Account { key: key(4), lamports: 10, data: AdminConfig { admin_pubkey: ADMIN } },
        user_vault: user_vault(key(1), 4_000_000),
        pending_bet: Account { key: key(3), lamports: 1_500, data: dice_record() },
        sysvar_instructions: signed_by(&ADMIN),
    }
}

fn dice_win(payout: u64) -> DiceResolveArgs {
    DiceResolveArgs { roll: 49, payout, ed25519_instr_index: 0 }
}

#[test]
fn dicemines_dice_lock_moves_stake_and_fee_out_of_the_players_vault() {
    let mut ctx = dice_fresh_lock();
    let event = dice_lock(&mut ctx, dice_lock_args());
    assert_eq!(event, Ok(DiceLocked { player: key(1), amount: 1_000_000, bet_type: 0, target: 50, nonce: 500 }));
    assert_eq!(ctx.house_vault.lamports, 900_000 + 1_000_000);
    assert_eq!(ctx.user_vault.lamports, 50_000_000 - 1_000_000 - FEE);
    assert_eq!(ctx.fee_payer.lamports, 1_000 + FEE);
    assert_eq!(FEE_REIMBURSE_LAMPORTS, FEE);
    assert_eq!(ctx.player.lamports, 3);
    assert_eq!(ctx.pending_bet.data, dice_record());
    assert_eq!(ctx.pending_bet.lamports, 1_500);
}

#[test]
fn dicemines_dice_lock_refuses_terms_out_of_their_domains() {
    for bad in [
        DiceLockArgs { bet_amount: MIN_BET_LAMPORTS - 1, ..dice_lock_args() },
        DiceLockArgs { bet_amount: MAX_BET_LAMPORTS + 1, ..dice_lock_args() },
        DiceLockArgs { target: 1, ..dice_lock_args() },
        DiceLockArgs { target: 99, ..dice_lock_args() },
        DiceLockArgs { bet_type: 2, ..dice_lock_args() },
    ] {
        let mut ctx = dice_fresh_lock();
        ctx.user_vault.lamports = u64::MAX / 2;
        let before = ctx.clone();
        assert_eq!(dice_lock(&mut ctx, bad), Err(Failure::Program(CasinoErr::BadParams)));
        assert_eq!(ctx, before);
    }
}

#[test]
fn dicemines_dice_lock_accepts_the_bounds_of_the_terms() {
    for good in [
        DiceLockArgs { bet_amount: MIN_BET_LAMPORTS, target: 2, bet_type: 1, ..dice_lock_args() },
        DiceLockArgs { bet_amount: MAX_BET_LAMPORTS, target: 98, ..dice_lock_args() },
    ] {
        let mut ctx = dice_fresh_lock();
        ctx.user_vault.lamports = MAX_BET_LAMPORTS + FEE;
        assert!(dice_lock(&mut ctx, good).is_ok());
    }
}

#[test]
fn dicemines_dice_lock_wants_a_signature_check_in_the_batch() {
    let mut ctx = dice_fresh_lock();
    ctx.sysvar_instructions = unsigned();
    let before = ctx.clone();
    assert_eq!(dice_lock(&mut ctx, dice_lock_args()), Err(Failure::Program(CasinoErr::InvalidEd25519)));
    assert_eq!(ctx, before);
}

#[test]
fn dicemines_dice_lock_refuses_a_vault_of_another_owner() {
    let mut ctx = dice_fresh_lock();
    ctx.user_vault.data.owner = key(8);
    let before = ctx.clone();
    assert_eq!(dice_lock(&mut ctx, dice_lock_args()), Err(Failure::Program(CasinoErr::VaultMismatch)));
    assert_eq!(ctx, before);
}

#[test]
fn dicemines_dice_lock_refuses_a_vault_that_does_not_cover_stake_and_fee() {
    let mut ctx = dice_fresh_lock();
    ctx.user_vault.lamports = 1_000_000 + FEE - 1;
    let before = ctx.clone();
    assert_eq!(dice_lock(&mut ctx, dice_lock_args()), Err(Failure::Program(CasinoErr::InsufficientVault)));
    assert_eq!(ctx, before);
    ctx.user_vault.lamports = 1_000_000 + FEE;
    assert!(dice_lock(&mut ctx, dice_lock_args()).is_ok());
    assert_eq!(ctx.user_vault.lamports, 0);
}

#[test]
fn dicemines_dice_resolve_pays_the_players_vault() {
    let mut ctx = dice_open_resolve();
    let event = dice_resolve(&mut ctx, dice_win(980_000), 999);
    assert_eq!(event, Ok(DiceResolved { player: key(1), win: true, roll: 49, payout: 980_000, nonce: 500 }));
    assert_eq!(ctx.house_vault.lamports, 900_000_000_000 - 980_000);
    assert_eq!(ctx.user_vault.lamports, 4_000_000 + 980_000 + 1_500);
    assert_eq!(ctx.pending_bet.lamports, 0);
    assert_eq!(ctx.pending_bet.data, PendingBet { settled: true, ..dice_record() });
    assert_eq!(ctx.player.lamports, 3);
}

#[test]
fn dicemines_dice_resolve_holds_the_payout_to_the_cap() {
    let mut ctx = dice_open_resolve();
    let before = ctx.clone();
    assert_eq!(dice_resolve(&mut ctx, dice_win(MAX_PAYOUT_LAMPORTS + 1), 999), Err(Failure::Program(CasinoErr::BadPayout)));
    assert_eq!(dice_resolve(&mut ctx, dice_win(0), 999), Err(Failure::Program(CasinoErr::BadPayout)));
    assert_eq!(ctx, before);
    assert!(dice_resolve(&mut ctx, dice_win(MAX_PAYOUT_LAMPORTS), 999).is_ok());
}

#[test]
fn dicemines_dice_resolve_twice_fails_the_second_time() {
    let mut ctx = dice_open_resolve();
    assert!(dice_resolve(&mut ctx, dice_win(980_000), 999).is_ok());
    let after_first = ctx.clone();
    assert_eq!(dice_resolve(&mut ctx, dice_win(980_000), 999), Err(Failure::Program(CasinoErr::BadPending)));
    assert_eq!(dice_resolve(&mut ctx, dice_win(0), 5_000), Err(Failure::Program(CasinoErr::BadPending)));
    assert_eq!(ctx, after_first);
}

#[test]
fn dicemines_dice_resolve_after_the_deadline_is_expired() {
    let mut ctx = dice_open_resolve();
    let before = ctx.clone();
    assert_eq!(dice_resolve(&mut ctx, dice_win(980_000), 1_001), Err(Failure::Program(CasinoErr::Expired)));
    assert_eq!(ctx, before);
    assert!(dice_resolve(&mut ctx, dice_win(980_000), 1_000).is_ok());
}

#[test]
fn dicemines_dice_resolve_signed_with_another_key_is_refused() {
    let mut ctx = dice_open_resolve();
    ctx.sysvar_instructions = signed_by(&[43; 32]);
    let before = ctx.clone();
    assert_eq!(dice_resolve(&mut ctx, dice_win(980_000), 999), Err(Failure::Program(CasinoErr::InvalidEd25519)));
    assert_eq!(ctx, before);
    ctx.sysvar_instructions = unsigned();
    assert_eq!(dice_resolve(&mut ctx, dice_win(980_000), 999), Err(Failure::Program(CasinoErr::InvalidEd25519)));
}

#[test]
fn dicemines_dice_resolve_refuses_a_house_vault_that_is_short() {
    let mut ctx = dice_open_resolve();
    ctx.house_vault.lamports = 980_000 - 1;
    let before = ctx.clone();
    assert_eq!(
        dice_resolve(&mut ctx, dice_win(980_000), 999),
        Err(Failure::System(SystemError::ResultWithNegativeLamports))
    );
    assert_eq!(ctx, before);
}

#[test]
fn dicemines_dice_lock_with_check_goes_by_what_it_is_given() {
    let mut ctx = dice_fresh_lock();
    let before = ctx.clone();
    assert_eq!(dice_lock_with_check(&mut ctx, dice_lock_args(), false), Err(Failure::Program(CasinoErr::InvalidEd25519)));
    assert_eq!(ctx, before);
    ctx.sysvar_instructions = unsigned();
    assert!(dice_lock_with_check(&mut ctx, dice_lock_args(), true).is_ok());
    assert_eq!(ctx.house_vault.lamports, 900_000 + 1_000_000);
}

#[test]
fn dicemines_dice_resolve_with_check_goes_by_what_it_is_given() {
    let mut ctx = dice_open_resolve();
    let before = ctx.clone();
    let win = dice_win(980_000);
    assert_eq!(dice_resolve_with_check(&mut ctx, win, 999, None), Err(Failure::Program(CasinoErr::InvalidEd25519)));
    assert_eq!(
        dice_resolve_with_check(&mut ctx, win, 999, check_by(&[43; 32])),
        Err(Failure::Program(CasinoErr::InvalidEd25519))
    );
    assert_eq!(ctx, before);
    ctx.sysvar_instructions = unsigned();
    assert!(dice_resolve_with_check(&mut ctx, win, 999, check_by(&ADMIN)).is_ok());
    assert_eq!(ctx.house_vault.lamports, 900_000_000_000 - 980_000);
    assert!(ctx.pending_bet.data.settled);
}

#[test]
fn dicemines_dice_record_survives_serialization() {
    for record in [dice_record(), PendingBet { player: key(255), nonce: u64::MAX, expiry_unix: i64::MIN, settled: true, ..dice_record() }] {
        let bytes = record.to_bytes();
        assert_eq!(bytes.len() + 8, PendingBet::LEN);
        assert_eq!(PendingBet::from_bytes(&bytes), Some(record));
    }
    assert_eq!(PendingBet::from_bytes(&vec![0; PendingBet::LEN]), None);
}

#[test]
fn dicemines_dice_resolve_under_50_roll_50_or_51_loses() {
    for lost in [50u8, 51] {
        let mut ctx = dice_open_resolve();
        let event = dice_resolve(&mut ctx, DiceResolveArgs { roll: lost, payout: 0, ed25519_instr_index: 0 }, 999);
        assert_eq!(event, Ok(DiceResolved { player: key(1), win: false, roll: lost, payout: 0, nonce: 500 }));
        assert_eq!(ctx.house_vault.lamports, 900_000_000_000);
        assert_eq!(ctx.user_vault.lamports, 4_000_000 + 1_500);
        let mut ctx = dice_open_resolve();
        let before = ctx.clone();
        let paid = DiceResolveArgs { roll: lost, payout: 1, ed25519_instr_index: 0 };
        assert_eq!(dice_resolve(&mut ctx, paid, 999), Err(Failure::Program(CasinoErr::BadPayout)));
        assert_eq!(ctx, before);
    }
}

#[test]
fn dicemines_dice_resolve_refuses_a_roll_out_of_range() {
    for bad in [0u8, 101, 255] {
        let mut ctx = dice_open_resolve();
        let args = DiceResolveArgs { roll: bad, payout: 0, ed25519_instr_index: 0 };
        assert_eq!(dice_resolve(&mut ctx, args, 999), Err(Failure::Program(CasinoErr::BadParams)));
    }
}

#[test]
fn dicemines_dice_resolve_over_50_wins_above_the_target() {
    let mut ctx = dice_open_resolve();
    ctx.pending_bet.data.bet_type = 1;
    let before = ctx.clone();
    let low = DiceResolveArgs { roll: 50, payout: 5, ed25519_instr_index: 0 };
    assert_eq!(dice_resolve(&mut ctx, low, 999), Err(Failure::Program(CasinoErr::BadPayout)));
    assert_eq!(ctx, before);
    let high = DiceResolveArgs { roll: 51, payout: 5, ed25519_instr_index: 0 };
    assert!(dice_resolve(&mut ctx, high, 999).is_ok());
}

fn mines_record() -> PendingRound {
    PendingRound { player: key(1), amount: 1_000_000, rows: 5, cols: 4, mines: 3, nonce: 500, expiry_unix: 1_000, settled: false }
}

fn mines_fresh_lock() -> MinesLock {
    MinesLock {
        player: SystemAccount { key: key(1), lamports: 3 },
        fee_payer: Signer { key: key(9), lamports: 1_000 },
        user_vault: user_vault(key(1), 50_000_000),
        house_vault: SystemAccount { key: key(2), lamports: 900_000 },
        pending: Account { key: key(3), lamports: 1_500, data: PendingRound { settled: true, nonce: 0, ..mines_record() } },
        sysvar_instructions: signed_by(&[1; 32]),
    }
}

fn mines_lock_args() -> MinesLockArgs {
    MinesLockArgs { bet_amount: 1_000_000, rows: 5, cols: 4, mines: 3, nonce: 500, expiry_unix: 1_000, ed25519_instr_index: 0 }
}

fn mines_open_resolve() -> MinesResolve {
    MinesResolve {
        player: SystemAccount { key: key(1), lamports: 3 },
        house_vault: SystemAccount { key: key(2), lamports: 900_000_000_000 },
        admin_config: Account { key: key(4), lamports: 10, data: AdminConfig { admin_pubkey: ADMIN } },
        user_vault: user_vault(key(1), 4_000_000),
        pending: Account { key: key(3), lamports: 1_500, data: mines_record() },
        sysvar_instructions: signed_by(&ADMIN),
    }
}

fn mines_win(payout: u64) -> MinesResolveArgs {
    MinesResolveArgs { checksum: 250, payout, ed25519_instr_index: 0 }
}

#[test]
fn dicemines_mines_lock_moves_stake_and_fee_out_of_the_players_vault() {
    let mut ctx = mines_fresh_lock();
    let event = mines_lock(&mut ctx, mines_lock_args());
    assert_eq!(event, Ok(MinesLocked { player: key(1), amount: 1_000_000, rows: 5, cols: 4, mines: 3, nonce: 500 }));
    assert_eq!(ctx.house_vault.lamports, 900_000 + 1_000_000);
    assert_eq!(ctx.user_vault.lamports, 50_000_000 - 1_000_000 - FEE);
    assert_eq!(ctx.fee_payer.lamports, 1_000 + FEE);
    assert_eq!(FEE_REIMBURSE_LAMPORTS, FEE);
    assert_eq!(ctx.player.lamports, 3);
    assert_eq!(ctx.pending.data, mines_record());
    assert_eq!(ctx.pending.lamports, 1_500);
}

#[test]
fn dicemines_mines_lock_refuses_terms_out_of_their_domains() {
    for bad in [
        MinesLockArgs { bet_amount: MIN_BET_LAMPORTS - 1, ..mines_lock_args() },
        MinesLockArgs { bet_amount: MAX_BET_LAMPORTS + 1, ..mines_lock_args() },
        MinesLockArgs { rows: 1, ..mines_lock_args() },
        MinesLockArgs { rows: 9, ..mines_lock_args() },
        MinesLockArgs { cols: 1, ..mines_lock_args() },
        MinesLockArgs { cols: 9, ..mines_lock_args() },
        MinesLockArgs { mines: 0, ..mines_lock_args() },
        MinesLockArgs { mines: 20, ..mines_lock_args() },
    ] {
        let mut ctx = mines_fresh_lock();
        ctx.user_vault.lamports = u64::MAX / 2;
        let before = ctx.clone();
        assert_eq!(mines_lock(&mut ctx, bad), Err(Failure::Program(CasinoErr::BadParams)));
        assert_eq!(ctx, before);
    }
}

#[test]
fn dicemines_mines_lock_accepts_the_bounds_of_the_terms() {
    for good in [
        MinesLockArgs { bet_amount: MIN_BET_LAMPORTS, rows: 2, cols: 2, mines: 1, ..mines_lock_args() },
        MinesLockArgs { bet_amount: MAX_BET_LAMPORTS, rows: 8, cols: 8, mines: 63, ..mines_lock_args() },
        MinesLockArgs { mines: 19, ..mines_lock_args() },
    ] {
        let mut ctx = mines_fresh_lock();
        ctx.user_vault.lamports = MAX_BET_LAMPORTS + FEE;
        assert!(mines_lock(&mut ctx, good).is_ok());
    }
}

#[test]
fn dicemines_mines_lock_wants_a_signature_check_in_the_batch() {
    let mut ctx = mines_fresh_lock();
    ctx.sysvar_instructions = unsigned();
    let before = ctx.clone();
    assert_eq!(mines_lock(&mut ctx, mines_lock_args()), Err(Failure::Program(CasinoErr::InvalidEd25519)));
    assert_eq!(ctx, before);
}

#[test]
fn dicemines_mines_lock_refuses_a_vault_of_another_owner() {
    let mut ctx = mines_fresh_lock();
    ctx.user_vault.data.owner = key(8);
    let before = ctx.clone();
    assert_eq!(mines_lock(&mut ctx, mines_lock_args()), Err(Failure::Program(CasinoErr::VaultMismatch)));
    assert_eq!(ctx, before);
}

#[test]
fn dicemines_mines_lock_refuses_a_vault_that_does_not_cover_stake_and_fee() {
    let mut ctx = mines_fresh_lock();
    ctx.user_vault.lamports = 1_000_000 + FEE - 1;
    let before = ctx.clone();
    assert_eq!(mines_lock(&mut ctx, mines_lock_args()), Err(Failure::Program(CasinoErr::InsufficientVault)));
    assert_eq!(ctx, before);
    ctx.user_vault.lamports = 1_000_000 + FEE;
    assert!(mines_lock(&mut ctx, mines_lock_args()).is_ok());
    assert_eq!(ctx.user_vault.lamports, 0);
}

#[test]
fn dicemines_mines_resolve_pays_the_players_vault() {
    let mut ctx = mines_open_resolve();
    let event = mines_resolve(&mut ctx, mines_win(980_000), 999);
    assert_eq!(event, Ok(MinesResolved { player: key(1), payout: 980_000, checksum: 250, nonce: 500 }));
    assert_eq!(ctx.house_vault.lamports, 900_000_000_000 - 980_000);
    assert_eq!(ctx.user_vault.lamports, 4_000_000 + 980_000 + 1_500);
    assert_eq!(ctx.pending.lamports, 0);
    assert_eq!(ctx.pending.data, PendingRound { settled: true, ..mines_record() });
    assert_eq!(ctx.player.lamports, 3);
}

#[test]
fn dicemines_mines_resolve_holds_the_payout_to_the_cap() {
    let mut ctx = mines_open_resolve();
    let before = ctx.clone();
    assert_eq!(mines_resolve(&mut ctx, mines_win(MAX_PAYOUT_LAMPORTS + 1), 999), Err(Failure::Program(CasinoErr::BadPayout)));
    assert_eq!(ctx, before);
    assert!(mines_resolve(&mut ctx, mines_win(MAX_PAYOUT_LAMPORTS), 999).is_ok());
    let mut ctx = mines_open_resolve();
    assert!(mines_resolve(&mut ctx, mines_win(0), 999).is_ok());
    assert_eq!(ctx.house_vault.lamports, 900_000_000_000);
}

#[test]
fn dicemines_mines_resolve_twice_fails_the_second_time() {
    let mut ctx = mines_open_resolve();
    assert!(mines_resolve(&mut ctx, mines_win(980_000), 999).is_ok());
    let after_first = ctx.clone();
    assert_eq!(mines_resolve(&mut ctx, mines_win(980_000), 999), Err(Failure::Program(CasinoErr::BadPending)));
    assert_eq!(mines_resolve(&mut ctx, mines_win(0), 5_000), Err(Failure::Program(CasinoErr::BadPending)));
    assert_eq!(ctx, after_first);
}

#[test]
fn dicemines_mines_resolve_after_the_deadline_is_expired() {
    let mut ctx = mines_open_resolve();
    let before = ctx.clone();
    assert_eq!(mines_resolve(&mut ctx, mines_win(980_000), 1_001), Err(Failure::Program(CasinoErr::Expired)));
    assert_eq!(ctx, before);
    assert!(mines_resolve(&mut ctx, mines_win(980_000), 1_000).is_ok());
}

#[test]
fn dicemines_mines_resolve_signed_with_another_key_is_refused() {
    let mut ctx = mines_open_resolve();
    ctx.sysvar_instructions = signed_by(&[43; 32]);
    let before = ctx.clone();
    assert_eq!(mines_resolve(&mut ctx, mines_win(980_000), 999), Err(Failure::Program(CasinoErr::InvalidEd25519)));
    assert_eq!(ctx, before);
    ctx.sysvar_instructions = unsigned();
    assert_eq!(mines_resolve(&mut ctx, mines_win(980_000), 999), Err(Failure::Program(CasinoErr::InvalidEd25519)));
}

#[test]
fn dicemines_mines_resolve_refuses_a_house_vault_that_is_short() {
    let mut ctx = mines_open_resolve();
    ctx.house_vault.lamports = 980_000 - 1;
    let before = ctx.clone();
    assert_eq!(
        mines_resolve(&mut ctx, mines_win(980_000), 999),
        Err(Failure::System(SystemError::ResultWithNegativeLamports))
    );
    assert_eq!(ctx, before);
}

#[test]
fn dicemines_mines_lock_with_check_goes_by_what_it_is_given() {
    let mut ctx = mines_fresh_lock();
    let before = ctx.clone();
    assert_eq!(mines_lock_with_check(&mut ctx, mines_lock_args(), false), Err(Failure::Program(CasinoErr::InvalidEd25519)));
    assert_eq!(ctx, before);
    ctx.sysvar_instructions = unsigned();
    assert!(mines_lock_with_check(&mut ctx, mines_lock_args(), true).is_ok());
    assert_eq!(ctx.house_vault.lamports, 900_000 + 1_000_000);
}

#[test]
fn dicemines_mines_resolve_with_check_goes_by_what_it_is_given() {
    let mut ctx = mines_open_resolve();
    let before = ctx.clone();
    let win = mines_win(980_000);
    assert_eq!(mines_resolve_with_check(&mut ctx, win, 999, None), Err(Failure::Program(CasinoErr::InvalidEd25519)));
    assert_eq!(
        mines_resolve_with_check(&mut ctx, win, 999, check_by(&[43; 32])),
        Err(Failure::Program(CasinoErr::InvalidEd25519))
    );
    assert_eq!(ctx, before);
    ctx.sysvar_instructions = unsigned();
    assert!(mines_resolve_with_check(&mut ctx, win, 999, check_by(&ADMIN)).is_ok());
    assert_eq!(ctx.house_vault.lamports, 900_000_000_000 - 980_000);
    assert!(ctx.pending.data.settled);
}

#[test]
fn dicemines_mines_record_survives_serialization() {
    for record in [mines_record(), PendingRound { player: key(255), nonce: u64::MAX, expiry_unix: i64::MIN, settled: true, ..mines_record() }] {
        let bytes = record.to_bytes();
        assert_eq!(bytes.len() + 8, PendingRound::LEN);
        assert_eq!(PendingRound::from_bytes(&bytes), Some(record));
    }
    assert_eq!(PendingRound::from_bytes(&vec![0; PendingRound::LEN]), None);
}

#[test]
fn dicemines_mines_resolve_refuses_any_other_checksum() {
    for checksum in [0u8, 1, 249, 251, 255] {
        let mut ctx = mines_open_resolve();
        let before = ctx.clone();
        let args = MinesResolveArgs { checksum, payout: 980_000, ed25519_instr_index: 0 };
        assert_eq!(mines_resolve(&mut ctx, args, 999), Err(Failure::Program(CasinoErr::BadChecksum)));
        assert_eq!(ctx, before);
    }
}

