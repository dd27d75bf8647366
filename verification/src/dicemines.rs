//! Dice and mines on one house vault, staked from per-player vaults. A lock
//! moves the stake from the player's vault into the house vault; a
//! settlement pays the player's vault back out of it.

use vstd::prelude::*;
use crate::batch::{
    check_data, ed25519_present, find_ed25519, is_made_with, made_with, signature_data, signed_pubkey,
    BatchInstruction,
};
use crate::codec::{
    flag_byte, flag_to_byte, get_le, get_le_spec, i64_bits, i64_from_bits, le_bytes, lemma_capacities,
    lemma_le_bytes_len, lemma_le_bytes_of_value, lemma_le_round_trip, lemma_le_value_bound,
    lemma_twos_complement_of_bits, lemma_twos_complement_round_trip, put_bytes32, put_le, twos_complement,
};
use crate::ledger::{
    opening_balance, opening_lamports, transfer, Account, Failure, Signer, SystemAccount, SystemError,
};
use crate::pubkey::{lemma_key_eq_by_bytes, Pubkey};
use crate::rules::{checksum_for, dice_win, dice_wins, expected_checksum, valid_board};

verus! {

/// The most that one settlement may pay out.
pub const MAX_PAYOUT_LAMPORTS: u64 = 50_000_000_000;

/// The smallest stake accepted.
pub const MIN_BET_LAMPORTS: u64 = 50_000;

/// The largest stake accepted.
pub const MAX_BET_LAMPORTS: u64 = 5_000_000_000;

/// What a player's vault pays the fee payer for each lock.
pub const FEE_REIMBURSE_LAMPORTS: u64 = 1_400_000;

#[derive(Clone, Copy, Debug, PartialEq, Eq)]
pub enum CasinoErr {
    /// The batch holds no signature check, or none made with the backend's
    /// key.
    InvalidEd25519,
    /// The record's deadline has passed.
    Expired,
    /// A parameter is outside its domain.
    BadParams,
    /// The player's vault is not recorded as the player's.
    VaultMismatch,
    /// The paying balance does not cover the amount.
    InsufficientVault,
    /// The declared payout breaks the game's rule or the cap.
    BadPayout,
    /// The record is already settled.
    BadPending,
    /// The declared checksum is not the one the nonce gives.
    BadChecksum,
}

/// The trusted backend's public key.
#[derive(Clone, Copy, Debug, PartialEq, Eq)]
pub struct AdminConfig {
    pub admin_pubkey: [u8; 32],
}

/// A player's own vault: the funds rest on the account, the record names the
/// owner.
#[derive(Clone, Copy, Debug, PartialEq, Eq)]
pub struct UserVault {
    pub owner: Pubkey,
    pub bump: u8,
    pub _r1: [u8; 7],
    pub _r2: [u8; 32],
    pub _r3: i64,
    pub _r4: u64,
    pub _r5: u64,
}

impl UserVault {
    /// The bytes that the store sets aside for one vault.
    pub const LEN: usize = 8 + 32 + 1 + 7 + 32 + 8 + 8 + 8;
}

/// The accounts of `init_admin`.
#[derive(Clone, Copy, Debug, PartialEq, Eq)]
pub struct InitAdmin {
    pub authority: Signer,
    pub admin_config: Account<AdminConfig>,
}

/// The accounts of `init_house_vault`.
#[derive(Clone, Copy, Debug, PartialEq, Eq)]
pub struct InitHouseVault {
    pub payer: Signer,
    pub house_vault: SystemAccount,
}

/// The accounts of `activate_user_vault`; `bump` is the bump seed under which
/// the store derived the vault's identity from the player's.
#[derive(Clone, Copy, Debug, PartialEq, Eq)]
pub struct ActivateUserVault {
    pub player: Signer,
    pub user_vault: Account<UserVault>,
    pub bump: u8,
}

/// The accounts of `deposit_to_vault`.
#[derive(Clone, Copy, Debug, PartialEq, Eq)]
pub struct DepositToVault {
    pub player: Signer,
    pub user_vault: Account<UserVault>,
}

/// The accounts of `withdraw_from_vault`.
#[derive(Clone, Copy, Debug, PartialEq, Eq)]
pub struct WithdrawFromVault {
    pub player: Signer,
    pub user_vault: Account<UserVault>,
}

#[derive(Clone, Copy, Debug, PartialEq, Eq)]
pub struct ActivateArgs {
    pub initial_deposit: u64,
}

#[derive(Clone, Copy, Debug, PartialEq, Eq)]
pub struct DepositArgs {
    pub amount: u64,
}

#[derive(Clone, Copy, Debug, PartialEq, Eq)]
pub struct WithdrawArgs {
    pub amount: u64,
}

/// Moves `amount` from one balance to another. It refuses an empty move as
/// `BadParams` and a move that the paying balance does not cover as
/// `InsufficientVault`, and then moves nothing.
pub fn safe_move_lamports(from: &mut u64, to: &mut u64, amount: u64) -> (r: Result<(), CasinoErr>)
    requires
        *old(from) + *old(to) <= u64::MAX,
    ensures
        r == safe_move_outcome(*old(from), amount),
        r is Ok ==> *final(from) == *old(from) - amount && *final(to) == *old(to) + amount,
        r is Err ==> *final(from) == *old(from) && *final(to) == *old(to),
{
    if amount == 0 {
        return Err(CasinoErr::BadParams);
    }
    if !transfer(from, to, amount) {
        return Err(CasinoErr::InsufficientVault);
    }
    Ok(())
}

/// Whether a move of `amount` out of a balance of `from` is made, and why not.
pub open spec fn safe_move_outcome(from: u64, amount: u64) -> Result<(), CasinoErr> {
    if amount == 0 {
        Err(CasinoErr::BadParams)
    } else if from < amount {
        Err(CasinoErr::InsufficientVault)
    } else {
        Ok(())
    }
}

/// Accepts a batch that holds a signature check, at the hinted place or
/// before the running operation, and refuses any other as `InvalidEd25519`.
pub fn require_ed25519_present(sysvar_data: &Vec<u8>, hinted_idx: u8) -> (r: Result<(), CasinoErr>)
    ensures
        r is Ok <==> ed25519_present(sysvar_data@, hinted_idx),
        r is Err ==> r == Err::<(), CasinoErr>(CasinoErr::InvalidEd25519),
{
    match find_ed25519(sysvar_data, hinted_idx) {
        Some(_) => Ok(()),
        None => Err(CasinoErr::InvalidEd25519),
    }
}

/// Records the trusted backend's key.
pub fn init_admin(ctx: &mut InitAdmin, admin_pubkey: [u8; 32]) -> (r: Result<(), Failure<CasinoErr>>)
    ensures
        r is Ok,
        *final(ctx) == (InitAdmin {
            admin_config: Account { data: AdminConfig { admin_pubkey }, ..old(ctx).admin_config },
            ..*old(ctx)
        }),
{
    ctx.admin_config.data.admin_pubkey = admin_pubkey;
    Ok(())
}

/// Whether `init_house_vault` opens the vault, and why not.
pub open spec fn init_house_vault_outcome(ctx: InitHouseVault, rent_minimum: u64) -> Result<(), Failure<CasinoErr>> {
    if ctx.house_vault.lamports > 0 {
        Err(Failure::System(SystemError::AccountAlreadyInUse))
    } else if ctx.payer.lamports < opening_lamports(rent_minimum) {
        Err(Failure::System(SystemError::ResultWithNegativeLamports))
    } else {
        Ok(())
    }
}

/// Opens the house vault with the payer's funds. A vault that holds funds
/// exists already and is not opened again.
pub fn init_house_vault(ctx: &mut InitHouseVault, rent_minimum: u64) -> (r: Result<(), Failure<CasinoErr>>)
    requires
        old(ctx).payer.lamports + old(ctx).house_vault.lamports <= u64::MAX,
    ensures
        r == init_house_vault_outcome(*old(ctx), rent_minimum),
        r is Err ==> *final(ctx) == *old(ctx),
        r is Ok ==> *final(ctx) == (InitHouseVault {
            payer: Signer {
                lamports: (old(ctx).payer.lamports - opening_lamports(rent_minimum)) as u64,
                ..old(ctx).payer
            },
            house_vault: SystemAccount { lamports: opening_lamports(rent_minimum), ..old(ctx).house_vault },
        }),
{
    let lamports = opening_balance(rent_minimum);
    if ctx.house_vault.lamports > 0 {
        return Err(Failure::System(SystemError::AccountAlreadyInUse));
    }
    if !transfer(&mut ctx.payer.lamports, &mut ctx.house_vault.lamports, lamports) {
        return Err(Failure::System(SystemError::ResultWithNegativeLamports));
    }
    Ok(())
}

/// Opens a player's vault in the player's name and pays the first deposit
/// into it, if one is asked for. Where the player cannot pay it, nothing
/// changes.
pub fn activate_user_vault(ctx: &mut ActivateUserVault, args: ActivateArgs) -> (r: Result<(), Failure<CasinoErr>>)
    requires
        old(ctx).player.lamports + old(ctx).user_vault.lamports <= u64::MAX,
    ensures
        old(ctx).player.lamports < args.initial_deposit ==> r == Err::<(), Failure<CasinoErr>>(
            Failure::System(SystemError::ResultWithNegativeLamports),
        ) && *final(ctx) == *old(ctx),
        old(ctx).player.lamports >= args.initial_deposit ==> r is Ok && *final(ctx) == (ActivateUserVault {
            player: Signer {
                lamports: (old(ctx).player.lamports - args.initial_deposit) as u64,
                ..old(ctx).player
            },
            user_vault: Account {
                lamports: (old(ctx).user_vault.lamports + args.initial_deposit) as u64,
                data: UserVault { owner: old(ctx).player.key, bump: old(ctx).bump, ..old(ctx).user_vault.data },
                ..old(ctx).user_vault
            },
            ..*old(ctx)
        }),
{
    if args.initial_deposit > 0 {
        if !transfer(&mut ctx.player.lamports, &mut ctx.user_vault.lamports, args.initial_deposit) {
            return Err(Failure::System(SystemError::ResultWithNegativeLamports));
        }
    }
    ctx.user_vault.data.owner = ctx.player.key;
    ctx.user_vault.data.bump = ctx.bump;
    Ok(())
}

/// Why `deposit_to_vault` refuses a request, if it does.
pub open spec fn deposit_refusal(ctx: DepositToVault, args: DepositArgs) -> Option<Failure<CasinoErr>> {
    if args.amount == 0 {
        Some(Failure::Program(CasinoErr::BadParams))
    } else if ctx.player.lamports < args.amount {
        Some(Failure::System(SystemError::ResultWithNegativeLamports))
    } else {
        None
    }
}

/// Pays `amount` from the player's wallet into the player's vault.
pub fn deposit_to_vault(ctx: &mut DepositToVault, args: DepositArgs) -> (r: Result<(), Failure<CasinoErr>>)
    requires
        old(ctx).player.lamports + old(ctx).user_vault.lamports <= u64::MAX,
    ensures
        match deposit_refusal(*old(ctx), args) {
            Some(e) => r == Err::<(), Failure<CasinoErr>>(e) && *final(ctx) == *old(ctx),
            None => r is Ok && *final(ctx) == (DepositToVault {
                player: Signer { lamports: (old(ctx).player.lamports - args.amount) as u64, ..old(ctx).player },
                user_vault: Account {
                    lamports: (old(ctx).user_vault.lamports + args.amount) as u64,
                    ..old(ctx).user_vault
                },
            }),
        },
{
    if args.amount == 0 {
        return Err(Failure::Program(CasinoErr::BadParams));
    }
    if !transfer(&mut ctx.player.lamports, &mut ctx.user_vault.lamports, args.amount) {
        return Err(Failure::System(SystemError::ResultWithNegativeLamports));
    }
    Ok(())
}

/// Pays `amount` from the player's vault back to the player's wallet.
pub fn withdraw_from_vault(ctx: &mut WithdrawFromVault, args: WithdrawArgs) -> (r: Result<(), Failure<CasinoErr>>)
    requires
        old(ctx).player.lamports + old(ctx).user_vault.lamports <= u64::MAX,
    ensures
        match safe_move_outcome(old(ctx).user_vault.lamports, args.amount) {
            Err(e) => r == Err::<(), Failure<CasinoErr>>(Failure::Program(e)) && *final(ctx) == *old(ctx),
            Ok(_) => r is Ok && *final(ctx) == (WithdrawFromVault {
                player: Signer { lamports: (old(ctx).player.lamports + args.amount) as u64, ..old(ctx).player },
                user_vault: Account {
                    lamports: (old(ctx).user_vault.lamports - args.amount) as u64,
                    ..old(ctx).user_vault
                },
            }),
        },
{
    if args.amount == 0 {
        return Err(Failure::Program(CasinoErr::BadParams));
    }
    match safe_move_lamports(&mut ctx.user_vault.lamports, &mut ctx.player.lamports, args.amount) {
        Ok(_) => Ok(()),
        Err(e) => Err(Failure::Program(e)),
    }
}

/// Why the stake of a lock cannot be taken from the player's vault, if it
/// cannot: the batch holds no signature check, the vault is not the player's,
/// or it does not cover the stake and the fee. `present` says whether the
/// batch holds a signature check.
pub open spec fn stake_refusal(
    present: bool,
    owner: Pubkey,
    player: Pubkey,
    vault_lamports: u64,
    stake: u64,
) -> Option<Failure<CasinoErr>> {
    if !present {
        Some(Failure::Program(CasinoErr::InvalidEd25519))
    } else if owner != player {
        Some(Failure::Program(CasinoErr::VaultMismatch))
    } else if vault_lamports < stake + FEE_REIMBURSE_LAMPORTS {
        Some(Failure::Program(CasinoErr::InsufficientVault))
    } else {
        None
    }
}

/// Checks who asks for a lock: a signature check in the batch, and a vault
/// recorded as the player's.
fn check_lock_access(present: bool, owner: &Pubkey, player: &Pubkey) -> (r: Result<(), Failure<CasinoErr>>)
    ensures
        !present ==> r == Err::<(), Failure<CasinoErr>>(Failure::Program(CasinoErr::InvalidEd25519)),
        present && *owner != *player ==> r == Err::<(), Failure<CasinoErr>>(
            Failure::Program(CasinoErr::VaultMismatch),
        ),
        present && *owner == *player ==> r is Ok,
{
    if !present {
        return Err(Failure::Program(CasinoErr::InvalidEd25519));
    }
    if !(*owner == *player) {
        return Err(Failure::Program(CasinoErr::VaultMismatch));
    }
    Ok(())
}

/// Moves a stake from the player's vault to the house vault and the fee to
/// the fee payer, or nothing where the vault does not cover both.
fn move_stake(user_vault: &mut u64, house_vault: &mut u64, fee_payer: &mut u64, stake: u64) -> (r: Result<
    (),
    Failure<CasinoErr>,
>)
    requires
        *old(user_vault) + *old(house_vault) + *old(fee_payer) <= u64::MAX,
        0 < stake <= MAX_BET_LAMPORTS,
    ensures
        *old(user_vault) < stake + FEE_REIMBURSE_LAMPORTS ==> {
            &&& r == Err::<(), Failure<CasinoErr>>(Failure::Program(CasinoErr::InsufficientVault))
            &&& *final(user_vault) == *old(user_vault)
            &&& *final(house_vault) == *old(house_vault)
            &&& *final(fee_payer) == *old(fee_payer)
        },
        *old(user_vault) >= stake + FEE_REIMBURSE_LAMPORTS ==> {
            &&& r is Ok
            &&& *final(user_vault) == *old(user_vault) - stake - FEE_REIMBURSE_LAMPORTS
            &&& *final(house_vault) == *old(house_vault) + stake
            &&& *final(fee_payer) == *old(fee_payer) + FEE_REIMBURSE_LAMPORTS
        },
{
    let need = stake.saturating_add(FEE_REIMBURSE_LAMPORTS);
    if *user_vault < need {
        return Err(Failure::Program(CasinoErr::InsufficientVault));
    }
    match safe_move_lamports(user_vault, house_vault, stake) {
        Ok(_) => {},
        Err(e) => {
            return Err(Failure::Program(e));
        },
    }
    if FEE_REIMBURSE_LAMPORTS > 0 {
        match safe_move_lamports(user_vault, fee_payer, FEE_REIMBURSE_LAMPORTS) {
            Ok(_) => {},
            Err(e) => {
                return Err(Failure::Program(e));
            },
        }
    }
    Ok(())
}

/// A locked dice bet that awaits settlement.
#[derive(Clone, Copy, Debug, PartialEq, Eq)]
pub struct PendingBet {
    pub player: Pubkey,
    pub amount: u64,
    /// Zero for under, one for over.
    pub bet_type: u8,
    pub target: u8,
    pub nonce: u64,
    pub expiry_unix: i64,
    pub settled: bool,
}

impl PendingBet {
    /// The bytes that the store sets aside for one record.
    pub const LEN: usize = 8 + 32 + 8 + 1 + 1 + 8 + 8 + 1;

    /// The bytes under which a dice bet is stored, after the store's own
    /// eight-byte tag: the fields in their order, each identity in 32 bytes,
    /// each number little-endian in its own width, the deadline in two's
    /// complement, the flag as one byte, zero or one.
    pub open spec fn encoding(self) -> Seq<u8> {
        self.player@
            + le_bytes(self.amount as nat, 8)
            + seq![self.bet_type]
            + seq![self.target]
            + le_bytes(self.nonce as nat, 8)
            + le_bytes(twos_complement(self.expiry_unix), 8)
            + seq![flag_byte(self.settled)]
    }

    /// Whether `decoded` is what the bytes decode to: the one record that is
    /// stored under exactly these bytes, or nothing where there is none.
    pub open spec fn is_decoding(bytes: Seq<u8>, decoded: Option<PendingBet>) -> bool {
        &&& decoded matches Some(record) ==> record.encoding() == bytes
        &&& forall|record: PendingBet| record.encoding() == bytes ==> decoded == Some(record)
    }

    /// Where each field lies in the encoding.
    pub proof fn lemma_layout(self)
        ensures
            self.encoding().len() == 59,
            self.encoding().subrange(0, 32) == self.player@,
            self.encoding().subrange(32, 40) == le_bytes(self.amount as nat, 8),
            self.encoding().subrange(40, 41) == seq![self.bet_type],
            self.encoding().subrange(41, 42) == seq![self.target],
            self.encoding().subrange(42, 50) == le_bytes(self.nonce as nat, 8),
            self.encoding().subrange(50, 58) == le_bytes(twos_complement(self.expiry_unix), 8),
            self.encoding().subrange(58, 59) == seq![flag_byte(self.settled)],
    {
        lemma_le_bytes_len(self.amount as nat, 8);
        lemma_le_bytes_len(self.nonce as nat, 8);
        lemma_le_bytes_len(twos_complement(self.expiry_unix), 8);
        assert(self.encoding().subrange(0, 32) =~= self.player@);
        assert(self.encoding().subrange(32, 40) =~= le_bytes(self.amount as nat, 8));
        assert(self.encoding().subrange(40, 41) =~= seq![self.bet_type]);
        assert(self.encoding().subrange(41, 42) =~= seq![self.target]);
        assert(self.encoding().subrange(42, 50) =~= le_bytes(self.nonce as nat, 8));
        assert(self.encoding().subrange(50, 58) =~= le_bytes(twos_complement(self.expiry_unix), 8));
        assert(self.encoding().subrange(58, 59) =~= seq![flag_byte(self.settled)]);
    }

    /// The encoding loses nothing: two records stored under the same bytes
    /// agree in every field.
    pub proof fn lemma_encoding_lossless(self, other: PendingBet)
        requires
            self.encoding() == other.encoding(),
        ensures
            self == other,
    {
        self.lemma_layout();
        other.lemma_layout();
        lemma_capacities();
        assert(self.player@ == other.player@);
        lemma_key_eq_by_bytes(self.player, other.player);
        assert(self.player == other.player);
        assert(le_bytes(self.amount as nat, 8) == le_bytes(other.amount as nat, 8));
        lemma_le_round_trip(self.amount as nat, 8);
        lemma_le_round_trip(other.amount as nat, 8);
        assert(self.amount == other.amount);
        assert(seq![self.bet_type] == seq![other.bet_type]);
        assert(seq![self.bet_type][0] == seq![other.bet_type][0]);
        assert(self.bet_type == other.bet_type);
        assert(seq![self.target] == seq![other.target]);
        assert(seq![self.target][0] == seq![other.target][0]);
        assert(self.target == other.target);
        assert(le_bytes(self.nonce as nat, 8) == le_bytes(other.nonce as nat, 8));
        lemma_le_round_trip(self.nonce as nat, 8);
        lemma_le_round_trip(other.nonce as nat, 8);
        assert(self.nonce == other.nonce);
        assert(le_bytes(twos_complement(self.expiry_unix), 8) == le_bytes(twos_complement(other.expiry_unix), 8));
        lemma_twos_complement_round_trip(self.expiry_unix);
        lemma_twos_complement_round_trip(other.expiry_unix);
        lemma_le_round_trip(twos_complement(self.expiry_unix), 8);
        lemma_le_round_trip(twos_complement(other.expiry_unix), 8);
        assert(self.expiry_unix == other.expiry_unix);
        assert(seq![flag_byte(self.settled)] == seq![flag_byte(other.settled)]);
        assert(seq![flag_byte(self.settled)][0] == seq![flag_byte(other.settled)][0]);
        assert(self.settled == other.settled);
    }

    /// Serializes the record.
    pub fn to_bytes(&self) -> (out: Vec<u8>)
        ensures
            out@ == self.encoding(),
            out@.len() == PendingBet::LEN - 8,
    {
        let mut out: Vec<u8> = Vec::new();
        assert(out@ + self.player@ =~= self.player@);
        put_bytes32(&mut out, &self.player.bytes);
        put_le(&mut out, self.amount, 8);
        let ghost before_bet_type = out@;
        out.push(self.bet_type);
        assert(out@ =~= before_bet_type + seq![self.bet_type]);
        let ghost before_target = out@;
        out.push(self.target);
        assert(out@ =~= before_target + seq![self.target]);
        put_le(&mut out, self.nonce, 8);
        put_le(&mut out, i64_bits(self.expiry_unix), 8);
        let ghost before_settled = out@;
        out.push(flag_to_byte(self.settled));
        assert(out@ =~= before_settled + seq![flag_byte(self.settled)]);
        proof {
            self.lemma_layout();
        }
        out
    }

    /// Deserializes a record: from bytes of the record's length whose flag
    /// byte is zero or one, and from no others.
    pub fn from_bytes(bytes: &Vec<u8>) -> (decoded: Option<PendingBet>)
        ensures
            PendingBet::is_decoding(bytes@, decoded),
            decoded is Some <==> bytes@.len() == 59 && bytes@[58] <= 1,
    {
        if bytes.len() != 59 || bytes[58] > 1 {
            proof {
                assert forall|record: PendingBet| record.encoding() != bytes@ by {
                    record.lemma_layout();
                    assert(record.encoding().subrange(58, 59)[0] == record.encoding()[58]);
                }
            }
            return None;
        }
        let player = Pubkey::from_bytes_at(bytes, 0);
        let amount: u64 = get_le(bytes, 32, 8);
        let bet_type: u8 = bytes[40];
        let target: u8 = bytes[41];
        let nonce: u64 = get_le(bytes, 42, 8);
        let expiry_unix: i64 = i64_from_bits(get_le(bytes, 50, 8));
        let settled: bool = bytes[58] == 1;
        let record = PendingBet { player, amount, bet_type, target, nonce, expiry_unix, settled };
        proof {
            lemma_capacities();
            lemma_twos_complement_of_bits(get_le_spec(bytes@, 50));
            lemma_le_bytes_of_value(bytes@.subrange(32, 40));
            assert(bytes@.subrange(40, 41) =~= seq![bet_type]);
            assert(bytes@.subrange(41, 42) =~= seq![target]);
            lemma_le_bytes_of_value(bytes@.subrange(42, 50));
            lemma_le_bytes_of_value(bytes@.subrange(50, 58));
            assert(bytes@.subrange(58, 59) =~= seq![flag_byte(settled)]);
            assert(bytes@ =~= bytes@.subrange(0, 32)
                + bytes@.subrange(32, 40)
                + bytes@.subrange(40, 41)
                + bytes@.subrange(41, 42)
                + bytes@.subrange(42, 50)
                + bytes@.subrange(50, 58)
                + bytes@.subrange(58, 59));
            assert(record.encoding() == bytes@);
            assert forall|other: PendingBet| other.encoding() == bytes@ implies other == record by {
                other.lemma_encoding_lossless(record);
            }
        }
        Some(record)
    }

    /// Serializing a record and deserializing the bytes gives the record
    /// back, identical in every field.
    pub proof fn lemma_round_trip(self, decoded: Option<PendingBet>)
        requires
            PendingBet::is_decoding(self.encoding(), decoded),
        ensures
            decoded == Some(self),
    {
    }
}

/// The notification of a locked dice bet.
#[derive(Clone, Copy, Debug, PartialEq, Eq)]
pub struct DiceLocked {
    pub player: Pubkey,
    pub amount: u64,
    /// Zero for under, one for over.
    pub bet_type: u8,
    pub target: u8,
    pub nonce: u64,
}

/// The notification of a settled dice bet.
#[derive(Clone, Copy, Debug, PartialEq, Eq)]
pub struct DiceResolved {
    pub player: Pubkey,
    pub win: bool,
    pub roll: u8,
    pub payout: u64,
    pub nonce: u64,
}

#[derive(Clone, Copy, Debug, PartialEq, Eq)]
pub struct DiceLockArgs {
    pub bet_amount: u64,
    /// Zero for under, one for over.
    pub bet_type: u8,
    pub target: u8,
    pub nonce: u64,
    pub expiry_unix: i64,
    pub ed25519_instr_index: u8,
}

#[derive(Clone, Copy, Debug, PartialEq, Eq)]
pub struct DiceResolveArgs {
    pub roll: u8,
    pub payout: u64,
    pub ed25519_instr_index: u8,
}

/// The accounts of `dice_lock`, with the data of the batch's instructions record;
/// `pending_bet` is the fresh record that the store opened under the player and the
/// nonce.
#[derive(Clone, Debug, PartialEq, Eq)]
pub struct DiceLock {
    pub player: SystemAccount,
    pub fee_payer: Signer,
    pub user_vault: Account<UserVault>,
    pub house_vault: SystemAccount,
    pub pending_bet: Account<PendingBet>,
    pub sysvar_instructions: Vec<u8>,
}

/// The accounts of `dice_resolve`, with the data of the batch's instructions
/// record.
#[derive(Clone, Debug, PartialEq, Eq)]
pub struct DiceResolve {
    pub player: SystemAccount,
    pub house_vault: SystemAccount,
    pub admin_config: Account<AdminConfig>,
    pub user_vault: Account<UserVault>,
    pub pending_bet: Account<PendingBet>,
    pub sysvar_instructions: Vec<u8>,
}

impl DiceLock {
    /// The funds of the request fit the unit of account.
    pub open spec fn wf(&self) -> bool {
        self.user_vault.lamports + self.house_vault.lamports + self.fee_payer.lamports <= u64::MAX
    }
}

impl DiceResolve {
    /// The funds of the request fit the unit of account.
    pub open spec fn wf(&self) -> bool {
        self.total() <= u64::MAX
    }

    /// All the funds that the settlement can touch.
    pub open spec fn total(&self) -> int {
        self.house_vault.lamports + self.user_vault.lamports + self.pending_bet.lamports
    }
}

/// Whether the terms of a dice bet are in their domains.
pub open spec fn dice_terms_valid(args: DiceLockArgs) -> bool {
    &&& MIN_BET_LAMPORTS <= args.bet_amount <= MAX_BET_LAMPORTS
    &&& 2 <= args.target <= 98
    &&& args.bet_type <= 1
}

/// The stake that a dice bet escrows.
pub open spec fn dice_stake(args: DiceLockArgs) -> u64 {
    args.bet_amount
}

/// Why a lock of a dice bet is refused, if it is: the first rule that the
/// request breaks. `present` says whether the batch holds a signature check.
pub open spec fn dice_lock_refusal(ctx: DiceLock, args: DiceLockArgs, present: bool) -> Option<Failure<CasinoErr>> {
    if !dice_terms_valid(args) {
        Some(Failure::Program(CasinoErr::BadParams))
    } else {
        stake_refusal(
            present,
            ctx.user_vault.data.owner,
            ctx.player.key,
            ctx.user_vault.lamports,
            args.bet_amount,
        )
    }
}

/// The accounts after a lock that was accepted: the stake has moved from the
/// player's vault to the house vault, the fee to the fee payer, and the
/// record holds the terms, unsettled.
pub open spec fn dice_locked(ctx: DiceLock, args: DiceLockArgs) -> DiceLock {
    DiceLock {
        fee_payer: Signer { lamports: (ctx.fee_payer.lamports + FEE_REIMBURSE_LAMPORTS) as u64, ..ctx.fee_payer },
        user_vault: Account {
            lamports: (ctx.user_vault.lamports - dice_stake(args) - FEE_REIMBURSE_LAMPORTS) as u64,
            ..ctx.user_vault
        },
        house_vault: SystemAccount {
            lamports: (ctx.house_vault.lamports + dice_stake(args)) as u64,
            ..ctx.house_vault
        },
        pending_bet: Account {
            data: PendingBet {
                player: ctx.player.key,
                amount: args.bet_amount,
                bet_type: args.bet_type,
                target: args.target,
                nonce: args.nonce,
                expiry_unix: args.expiry_unix,
                settled: false,
            },
            ..ctx.pending_bet
        },
        ..ctx
    }
}

/// Escrows the stake of a dice bet from the player's vault in the house vault,
/// reimburses the fee payer, and opens the pending record, given whether the
/// batch holds a signature check. Every check comes before any movement: a
/// refused request changes nothing.
pub fn dice_lock_with_check(ctx: &mut DiceLock, args: DiceLockArgs, present: bool) -> (r: Result<
    DiceLocked,
    Failure<CasinoErr>,
>)
    requires
        old(ctx).wf(),
    ensures
        match dice_lock_refusal(*old(ctx), args, present) {
            Some(e) => r == Err::<DiceLocked, Failure<CasinoErr>>(e) && *final(ctx) == *old(ctx),
            None => r == Ok::<DiceLocked, Failure<CasinoErr>>(
                DiceLocked { player: old(ctx).player.key, amount: args.bet_amount, bet_type: args.bet_type, target: args.target, nonce: args.nonce },
            ) && *final(ctx) == dice_locked(*old(ctx), args),
        },
        r is Ok ==> final(ctx).house_vault.lamports == old(ctx).house_vault.lamports + dice_stake(args)
            && final(ctx).user_vault.lamports == old(ctx).user_vault.lamports - dice_stake(args)
            - FEE_REIMBURSE_LAMPORTS && final(ctx).fee_payer.lamports == old(ctx).fee_payer.lamports
            + FEE_REIMBURSE_LAMPORTS,
        final(ctx).wf(),
{
    if !(args.bet_amount >= MIN_BET_LAMPORTS && args.bet_amount <= MAX_BET_LAMPORTS) {
        return Err(Failure::Program(CasinoErr::BadParams));
    }
    if !(args.target >= 2 && args.target <= 98) {
        return Err(Failure::Program(CasinoErr::BadParams));
    }
    if !(args.bet_type <= 1) {
        return Err(Failure::Program(CasinoErr::BadParams));
    }
    match check_lock_access(present, &ctx.user_vault.data.owner, &ctx.player.key) {
        Ok(_) => {},
        Err(e) => {
            return Err(e);
        },
    }
    match move_stake(
        &mut ctx.user_vault.lamports,
        &mut ctx.house_vault.lamports,
        &mut ctx.fee_payer.lamports,
        args.bet_amount,
    ) {
        Ok(_) => {},
        Err(e) => {
            return Err(e);
        },
    }
    ctx.pending_bet.data.player = ctx.player.key;
    ctx.pending_bet.data.amount = args.bet_amount;
    ctx.pending_bet.data.bet_type = args.bet_type;
    ctx.pending_bet.data.target = args.target;
    ctx.pending_bet.data.nonce = args.nonce;
    ctx.pending_bet.data.expiry_unix = args.expiry_unix;
    ctx.pending_bet.data.settled = false;
    Ok(DiceLocked { player: ctx.player.key, amount: args.bet_amount, bet_type: args.bet_type, target: args.target, nonce: args.nonce })
}

/// Escrows the stake of a dice bet: looks for a signature check in the batch,
/// by the index hint or by a scan, and locks with what was found, as
/// `dice_lock_with_check` does.
pub fn dice_lock(ctx: &mut DiceLock, args: DiceLockArgs) -> (r: Result<DiceLocked, Failure<CasinoErr>>)
    requires
        old(ctx).wf(),
    ensures
        match dice_lock_refusal(
            *old(ctx),
            args,
            ed25519_present(old(ctx).sysvar_instructions@, args.ed25519_instr_index),
        ) {
            Some(e) => r == Err::<DiceLocked, Failure<CasinoErr>>(e) && *final(ctx) == *old(ctx),
            None => r == Ok::<DiceLocked, Failure<CasinoErr>>(
                DiceLocked { player: old(ctx).player.key, amount: args.bet_amount, bet_type: args.bet_type, target: args.target, nonce: args.nonce },
            ) && *final(ctx) == dice_locked(*old(ctx), args),
        },
        r is Ok ==> final(ctx).house_vault.lamports == old(ctx).house_vault.lamports + dice_stake(args)
            && final(ctx).user_vault.lamports == old(ctx).user_vault.lamports - dice_stake(args)
            - FEE_REIMBURSE_LAMPORTS && final(ctx).fee_payer.lamports == old(ctx).fee_payer.lamports
            + FEE_REIMBURSE_LAMPORTS,
        final(ctx).wf(),
{
    let present = require_ed25519_present(&ctx.sysvar_instructions, args.ed25519_instr_index).is_ok();
    dice_lock_with_check(ctx, args, present)
}

/// Why a settlement of a dice bet is refused at time `now`, if it is: the
/// first rule that the request breaks. `check` is the data of the signature
/// check that the batch holds, if it holds one.
pub open spec fn dice_resolve_refusal(ctx: DiceResolve, args: DiceResolveArgs, now: i64, check: Option<Seq<u8>>) -> Option<
    Failure<CasinoErr>,
> {
    let record = ctx.pending_bet.data;
    if record.settled {
        Some(Failure::Program(CasinoErr::BadPending))
    } else if now > record.expiry_unix {
        Some(Failure::Program(CasinoErr::Expired))
    } else if !made_with(check, ctx.admin_config.data.admin_pubkey@) {
        Some(Failure::Program(CasinoErr::InvalidEd25519))
    } else if !(1 <= args.roll <= 100) {
        Some(Failure::Program(CasinoErr::BadParams))
    } else if dice_wins(record.bet_type, record.target, args.roll) && !(0 < args.payout <= MAX_PAYOUT_LAMPORTS) {
        Some(Failure::Program(CasinoErr::BadPayout))
    } else if !dice_wins(record.bet_type, record.target, args.roll) && args.payout != 0 {
        Some(Failure::Program(CasinoErr::BadPayout))
    } else if ctx.house_vault.lamports < args.payout {
        Some(Failure::System(SystemError::ResultWithNegativeLamports))
    } else {
        None
    }
}

/// The accounts after a settlement that was accepted: the payout has left the
/// house vault for the player's vault, the record is settled, and the funds
/// that rested on the record are the vault's.
pub open spec fn dice_resolved(ctx: DiceResolve, args: DiceResolveArgs) -> DiceResolve {
    DiceResolve {
        house_vault: SystemAccount {
            lamports: (ctx.house_vault.lamports - args.payout) as u64,
            ..ctx.house_vault
        },
        user_vault: Account {
            lamports: (ctx.user_vault.lamports + args.payout + ctx.pending_bet.lamports) as u64,
            ..ctx.user_vault
        },
        pending_bet: Account { lamports: 0, data: PendingBet { settled: true, ..ctx.pending_bet.data }, ..ctx.pending_bet },
        ..ctx
    }
}

/// The notification of a settlement that was accepted.
pub open spec fn dice_resolved_event(ctx: DiceResolve, args: DiceResolveArgs) -> DiceResolved {
    DiceResolved {
        player: ctx.pending_bet.data.player,
        win: dice_wins(ctx.pending_bet.data.bet_type, ctx.pending_bet.data.target, args.roll),
        roll: args.roll,
        payout: args.payout,
        nonce: ctx.pending_bet.data.nonce,
    }
}

/// Settles a pending dice bet at time `now`, given the signature check that
/// was found in the batch, if one was: checks that the record is unsettled
/// and unexpired and that the signature check was made with the backend's
/// key, holds the declared outcome to the game's rule and the payout to the
/// cap, pays the player's vault from the house vault, marks the record
/// settled and hands the record's funds to the player's vault. A refused
/// request changes nothing.
pub fn dice_resolve_with_check(ctx: &mut DiceResolve, args: DiceResolveArgs, now: i64, check: Option<BatchInstruction>) -> (r:
    Result<DiceResolved, Failure<CasinoErr>>)
    requires
        old(ctx).wf(),
    ensures
        match dice_resolve_refusal(*old(ctx), args, now, check_data(check)) {
            Some(e) => r == Err::<DiceResolved, Failure<CasinoErr>>(e) && *final(ctx) == *old(ctx),
            None => r == Ok::<DiceResolved, Failure<CasinoErr>>(dice_resolved_event(*old(ctx), args)) && *final(ctx)
                == dice_resolved(*old(ctx), args),
        },
        old(ctx).pending_bet.data.settled ==> r == Err::<DiceResolved, Failure<CasinoErr>>(
            Failure::Program(CasinoErr::BadPending),
        ),
        !old(ctx).pending_bet.data.settled && now > old(ctx).pending_bet.data.expiry_unix ==> r == Err::<
            DiceResolved,
            Failure<CasinoErr>,
        >(Failure::Program(CasinoErr::Expired)),
        r is Ok ==> made_with(check_data(check), old(ctx).admin_config.data.admin_pubkey@),
        r is Ok ==> final(ctx).pending_bet.data.settled && args.payout <= MAX_PAYOUT_LAMPORTS,
        final(ctx).total() == old(ctx).total(),
        final(ctx).wf(),
{
    if ctx.pending_bet.data.settled {
        return Err(Failure::Program(CasinoErr::BadPending));
    }
    if now > ctx.pending_bet.data.expiry_unix {
        return Err(Failure::Program(CasinoErr::Expired));
    }
    if !is_made_with(&check, &ctx.admin_config.data.admin_pubkey) {
        return Err(Failure::Program(CasinoErr::InvalidEd25519));
    }
    if !(args.roll >= 1 && args.roll <= 100) {
        return Err(Failure::Program(CasinoErr::BadParams));
    }
    let win = dice_win(ctx.pending_bet.data.bet_type, ctx.pending_bet.data.target, args.roll);
    if win {
        if !(args.payout > 0 && args.payout <= MAX_PAYOUT_LAMPORTS) {
            return Err(Failure::Program(CasinoErr::BadPayout));
        }
    } else if args.payout != 0 {
        return Err(Failure::Program(CasinoErr::BadPayout));
    }
    if args.payout > 0 {
        if !transfer(&mut ctx.house_vault.lamports, &mut ctx.user_vault.lamports, args.payout) {
            return Err(Failure::System(SystemError::ResultWithNegativeLamports));
        }
    }
    ctx.pending_bet.data.settled = true;
    let refund = ctx.pending_bet.lamports;
    ctx.pending_bet.lamports = 0;
    ctx.user_vault.lamports = ctx.user_vault.lamports + refund;
    Ok(
        DiceResolved {
            player: ctx.pending_bet.data.player,
            win: win,
            roll: args.roll,
            payout: args.payout,
            nonce: ctx.pending_bet.data.nonce,
        },
    )
}

/// Settles a pending dice bet at time `now`: locates the signature check in
/// the batch, by the index hint or by a scan, and settles with what was
/// found, as `dice_resolve_with_check` does.
pub fn dice_resolve(ctx: &mut DiceResolve, args: DiceResolveArgs, now: i64) -> (r: Result<DiceResolved, Failure<CasinoErr>>)
    requires
        old(ctx).wf(),
    ensures
        match dice_resolve_refusal(
            *old(ctx),
            args,
            now,
            signature_data(old(ctx).sysvar_instructions@, args.ed25519_instr_index),
        ) {
            Some(e) => r == Err::<DiceResolved, Failure<CasinoErr>>(e) && *final(ctx) == *old(ctx),
            None => r == Ok::<DiceResolved, Failure<CasinoErr>>(dice_resolved_event(*old(ctx), args)) && *final(ctx)
                == dice_resolved(*old(ctx), args),
        },
        old(ctx).pending_bet.data.settled ==> r == Err::<DiceResolved, Failure<CasinoErr>>(
            Failure::Program(CasinoErr::BadPending),
        ),
        !old(ctx).pending_bet.data.settled && now > old(ctx).pending_bet.data.expiry_unix ==> r == Err::<
            DiceResolved,
            Failure<CasinoErr>,
        >(Failure::Program(CasinoErr::Expired)),
        r is Ok ==> final(ctx).pending_bet.data.settled && args.payout <= MAX_PAYOUT_LAMPORTS,
        final(ctx).total() == old(ctx).total(),
        final(ctx).wf(),
{
    let check = find_ed25519(&ctx.sysvar_instructions, args.ed25519_instr_index);
    dice_resolve_with_check(ctx, args, now, check)
}

/// A dice bet that was settled is never settled again: after a settlement that
/// was accepted, every further settlement of the same record is refused as
/// already settled, whatever it declares, whatever the batch holds and
/// whenever it comes.
pub proof fn lemma_dice_settled_once(
    ctx: DiceResolve,
    first: DiceResolveArgs,
    at: i64,
    check: Option<Seq<u8>>,
    second: DiceResolveArgs,
    later: i64,
    second_check: Option<Seq<u8>>,
)
    requires
        dice_resolve_refusal(ctx, first, at, check) is None,
    ensures
        dice_resolve_refusal(dice_resolved(ctx, first), second, later, second_check) == Some(
            Failure::<CasinoErr>::Program(CasinoErr::BadPending),
        ),
{
}

/// A settlement that comes after the deadline of an unsettled dice bet is
/// refused as expired, however valid the rest of it is.
pub proof fn lemma_dice_expired_is_refused(ctx: DiceResolve, args: DiceResolveArgs, now: i64, check: Option<Seq<u8>>)
    requires
        !ctx.pending_bet.data.settled,
        now > ctx.pending_bet.data.expiry_unix,
    ensures
        dice_resolve_refusal(ctx, args, now, check) == Some(Failure::<CasinoErr>::Program(CasinoErr::Expired)),
{
}

/// Authorization fails closed: a settlement of a dice bet whose signature
/// check was made with a key other than the configured backend key is
/// refused, and so is one with no signature check at all; on a record that
/// is open and in time, as `InvalidEd25519`.
pub proof fn lemma_dice_foreign_key_is_refused(ctx: DiceResolve, args: DiceResolveArgs, now: i64, check: Option<Seq<u8>>)
    requires
        match check {
            Some(d) => signed_pubkey(d) != ctx.admin_config.data.admin_pubkey@,
            None => true,
        },
    ensures
        dice_resolve_refusal(ctx, args, now, check) is Some,
        !ctx.pending_bet.data.settled && now <= ctx.pending_bet.data.expiry_unix ==> dice_resolve_refusal(ctx, args, now, check)
            == Some(Failure::<CasinoErr>::Program(CasinoErr::InvalidEd25519)),
{
}

/// A locked mines round that awaits settlement.
#[derive(Clone, Copy, Debug, PartialEq, Eq)]
pub struct PendingRound {
    pub player: Pubkey,
    pub amount: u64,
    pub rows: u8,
    pub cols: u8,
    pub mines: u8,
    pub nonce: u64,
    pub expiry_unix: i64,
    pub settled: bool,
}

impl PendingRound {
    /// The bytes that the store sets aside for one record.
    pub const LEN: usize = 8 + 32 + 8 + 1 + 1 + 1 + 8 + 8 + 1;

    /// The bytes under which a mines round is stored, after the store's own
    /// eight-byte tag: the fields in their order, each identity in 32 bytes,
    /// each number little-endian in its own width, the deadline in two's
    /// complement, the flag as one byte, zero or one.
    pub open spec fn encoding(self) -> Seq<u8> {
        self.player@
            + le_bytes(self.amount as nat, 8)
            + seq![self.rows]
            + seq![self.cols]
            + seq![self.mines]
            + le_bytes(self.nonce as nat, 8)
            + le_bytes(twos_complement(self.expiry_unix), 8)
            + seq![flag_byte(self.settled)]
    }

    /// Whether `decoded` is what the bytes decode to: the one record that is
    /// stored under exactly these bytes, or nothing where there is none.
    pub open spec fn is_decoding(bytes: Seq<u8>, decoded: Option<PendingRound>) -> bool {
        &&& decoded matches Some(record) ==> record.encoding() == bytes
        &&& forall|record: PendingRound| record.encoding() == bytes ==> decoded == Some(record)
    }

    /// Where each field lies in the encoding.
    pub proof fn lemma_layout(self)
        ensures
            self.encoding().len() == 60,
            self.encoding().subrange(0, 32) == self.player@,
            self.encoding().subrange(32, 40) == le_bytes(self.amount as nat, 8),
            self.encoding().subrange(40, 41) == seq![self.rows],
            self.encoding().subrange(41, 42) == seq![self.cols],
            self.encoding().subrange(42, 43) == seq![self.mines],
            self.encoding().subrange(43, 51) == le_bytes(self.nonce as nat, 8),
            self.encoding().subrange(51, 59) == le_bytes(twos_complement(self.expiry_unix), 8),
            self.encoding().subrange(59, 60) == seq![flag_byte(self.settled)],
    {
        lemma_le_bytes_len(self.amount as nat, 8);
        lemma_le_bytes_len(self.nonce as nat, 8);
        lemma_le_bytes_len(twos_complement(self.expiry_unix), 8);
        assert(self.encoding().subrange(0, 32) =~= self.player@);
        assert(self.encoding().subrange(32, 40) =~= le_bytes(self.amount as nat, 8));
        assert(self.encoding().subrange(40, 41) =~= seq![self.rows]);
        assert(self.encoding().subrange(41, 42) =~= seq![self.cols]);
        assert(self.encoding().subrange(42, 43) =~= seq![self.mines]);
        assert(self.encoding().subrange(43, 51) =~= le_bytes(self.nonce as nat, 8));
        assert(self.encoding().subrange(51, 59) =~= le_bytes(twos_complement(self.expiry_unix), 8));
        assert(self.encoding().subrange(59, 60) =~= seq![flag_byte(self.settled)]);
    }

    /// The encoding loses nothing: two records stored under the same bytes
    /// agree in every field.
    pub proof fn lemma_encoding_lossless(self, other: PendingRound)
        requires
            self.encoding() == other.encoding(),
        ensures
            self == other,
    {
        self.lemma_layout();
        other.lemma_layout();
        lemma_capacities();
        assert(self.player@ == other.player@);
        lemma_key_eq_by_bytes(self.player, other.player);
        assert(self.player == other.player);
        assert(le_bytes(self.amount as nat, 8) == le_bytes(other.amount as nat, 8));
        lemma_le_round_trip(self.amount as nat, 8);
        lemma_le_round_trip(other.amount as nat, 8);
        assert(self.amount == other.amount);
        assert(seq![self.rows] == seq![other.rows]);
        assert(seq![self.rows][0] == seq![other.rows][0]);
        assert(self.rows == other.rows);
        assert(seq![self.cols] == seq![other.cols]);
        assert(seq![self.cols][0] == seq![other.cols][0]);
        assert(self.cols == other.cols);
        assert(seq![self.mines] == seq![other.mines]);
        assert(seq![self.mines][0] == seq![other.mines][0]);
        assert(self.mines == other.mines);
        assert(le_bytes(self.nonce as nat, 8) == le_bytes(other.nonce as nat, 8));
        lemma_le_round_trip(self.nonce as nat, 8);
        lemma_le_round_trip(other.nonce as nat, 8);
        assert(self.nonce == other.nonce);
        assert(le_bytes(twos_complement(self.expiry_unix), 8) == le_bytes(twos_complement(other.expiry_unix), 8));
        lemma_twos_complement_round_trip(self.expiry_unix);
        lemma_twos_complement_round_trip(other.expiry_unix);
        lemma_le_round_trip(twos_complement(self.expiry_unix), 8);
        lemma_le_round_trip(twos_complement(other.expiry_unix), 8);
        assert(self.expiry_unix == other.expiry_unix);
        assert(seq![flag_byte(self.settled)] == seq![flag_byte(other.settled)]);
        assert(seq![flag_byte(self.settled)][0] == seq![flag_byte(other.settled)][0]);
        assert(self.settled == other.settled);
    }

    /// Serializes the record.
    pub fn to_bytes(&self) -> (out: Vec<u8>)
        ensures
            out@ == self.encoding(),
            out@.len() == PendingRound::LEN - 8,
    {
        let mut out: Vec<u8> = Vec::new();
        assert(out@ + self.player@ =~= self.player@);
        put_bytes32(&mut out, &self.player.bytes);
        put_le(&mut out, self.amount, 8);
        let ghost before_rows = out@;
        out.push(self.rows);
        assert(out@ =~= before_rows + seq![self.rows]);
        let ghost before_cols = out@;
        out.push(self.cols);
        assert(out@ =~= before_cols + seq![self.cols]);
        let ghost before_mines = out@;
        out.push(self.mines);
        assert(out@ =~= before_mines + seq![self.mines]);
        put_le(&mut out, self.nonce, 8);
        put_le(&mut out, i64_bits(self.expiry_unix), 8);
        let ghost before_settled = out@;
        out.push(flag_to_byte(self.settled));
        assert(out@ =~= before_settled + seq![flag_byte(self.settled)]);
        proof {
            self.lemma_layout();
        }
        out
    }

    /// Deserializes a record: from bytes of the record's length whose flag
    /// byte is zero or one, and from no others.
    pub fn from_bytes(bytes: &Vec<u8>) -> (decoded: Option<PendingRound>)
        ensures
            PendingRound::is_decoding(bytes@, decoded),
            decoded is Some <==> bytes@.len() == 60 && bytes@[59] <= 1,
    {
        if bytes.len() != 60 || bytes[59] > 1 {
            proof {
                assert forall|record: PendingRound| record.encoding() != bytes@ by {
                    record.lemma_layout();
                    assert(record.encoding().subrange(59, 60)[0] == record.encoding()[59]);
                }
            }
            return None;
        }
        let player = Pubkey::from_bytes_at(bytes, 0);
        let amount: u64 = get_le(bytes, 32, 8);
        let rows: u8 = bytes[40];
        let cols: u8 = bytes[41];
        let mines: u8 = bytes[42];
        let nonce: u64 = get_le(bytes, 43, 8);
        let expiry_unix: i64 = i64_from_bits(get_le(bytes, 51, 8));
        let settled: bool = bytes[59] == 1;
        let record = PendingRound { player, amount, rows, cols, mines, nonce, expiry_unix, settled };
        proof {
            lemma_capacities();
            lemma_twos_complement_of_bits(get_le_spec(bytes@, 51));
            lemma_le_bytes_of_value(bytes@.subrange(32, 40));
            assert(bytes@.subrange(40, 41) =~= seq![rows]);
            assert(bytes@.subrange(41, 42) =~= seq![cols]);
            assert(bytes@.subrange(42, 43) =~= seq![mines]);
            lemma_le_bytes_of_value(bytes@.subrange(43, 51));
            lemma_le_bytes_of_value(bytes@.subrange(51, 59));
            assert(bytes@.subrange(59, 60) =~= seq![flag_byte(settled)]);
            assert(bytes@ =~= bytes@.subrange(0, 32)
                + bytes@.subrange(32, 40)
                + bytes@.subrange(40, 41)
                + bytes@.subrange(41, 42)
                + bytes@.subrange(42, 43)
                + bytes@.subrange(43, 51)
                + bytes@.subrange(51, 59)
                + bytes@.subrange(59, 60));
            assert(record.encoding() == bytes@);
            assert forall|other: PendingRound| other.encoding() == bytes@ implies other == record by {
                other.lemma_encoding_lossless(record);
            }
        }
        Some(record)
    }

    /// Serializing a record and deserializing the bytes gives the record
    /// back, identical in every field.
    pub proof fn lemma_round_trip(self, decoded: Option<PendingRound>)
        requires
            PendingRound::is_decoding(self.encoding(), decoded),
        ensures
            decoded == Some(self),
    {
    }
}

/// The notification of a locked mines round.
#[derive(Clone, Copy, Debug, PartialEq, Eq)]
pub struct MinesLocked {
    pub player: Pubkey,
    pub amount: u64,
    pub rows: u8,
    pub cols: u8,
    pub mines: u8,
    pub nonce: u64,
}

/// The notification of a settled mines round.
#[derive(Clone, Copy, Debug, PartialEq, Eq)]
pub struct MinesResolved {
    pub player: Pubkey,
    pub payout: u64,
    pub checksum: u8,
    pub nonce: u64,
}

#[derive(Clone, Copy, Debug, PartialEq, Eq)]
pub struct MinesLockArgs {
    pub bet_amount: u64,
    pub rows: u8,
    pub cols: u8,
    pub mines: u8,
    pub nonce: u64,
    pub expiry_unix: i64,
    pub ed25519_instr_index: u8,
}

#[derive(Clone, Copy, Debug, PartialEq, Eq)]
pub struct MinesResolveArgs {
    pub checksum: u8,
    pub payout: u64,
    pub ed25519_instr_index: u8,
}

/// The accounts of `mines_lock`, with the data of the batch's instructions record;
/// `pending` is the fresh record that the store opened under the player and the
/// nonce.
#[derive(Clone, Debug, PartialEq, Eq)]
pub struct MinesLock {
    pub player: SystemAccount,
    pub fee_payer: Signer,
    pub user_vault: Account<UserVault>,
    pub house_vault: SystemAccount,
    pub pending: Account<PendingRound>,
    pub sysvar_instructions: Vec<u8>,
}

/// The accounts of `mines_resolve`, with the data of the batch's instructions
/// record.
#[derive(Clone, Debug, PartialEq, Eq)]
pub struct MinesResolve {
    pub player: SystemAccount,
    pub house_vault: SystemAccount,
    pub admin_config: Account<AdminConfig>,
    pub user_vault: Account<UserVault>,
    pub pending: Account<PendingRound>,
    pub sysvar_instructions: Vec<u8>,
}

impl MinesLock {
    /// The funds of the request fit the unit of account.
    pub open spec fn wf(&self) -> bool {
        self.user_vault.lamports + self.house_vault.lamports + self.fee_payer.lamports <= u64::MAX
    }
}

impl MinesResolve {
    /// The funds of the request fit the unit of account.
    pub open spec fn wf(&self) -> bool {
        self.total() <= u64::MAX
    }

    /// All the funds that the settlement can touch.
    pub open spec fn total(&self) -> int {
        self.house_vault.lamports + self.user_vault.lamports + self.pending.lamports
    }
}

/// Whether the terms of a mines round are in their domains.
pub open spec fn mines_terms_valid(args: MinesLockArgs) -> bool {
    &&& MIN_BET_LAMPORTS <= args.bet_amount <= MAX_BET_LAMPORTS
    &&& valid_board(args.rows, args.cols, args.mines)
}

/// The stake that a mines round escrows.
pub open spec fn mines_stake(args: MinesLockArgs) -> u64 {
    args.bet_amount
}

/// Why a lock of a mines round is refused, if it is: the first rule that the
/// request breaks. `present` says whether the batch holds a signature check.
pub open spec fn mines_lock_refusal(ctx: MinesLock, args: MinesLockArgs, present: bool) -> Option<Failure<CasinoErr>> {
    if !mines_terms_valid(args) {
        Some(Failure::Program(CasinoErr::BadParams))
    } else {
        stake_refusal(
            present,
            ctx.user_vault.data.owner,
            ctx.player.key,
            ctx.user_vault.lamports,
            args.bet_amount,
        )
    }
}

/// The accounts after a lock that was accepted: the stake has moved from the
/// player's vault to the house vault, the fee to the fee payer, and the
/// record holds the terms, unsettled.
pub open spec fn mines_locked(ctx: MinesLock, args: MinesLockArgs) -> MinesLock {
    MinesLock {
        fee_payer: Signer { lamports: (ctx.fee_payer.lamports + FEE_REIMBURSE_LAMPORTS) as u64, ..ctx.fee_payer },
        user_vault: Account {
            lamports: (ctx.user_vault.lamports - mines_stake(args) - FEE_REIMBURSE_LAMPORTS) as u64,
            ..ctx.user_vault
        },
        house_vault: SystemAccount {
            lamports: (ctx.house_vault.lamports + mines_stake(args)) as u64,
            ..ctx.house_vault
        },
        pending: Account {
            data: PendingRound {
                player: ctx.player.key,
                amount: args.bet_amount,
                rows: args.rows,
                cols: args.cols,
                mines: args.mines,
                nonce: args.nonce,
                expiry_unix: args.expiry_unix,
                settled: false,
            },
            ..ctx.pending
        },
        ..ctx
    }
}

/// Escrows the stake of a mines round from the player's vault in the house vault,
/// reimburses the fee payer, and opens the pending record, given whether the
/// batch holds a signature check. Every check comes before any movement: a
/// refused request changes nothing.
pub fn mines_lock_with_check(ctx: &mut MinesLock, args: MinesLockArgs, present: bool) -> (r: Result<
    MinesLocked,
    Failure<CasinoErr>,
>)
    requires
        old(ctx).wf(),
    ensures
        match mines_lock_refusal(*old(ctx), args, present) {
            Some(e) => r == Err::<MinesLocked, Failure<CasinoErr>>(e) && *final(ctx) == *old(ctx),
            None => r == Ok::<MinesLocked, Failure<CasinoErr>>(
                MinesLocked { player: old(ctx).player.key, amount: args.bet_amount, rows: args.rows, cols: args.cols, mines: args.mines, nonce: args.nonce },
            ) && *final(ctx) == mines_locked(*old(ctx), args),
        },
        r is Ok ==> final(ctx).house_vault.lamports == old(ctx).house_vault.lamports + mines_stake(args)
            && final(ctx).user_vault.lamports == old(ctx).user_vault.lamports - mines_stake(args)
            - FEE_REIMBURSE_LAMPORTS && final(ctx).fee_payer.lamports == old(ctx).fee_payer.lamports
            + FEE_REIMBURSE_LAMPORTS,
        final(ctx).wf(),
{
    if !(args.bet_amount >= MIN_BET_LAMPORTS && args.bet_amount <= MAX_BET_LAMPORTS) {
        return Err(Failure::Program(CasinoErr::BadParams));
    }
    if !(args.rows >= 2 && args.rows <= 8) {
        return Err(Failure::Program(CasinoErr::BadParams));
    }
    if !(args.cols >= 2 && args.cols <= 8) {
        return Err(Failure::Program(CasinoErr::BadParams));
    }
    assert((args.rows as int) * (args.cols as int) <= 64) by (nonlinear_arith)
        requires
            0 <= args.rows as int <= 8,
            0 <= args.cols as int <= 8,
    ;
    let total: u16 = (args.rows as u16) * (args.cols as u16);
    if !(args.mines >= 1 && (args.mines as u16) < total) {
        return Err(Failure::Program(CasinoErr::BadParams));
    }
    match check_lock_access(present, &ctx.user_vault.data.owner, &ctx.player.key) {
        Ok(_) => {},
        Err(e) => {
            return Err(e);
        },
    }
    match move_stake(
        &mut ctx.user_vault.lamports,
        &mut ctx.house_vault.lamports,
        &mut ctx.fee_payer.lamports,
        args.bet_amount,
    ) {
        Ok(_) => {},
        Err(e) => {
            return Err(e);
        },
    }
    ctx.pending.data.player = ctx.player.key;
    ctx.pending.data.amount = args.bet_amount;
    ctx.pending.data.rows = args.rows;
    ctx.pending.data.cols = args.cols;
    ctx.pending.data.mines = args.mines;
    ctx.pending.data.nonce = args.nonce;
    ctx.pending.data.expiry_unix = args.expiry_unix;
    ctx.pending.data.settled = false;
    Ok(MinesLocked { player: ctx.player.key, amount: args.bet_amount, rows: args.rows, cols: args.cols, mines: args.mines, nonce: args.nonce })
}

/// Escrows the stake of a mines round: looks for a signature check in the batch,
/// by the index hint or by a scan, and locks with what was found, as
/// `mines_lock_with_check` does.
pub fn mines_lock(ctx: &mut MinesLock, args: MinesLockArgs) -> (r: Result<MinesLocked, Failure<CasinoErr>>)
    requires
        old(ctx).wf(),
    ensures
        match mines_lock_refusal(
            *old(ctx),
            args,
            ed25519_present(old(ctx).sysvar_instructions@, args.ed25519_instr_index),
        ) {
            Some(e) => r == Err::<MinesLocked, Failure<CasinoErr>>(e) && *final(ctx) == *old(ctx),
            None => r == Ok::<MinesLocked, Failure<CasinoErr>>(
                MinesLocked { player: old(ctx).player.key, amount: args.bet_amount, rows: args.rows, cols: args.cols, mines: args.mines, nonce: args.nonce },
            ) && *final(ctx) == mines_locked(*old(ctx), args),
        },
        r is Ok ==> final(ctx).house_vault.lamports == old(ctx).house_vault.lamports + mines_stake(args)
            && final(ctx).user_vault.lamports == old(ctx).user_vault.lamports - mines_stake(args)
            - FEE_REIMBURSE_LAMPORTS && final(ctx).fee_payer.lamports == old(ctx).fee_payer.lamports
            + FEE_REIMBURSE_LAMPORTS,
        final(ctx).wf(),
{
    let present = require_ed25519_present(&ctx.sysvar_instructions, args.ed25519_instr_index).is_ok();
    mines_lock_with_check(ctx, args, present)
}

/// Why a settlement of a mines round is refused at time `now`, if it is: the
/// first rule that the request breaks. `check` is the data of the signature
/// check that the batch holds, if it holds one.
pub open spec fn mines_resolve_refusal(ctx: MinesResolve, args: MinesResolveArgs, now: i64, check: Option<Seq<u8>>) -> Option<
    Failure<CasinoErr>,
> {
    let record = ctx.pending.data;
    if record.settled {
        Some(Failure::Program(CasinoErr::BadPending))
    } else if now > record.expiry_unix {
        Some(Failure::Program(CasinoErr::Expired))
    } else if !made_with(check, ctx.admin_config.data.admin_pubkey@) {
        Some(Failure::Program(CasinoErr::InvalidEd25519))
    } else if args.checksum as int != expected_checksum(record.nonce) {
        Some(Failure::Program(CasinoErr::BadChecksum))
    } else if args.payout > MAX_PAYOUT_LAMPORTS {
        Some(Failure::Program(CasinoErr::BadPayout))
    } else if ctx.house_vault.lamports < args.payout {
        Some(Failure::System(SystemError::ResultWithNegativeLamports))
    } else {
        None
    }
}

/// The accounts after a settlement that was accepted: the payout has left the
/// house vault for the player's vault, the record is settled, and the funds
/// that rested on the record are the vault's.
pub open spec fn mines_resolved(ctx: MinesResolve, args: MinesResolveArgs) -> MinesResolve {
    MinesResolve {
        house_vault: SystemAccount {
            lamports: (ctx.house_vault.lamports - args.payout) as u64,
            ..ctx.house_vault
        },
        user_vault: Account {
            lamports: (ctx.user_vault.lamports + args.payout + ctx.pending.lamports) as u64,
            ..ctx.user_vault
        },
        pending: Account { lamports: 0, data: PendingRound { settled: true, ..ctx.pending.data }, ..ctx.pending },
        ..ctx
    }
}

/// The notification of a settlement that was accepted.
pub open spec fn mines_resolved_event(ctx: MinesResolve, args: MinesResolveArgs) -> MinesResolved {
    MinesResolved {
        player: ctx.pending.data.player,
        payout: args.payout,
        checksum: args.checksum,
        nonce: ctx.pending.data.nonce,
    }
}

/// Settles a pending mines round at time `now`, given the signature check that
/// was found in the batch, if one was: checks that the record is unsettled
/// and unexpired and that the signature check was made with the backend's
/// key, holds the declared outcome to the game's rule and the payout to the
/// cap, pays the player's vault from the house vault, marks the record
/// settled and hands the record's funds to the player's vault. A refused
/// request changes nothing.
pub fn mines_resolve_with_check(ctx: &mut MinesResolve, args: MinesResolveArgs, now: i64, check: Option<BatchInstruction>) -> (r:
    Result<MinesResolved, Failure<CasinoErr>>)
    requires
        old(ctx).wf(),
    ensures
        match mines_resolve_refusal(*old(ctx), args, now, check_data(check)) {
            Some(e) => r == Err::<MinesResolved, Failure<CasinoErr>>(e) && *final(ctx) == *old(ctx),
            None => r == Ok::<MinesResolved, Failure<CasinoErr>>(mines_resolved_event(*old(ctx), args)) && *final(ctx)
                == mines_resolved(*old(ctx), args),
        },
        old(ctx).pending.data.settled ==> r == Err::<MinesResolved, Failure<CasinoErr>>(
            Failure::Program(CasinoErr::BadPending),
        ),
        !old(ctx).pending.data.settled && now > old(ctx).pending.data.expiry_unix ==> r == Err::<
            MinesResolved,
            Failure<CasinoErr>,
        >(Failure::Program(CasinoErr::Expired)),
        r is Ok ==> made_with(check_data(check), old(ctx).admin_config.data.admin_pubkey@),
        r is Ok ==> final(ctx).pending.data.settled && args.payout <= MAX_PAYOUT_LAMPORTS,
        final(ctx).total() == old(ctx).total(),
        final(ctx).wf(),
{
    if ctx.pending.data.settled {
        return Err(Failure::Program(CasinoErr::BadPending));
    }
    if now > ctx.pending.data.expiry_unix {
        return Err(Failure::Program(CasinoErr::Expired));
    }
    if !is_made_with(&check, &ctx.admin_config.data.admin_pubkey) {
        return Err(Failure::Program(CasinoErr::InvalidEd25519));
    }
    if args.checksum != checksum_for(ctx.pending.data.nonce) {
        return Err(Failure::Program(CasinoErr::BadChecksum));
    }
    if args.payout > MAX_PAYOUT_LAMPORTS {
        return Err(Failure::Program(CasinoErr::BadPayout));
    }
    if args.payout > 0 {
        if !transfer(&mut ctx.house_vault.lamports, &mut ctx.user_vault.lamports, args.payout) {
            return Err(Failure::System(SystemError::ResultWithNegativeLamports));
        }
    }
    ctx.pending.data.settled = true;
    let refund = ctx.pending.lamports;
    ctx.pending.lamports = 0;
    ctx.user_vault.lamports = ctx.user_vault.lamports + refund;
    Ok(
        MinesResolved {
            player: ctx.pending.data.player,
            payout: args.payout,
            checksum: args.checksum,
            nonce: ctx.pending.data.nonce,
        },
    )
}

/// Settles a pending mines round at time `now`: locates the signature check in
/// the batch, by the index hint or by a scan, and settles with what was
/// found, as `mines_resolve_with_check` does.
pub fn mines_resolve(ctx: &mut MinesResolve, args: MinesResolveArgs, now: i64) -> (r: Result<MinesResolved, Failure<CasinoErr>>)
    requires
        old(ctx).wf(),
    ensures
        match mines_resolve_refusal(
            *old(ctx),
            args,
            now,
            signature_data(old(ctx).sysvar_instructions@, args.ed25519_instr_index),
        ) {
            Some(e) => r == Err::<MinesResolved, Failure<CasinoErr>>(e) && *final(ctx) == *old(ctx),
            None => r == Ok::<MinesResolved, Failure<CasinoErr>>(mines_resolved_event(*old(ctx), args)) && *final(ctx)
                == mines_resolved(*old(ctx), args),
        },
        old(ctx).pending.data.settled ==> r == Err::<MinesResolved, Failure<CasinoErr>>(
            Failure::Program(CasinoErr::BadPending),
        ),
        !old(ctx).pending.data.settled && now > old(ctx).pending.data.expiry_unix ==> r == Err::<
            MinesResolved,
            Failure<CasinoErr>,
        >(Failure::Program(CasinoErr::Expired)),
        r is Ok ==> final(ctx).pending.data.settled && args.payout <= MAX_PAYOUT_LAMPORTS,
        final(ctx).total() == old(ctx).total(),
        final(ctx).wf(),
{
    let check = find_ed25519(&ctx.sysvar_instructions, args.ed25519_instr_index);
    mines_resolve_with_check(ctx, args, now, check)
}

/// A mines round that was settled is never settled again: after a settlement that
/// was accepted, every further settlement of the same record is refused as
/// already settled, whatever it declares, whatever the batch holds and
/// whenever it comes.
pub proof fn lemma_mines_settled_once(
    ctx: MinesResolve,
    first: MinesResolveArgs,
    at: i64,
    check: Option<Seq<u8>>,
    second: MinesResolveArgs,
    later: i64,
    second_check: Option<Seq<u8>>,
)
    requires
        mines_resolve_refusal(ctx, first, at, check) is None,
    ensures
        mines_resolve_refusal(mines_resolved(ctx, first), second, later, second_check) == Some(
            Failure::<CasinoErr>::Program(CasinoErr::BadPending),
        ),
{
}

/// A settlement that comes after the deadline of an unsettled mines round is
/// refused as expired, however valid the rest of it is.
pub proof fn lemma_mines_expired_is_refused(ctx: MinesResolve, args: MinesResolveArgs, now: i64, check: Option<Seq<u8>>)
    requires
        !ctx.pending.data.settled,
        now > ctx.pending.data.expiry_unix,
    ensures
        mines_resolve_refusal(ctx, args, now, check) == Some(Failure::<CasinoErr>::Program(CasinoErr::Expired)),
{
}

/// Authorization fails closed: a settlement of a mines round whose signature
/// check was made with a key other than the configured backend key is
/// refused, and so is one with no signature check at all; on a record that
/// is open and in time, as `InvalidEd25519`.
pub proof fn lemma_mines_foreign_key_is_refused(ctx: MinesResolve, args: MinesResolveArgs, now: i64, check: Option<Seq<u8>>)
    requires
        match check {
            Some(d) => signed_pubkey(d) != ctx.admin_config.data.admin_pubkey@,
            None => true,
        },
    ensures
        mines_resolve_refusal(ctx, args, now, check) is Some,
        !ctx.pending.data.settled && now <= ctx.pending.data.expiry_unix ==> mines_resolve_refusal(ctx, args, now, check)
            == Some(Failure::<CasinoErr>::Program(CasinoErr::InvalidEd25519)),
{
}

/// A settlement of a mines round that declares any checksum but the one the
/// nonce gives is refused, and on a record that is open, in time and
/// authorized, as a bad checksum.
pub proof fn lemma_mines_wrong_checksum_is_refused(ctx: MinesResolve, args: MinesResolveArgs, now: i64, check: Option<Seq<u8>>)
    requires
        args.checksum as int != (ctx.pending.data.nonce as int) % 251 + 1,
    ensures
        mines_resolve_refusal(ctx, args, now, check) is Some,
        !ctx.pending.data.settled && now <= ctx.pending.data.expiry_unix && made_with(
            check,
            ctx.admin_config.data.admin_pubkey@,
        ) ==> mines_resolve_refusal(ctx, args, now, check) == Some(
            Failure::<CasinoErr>::Program(CasinoErr::BadChecksum),
        ),
{
}

} // verus!
