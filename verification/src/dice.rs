//! Dice on a house vault, staked from per-player vaults, with the trusted
//! backend as the signer of every lock and settlement.

use vstd::prelude::*;
use crate::codec::{
    flag_byte, flag_to_byte, get_le, get_le_spec, i64_bits, i64_from_bits, le_bytes, lemma_capacities,
    lemma_le_bytes_len, lemma_le_bytes_of_value, lemma_le_round_trip, lemma_le_value_bound,
    lemma_twos_complement_of_bits, lemma_twos_complement_round_trip, put_bytes32, put_le, twos_complement,
};
use crate::ledger::{transfer, Account, Failure, Signer, SystemAccount, SystemError};
use crate::pubkey::{bytes32_eq, lemma_key_eq_by_bytes, Pubkey};
use crate::rules::{dice_win, dice_wins};

verus! {

/// The most that one settlement may pay out.
pub const MAX_PAYOUT_LAMPORTS: u64 = 5_000_000_000;

/// The smallest stake accepted.
pub const MIN_BET_LAMPORTS: u64 = 50_000;

/// The largest stake accepted.
pub const MAX_BET_LAMPORTS: u64 = 5_000_000_000;

/// What a player's vault pays the fee payer for each lock.
pub const FEE_REIMBURSE_LAMPORTS: u64 = 10_000;

#[derive(Clone, Copy, Debug, PartialEq, Eq)]
pub enum DiceError {
    InvalidIx,
    /// The bet's deadline has passed.
    Expired,
    /// A parameter is outside its domain.
    BadParams,
    /// The declared payout breaks the game's rule or the cap.
    BadPayout,
    /// The player's vault is not recorded as the player's.
    VaultMismatch,
    /// The bet is already settled.
    BadBet,
    /// The paying balance does not cover the amount.
    InsufficientVault,
    /// The signer is not the configured backend.
    Unauthorized,
}

/// The trusted backend's public key.
#[derive(Clone, Copy, Debug, PartialEq, Eq)]
pub struct AdminConfig {
    pub admin_pubkey: [u8; 32],
}

/// The house vault: the funds rest on the account, the record keeps the bump
/// seed of its identity.
#[derive(Clone, Copy, Debug, PartialEq, Eq)]
pub struct HouseVault {
    pub bump: u8,
}

impl HouseVault {
    /// The bytes that the store sets aside for the vault.
    pub const LEN: usize = 8 + 1;
}

/// A player's own vault: the funds rest on the account, the record names the
/// owner.
#[derive(Clone, Copy, Debug, PartialEq, Eq)]
pub struct UserVault {
    pub owner: Pubkey,
    pub bump: u8,
    pub _rsv1: [u8; 7],
    pub _rsv2: [u8; 32],
    pub _rsv3: i64,
    pub _rsv4: u64,
    pub _rsv5: u64,
}

impl UserVault {
    /// The bytes that the store sets aside for one vault.
    pub const LEN: usize = 8 + 32 + 1 + 7 + 32 + 8 + 8 + 8;
}

/// A locked bet that awaits settlement.
#[derive(Clone, Copy, Debug, PartialEq, Eq)]
pub struct PendingBet {
    pub player: Pubkey,
    pub amount: u64,
    /// Zero for under, one for over.
    pub bet_type: u8,
    pub target: u8,
    pub nonce: u64,
    pub expiry_unix: i64,
    pub settled: bool,
}

impl PendingBet {
    /// The bytes that the store sets aside for one bet.
    pub const LEN: usize = 8 + 32 + 8 + 1 + 1 + 8 + 8 + 1;

    /// The bytes under which a bet is stored, after the store's own eight-byte
    /// tag: the fields in their order, each identity in 32 bytes, each number
    /// little-endian in its own width, the deadline in two's complement, the
    /// flag as one byte, zero or one.
    pub open spec fn encoding(self) -> Seq<u8> {
        self.player@
            + le_bytes(self.amount as nat, 8)
            + seq![self.bet_type]
            + seq![self.target]
            + le_bytes(self.nonce as nat, 8)
            + le_bytes(twos_complement(self.expiry_unix), 8)
            + seq![flag_byte(self.settled)]
    }

    /// Whether `decoded` is what the bytes decode to: the one record that is
    /// stored under exactly these bytes, or nothing where there is none.
    pub open spec fn is_decoding(bytes: Seq<u8>, decoded: Option<PendingBet>) -> bool {
        &&& decoded matches Some(record) ==> record.encoding() == bytes
        &&& forall|record: PendingBet| record.encoding() == bytes ==> decoded == Some(record)
    }

    /// Where each field lies in the encoding.
    pub proof fn lemma_layout(self)
        ensures
            self.encoding().len() == 59,
            self.encoding().subrange(0, 32) == self.player@,
            self.encoding().subrange(32, 40) == le_bytes(self.amount as nat, 8),
            self.encoding().subrange(40, 41) == seq![self.bet_type],
            self.encoding().subrange(41, 42) == seq![self.target],
            self.encoding().subrange(42, 50) == le_bytes(self.nonce as nat, 8),
            self.encoding().subrange(50, 58) == le_bytes(twos_complement(self.expiry_unix), 8),
            self.encoding().subrange(58, 59) == seq![flag_byte(self.settled)],
    {
        lemma_le_bytes_len(self.amount as nat, 8);
        lemma_le_bytes_len(self.nonce as nat, 8);
        lemma_le_bytes_len(twos_complement(self.expiry_unix), 8);
        assert(self.encoding().subrange(0, 32) =~= self.player@);
        assert(self.encoding().subrange(32, 40) =~= le_bytes(self.amount as nat, 8));
        assert(self.encoding().subrange(40, 41) =~= seq![self.bet_type]);
        assert(self.encoding().subrange(41, 42) =~= seq![self.target]);
        assert(self.encoding().subrange(42, 50) =~= le_bytes(self.nonce as nat, 8));
        assert(self.encoding().subrange(50, 58) =~= le_bytes(twos_complement(self.expiry_unix), 8));
        assert(self.encoding().subrange(58, 59) =~= seq![flag_byte(self.settled)]);
    }

    /// The encoding loses nothing: two records stored under the same bytes
    /// agree in every field.
    pub proof fn lemma_encoding_lossless(self, other: PendingBet)
        requires
            self.encoding() == other.encoding(),
        ensures
            self == other,
    {
        self.lemma_layout();
        other.lemma_layout();
        lemma_capacities();
        assert(self.player@ == other.player@);
        lemma_key_eq_by_bytes(self.player, other.player);
        assert(self.player == other.player);
        assert(le_bytes(self.amount as nat, 8) == le_bytes(other.amount as nat, 8));
        lemma_le_round_trip(self.amount as nat, 8);
        lemma_le_round_trip(other.amount as nat, 8);
        assert(self.amount == other.amount);
        assert(seq![self.bet_type] == seq![other.bet_type]);
        assert(seq![self.bet_type][0] == seq![other.bet_type][0]);
        assert(self.bet_type == other.bet_type);
        assert(seq![self.target] == seq![other.target]);
        assert(seq![self.target][0] == seq![other.target][0]);
        assert(self.target == other.target);
        assert(le_bytes(self.nonce as nat, 8) == le_bytes(other.nonce as nat, 8));
        lemma_le_round_trip(self.nonce as nat, 8);
        lemma_le_round_trip(other.nonce as nat, 8);
        assert(self.nonce == other.nonce);
        assert(le_bytes(twos_complement(self.expiry_unix), 8) == le_bytes(twos_complement(other.expiry_unix), 8));
        lemma_twos_complement_round_trip(self.expiry_unix);
        lemma_twos_complement_round_trip(other.expiry_unix);
        lemma_le_round_trip(twos_complement(self.expiry_unix), 8);
        lemma_le_round_trip(twos_complement(other.expiry_unix), 8);
        assert(self.expiry_unix == other.expiry_unix);
        assert(seq![flag_byte(self.settled)] == seq![flag_byte(other.settled)]);
        assert(seq![flag_byte(self.settled)][0] == seq![flag_byte(other.settled)][0]);
        assert(self.settled == other.settled);
    }

    /// Serializes the record.
    pub fn to_bytes(&self) -> (out: Vec<u8>)
        ensures
            out@ == self.encoding(),
            out@.len() == PendingBet::LEN - 8,
    {
        let mut out: Vec<u8> = Vec::new();
        assert(out@ + self.player@ =~= self.player@);
        put_bytes32(&mut out, &self.player.bytes);
        put_le(&mut out, self.amount, 8);
        let ghost before_bet_type = out@;
        out.push(self.bet_type);
        assert(out@ =~= before_bet_type + seq![self.bet_type]);
        let ghost before_target = out@;
        out.push(self.target);
        assert(out@ =~= before_target + seq![self.target]);
        put_le(&mut out, self.nonce, 8);
        put_le(&mut out, i64_bits(self.expiry_unix), 8);
        let ghost before_settled = out@;
        out.push(flag_to_byte(self.settled));
        assert(out@ =~= before_settled + seq![flag_byte(self.settled)]);
        proof {
            self.lemma_layout();
        }
        out
    }

    /// Deserializes a record: from bytes of the record's length whose flag
    /// byte is zero or one, and from no others.
    pub fn from_bytes(bytes: &Vec<u8>) -> (decoded: Option<PendingBet>)
        ensures
            PendingBet::is_decoding(bytes@, decoded),
            decoded is Some <==> bytes@.len() == 59 && bytes@[58] <= 1,
    {
        if bytes.len() != 59 || bytes[58] > 1 {
            proof {
                assert forall|record: PendingBet| record.encoding() != bytes@ by {
                    record.lemma_layout();
                    assert(record.encoding().subrange(58, 59)[0] == record.encoding()[58]);
                }
            }
            return None;
        }
        let player = Pubkey::from_bytes_at(bytes, 0);
        let amount: u64 = get_le(bytes, 32, 8);
        let bet_type: u8 = bytes[40];
        let target: u8 = bytes[41];
        let nonce: u64 = get_le(bytes, 42, 8);
        let expiry_unix: i64 = i64_from_bits(get_le(bytes, 50, 8));
        let settled: bool = bytes[58] == 1;
        let record = PendingBet { player, amount, bet_type, target, nonce, expiry_unix, settled };
        proof {
            lemma_capacities();
            lemma_twos_complement_of_bits(get_le_spec(bytes@, 50));
            lemma_le_bytes_of_value(bytes@.subrange(32, 40));
            assert(bytes@.subrange(40, 41) =~= seq![bet_type]);
            assert(bytes@.subrange(41, 42) =~= seq![target]);
            lemma_le_bytes_of_value(bytes@.subrange(42, 50));
            lemma_le_bytes_of_value(bytes@.subrange(50, 58));
            assert(bytes@.subrange(58, 59) =~= seq![flag_byte(settled)]);
            assert(bytes@ =~= bytes@.subrange(0, 32)
                + bytes@.subrange(32, 40)
                + bytes@.subrange(40, 41)
                + bytes@.subrange(41, 42)
                + bytes@.subrange(42, 50)
                + bytes@.subrange(50, 58)
                + bytes@.subrange(58, 59));
            assert(record.encoding() == bytes@);
            assert forall|other: PendingBet| other.encoding() == bytes@ implies other == record by {
                other.lemma_encoding_lossless(record);
            }
        }
        Some(record)
    }

    /// Serializing a record and deserializing the bytes gives the record
    /// back, identical in every field.
    pub proof fn lemma_round_trip(self, decoded: Option<PendingBet>)
        requires
            PendingBet::is_decoding(self.encoding(), decoded),
        ensures
            decoded == Some(self),
    {
    }
}

/// The accounts of `init_admin`.
#[derive(Clone, Copy, Debug, PartialEq, Eq)]
pub struct InitAdmin {
    pub authority: Signer,
    pub admin_config: Account<AdminConfig>,
}

/// The accounts of `init_house_vault`; `bump` is the bump seed under which
/// the store derived the vault's identity.
#[derive(Clone, Copy, Debug, PartialEq, Eq)]
pub struct InitHouseVault {
    pub payer: Signer,
    pub house_vault: Account<HouseVault>,
    pub bump: u8,
}

/// The accounts of `activate_user_vault`; `bump` is the bump seed under which
/// the store derived the vault's identity from the player's.
#[derive(Clone, Copy, Debug, PartialEq, Eq)]
pub struct ActivateUserVault {
    pub player: Signer,
    pub user_vault: Account<UserVault>,
    pub bump: u8,
}

/// The accounts of `deposit_to_vault`.
#[derive(Clone, Copy, Debug, PartialEq, Eq)]
pub struct DepositToVault {
    pub player: Signer,
    pub user_vault: Account<UserVault>,
}

/// The accounts of `withdraw_from_vault`.
#[derive(Clone, Copy, Debug, PartialEq, Eq)]
pub struct WithdrawFromVault {
    pub player: Signer,
    pub user_vault: Account<UserVault>,
}

#[derive(Clone, Copy, Debug, PartialEq, Eq)]
pub struct ActivateArgs {
    pub initial_deposit: u64,
}

#[derive(Clone, Copy, Debug, PartialEq, Eq)]
pub struct DepositArgs {
    pub amount: u64,
}

#[derive(Clone, Copy, Debug, PartialEq, Eq)]
pub struct WithdrawArgs {
    pub amount: u64,
}

/// Moves `amount` from one balance to another. It refuses an empty move as
/// `BadParams` and a move that the paying balance does not cover as
/// `InsufficientVault`, and then moves nothing.
pub fn safe_move_lamports(from: &mut u64, to: &mut u64, amount: u64) -> (r: Result<(), DiceError>)
    requires
        *old(from) + *old(to) <= u64::MAX,
    ensures
        r == safe_move_outcome(*old(from), amount),
        r is Ok ==> *final(from) == *old(from) - amount && *final(to) == *old(to) + amount,
        r is Err ==> *final(from) == *old(from) && *final(to) == *old(to),
{
    if amount == 0 {
        return Err(DiceError::BadParams);
    }
    if !transfer(from, to, amount) {
        return Err(DiceError::InsufficientVault);
    }
    Ok(())
}

/// Whether a move of `amount` out of a balance of `from` is made, and why not.
pub open spec fn safe_move_outcome(from: u64, amount: u64) -> Result<(), DiceError> {
    if amount == 0 {
        Err(DiceError::BadParams)
    } else if from < amount {
        Err(DiceError::InsufficientVault)
    } else {
        Ok(())
    }
}

/// Opens a player's vault in the player's name and pays the first deposit
/// into it, if one is asked for. Where the player cannot pay it, nothing
/// changes.
pub fn activate_user_vault(ctx: &mut ActivateUserVault, args: ActivateArgs) -> (r: Result<(), Failure<DiceError>>)
    requires
        old(ctx).player.lamports + old(ctx).user_vault.lamports <= u64::MAX,
    ensures
        old(ctx).player.lamports < args.initial_deposit ==> r == Err::<(), Failure<DiceError>>(
            Failure::System(SystemError::ResultWithNegativeLamports),
        ) && *final(ctx) == *old(ctx),
        old(ctx).player.lamports >= args.initial_deposit ==> r is Ok && *final(ctx) == (ActivateUserVault {
            player: Signer {
                lamports: (old(ctx).player.lamports - args.initial_deposit) as u64,
                ..old(ctx).player
            },
            user_vault: Account {
                lamports: (old(ctx).user_vault.lamports + args.initial_deposit) as u64,
                data: UserVault { owner: old(ctx).player.key, bump: old(ctx).bump, ..old(ctx).user_vault.data },
                ..old(ctx).user_vault
            },
            ..*old(ctx)
        }),
{
    if args.initial_deposit > 0 {
        if !transfer(&mut ctx.player.lamports, &mut ctx.user_vault.lamports, args.initial_deposit) {
            return Err(Failure::System(SystemError::ResultWithNegativeLamports));
        }
    }
    ctx.user_vault.data.owner = ctx.player.key;
    ctx.user_vault.data.bump = ctx.bump;
    Ok(())
}

/// Why `deposit_to_vault` refuses a request, if it does.
pub open spec fn deposit_refusal(ctx: DepositToVault, args: DepositArgs) -> Option<Failure<DiceError>> {
    if args.amount == 0 {
        Some(Failure::Program(DiceError::BadParams))
    } else if ctx.player.lamports < args.amount {
        Some(Failure::System(SystemError::ResultWithNegativeLamports))
    } else {
        None
    }
}

/// Pays `amount` from the player's wallet into the player's vault.
pub fn deposit_to_vault(ctx: &mut DepositToVault, args: DepositArgs) -> (r: Result<(), Failure<DiceError>>)
    requires
        old(ctx).player.lamports + old(ctx).user_vault.lamports <= u64::MAX,
    ensures
        match deposit_refusal(*old(ctx), args) {
            Some(e) => r == Err::<(), Failure<DiceError>>(e) && *final(ctx) == *old(ctx),
            None => r is Ok && *final(ctx) == (DepositToVault {
                player: Signer { lamports: (old(ctx).player.lamports - args.amount) as u64, ..old(ctx).player },
                user_vault: Account {
                    lamports: (old(ctx).user_vault.lamports + args.amount) as u64,
                    ..old(ctx).user_vault
                },
            }),
        },
{
    if args.amount == 0 {
        return Err(Failure::Program(DiceError::BadParams));
    }
    if !transfer(&mut ctx.player.lamports, &mut ctx.user_vault.lamports, args.amount) {
        return Err(Failure::System(SystemError::ResultWithNegativeLamports));
    }
    Ok(())
}

/// Pays `amount` from the player's vault back to the player's wallet.
pub fn withdraw_from_vault(ctx: &mut WithdrawFromVault, args: WithdrawArgs) -> (r: Result<(), Failure<DiceError>>)
    requires
        old(ctx).player.lamports + old(ctx).user_vault.lamports <= u64::MAX,
    ensures
        match safe_move_outcome(old(ctx).user_vault.lamports, args.amount) {
            Err(e) => r == Err::<(), Failure<DiceError>>(Failure::Program(e)) && *final(ctx) == *old(ctx),
            Ok(_) => r is Ok && *final(ctx) == (WithdrawFromVault {
                player: Signer { lamports: (old(ctx).player.lamports + args.amount) as u64, ..old(ctx).player },
                user_vault: Account {
                    lamports: (old(ctx).user_vault.lamports - args.amount) as u64,
                    ..old(ctx).user_vault
                },
            }),
        },
{
    if args.amount == 0 {
        return Err(Failure::Program(DiceError::BadParams));
    }
    match safe_move_lamports(&mut ctx.user_vault.lamports, &mut ctx.player.lamports, args.amount) {
        Ok(_) => Ok(()),
        Err(e) => Err(Failure::Program(e)),
    }
}

/// The accounts of `place_bet_from_vault`; `pending_bet` is the fresh record
/// that the store opened under the player and the nonce.
#[derive(Clone, Copy, Debug, PartialEq, Eq)]
pub struct PlaceBetFromVault {
    pub player: SystemAccount,
    /// The backend, which signs and pays the fees.
    pub fee_payer: Signer,
    pub admin_config: Account<AdminConfig>,
    pub user_vault: Account<UserVault>,
    pub house_vault: Account<HouseVault>,
    pub pending_bet: Account<PendingBet>,
}

/// The accounts of `resolve_bet`.
#[derive(Clone, Copy, Debug, PartialEq, Eq)]
pub struct ResolveBet {
    pub player: SystemAccount,
    pub admin_config: Account<AdminConfig>,
    /// The signer of the settlement.
    pub authority: Signer,
    pub house_vault: Account<HouseVault>,
    pub user_vault: Account<UserVault>,
    pub pending_bet: Account<PendingBet>,
}

#[derive(Clone, Copy, Debug, PartialEq, Eq)]
pub struct PlaceBetFromVaultArgs {
    pub bet_amount: u64,
    /// Zero for under, one for over.
    pub bet_type: u8,
    pub target: u8,
    pub nonce: u64,
    pub expiry_unix: i64,
    /// Not read: the signer authorizes the request.
    pub ed25519_instr_index: u8,
}

#[derive(Clone, Copy, Debug, PartialEq, Eq)]
pub struct ResolveBetArgs {
    pub roll: u8,
    pub payout: u64,
    /// Not read: the signer authorizes the request.
    pub ed25519_instr_index: u8,
}

/// The notification of a locked bet.
#[derive(Clone, Copy, Debug, PartialEq, Eq)]
pub struct BetLocked {
    pub player: Pubkey,
    pub amount: u64,
    pub bet_type: u8,
    pub target: u8,
    pub nonce: u64,
}

/// The notification of a settled bet.
#[derive(Clone, Copy, Debug, PartialEq, Eq)]
pub struct BetResolved {
    pub player: Pubkey,
    pub win: bool,
    pub roll: u8,
    pub payout: u64,
    pub nonce: u64,
}

impl PlaceBetFromVault {
    /// The funds of the request fit the unit of account.
    pub open spec fn wf(&self) -> bool {
        self.user_vault.lamports + self.house_vault.lamports + self.fee_payer.lamports <= u64::MAX
    }
}

impl ResolveBet {
    /// The funds of the request fit the unit of account.
    pub open spec fn wf(&self) -> bool {
        self.total() <= u64::MAX
    }

    /// All the funds that the settlement can touch.
    pub open spec fn total(&self) -> int {
        self.house_vault.lamports + self.user_vault.lamports + self.pending_bet.lamports
    }
}

/// Whether a signer is the configured backend: its identity is the
/// configured key.
pub open spec fn is_admin(config: AdminConfig, signer: Pubkey) -> bool {
    signer.bytes == config.admin_pubkey
}

/// Records the trusted backend's key, on the backend's own signature: any
/// other signer is refused as `Unauthorized`.
pub fn init_admin(ctx: &mut InitAdmin, admin_pubkey: [u8; 32]) -> (r: Result<(), Failure<DiceError>>)
    ensures
        old(ctx).authority.key.bytes != admin_pubkey ==> r == Err::<(), Failure<DiceError>>(
            Failure::Program(DiceError::Unauthorized),
        ) && *final(ctx) == *old(ctx),
        old(ctx).authority.key.bytes == admin_pubkey ==> r is Ok && *final(ctx) == (InitAdmin {
            admin_config: Account { data: AdminConfig { admin_pubkey }, ..old(ctx).admin_config },
            ..*old(ctx)
        }),
{
    let admin_pk = Pubkey::new_from_array(admin_pubkey);
    if !(ctx.authority.key == admin_pk) {
        return Err(Failure::Program(DiceError::Unauthorized));
    }
    ctx.admin_config.data.admin_pubkey = admin_pubkey;
    Ok(())
}

/// Records the bump seed of the house vault's identity.
pub fn init_house_vault(ctx: &mut InitHouseVault) -> (r: Result<(), Failure<DiceError>>)
    ensures
        r is Ok,
        *final(ctx) == (InitHouseVault {
            house_vault: Account { data: HouseVault { bump: old(ctx).bump }, ..old(ctx).house_vault },
            ..*old(ctx)
        }),
{
    ctx.house_vault.data.bump = ctx.bump;
    Ok(())
}

/// Whether the terms of a bet are in their domains.
pub open spec fn terms_valid(args: PlaceBetFromVaultArgs) -> bool {
    &&& MIN_BET_LAMPORTS <= args.bet_amount <= MAX_BET_LAMPORTS
    &&& 2 <= args.target <= 98
    &&& args.bet_type <= 1
}

/// Why `place_bet_from_vault` refuses a request, if it does: the first rule
/// that the request breaks.
pub open spec fn place_bet_refusal(ctx: PlaceBetFromVault, args: PlaceBetFromVaultArgs) -> Option<
    Failure<DiceError>,
> {
    if !is_admin(ctx.admin_config.data, ctx.fee_payer.key) {
        Some(Failure::Program(DiceError::Unauthorized))
    } else if !terms_valid(args) {
        Some(Failure::Program(DiceError::BadParams))
    } else if ctx.user_vault.data.owner != ctx.player.key {
        Some(Failure::Program(DiceError::VaultMismatch))
    } else if ctx.user_vault.lamports < args.bet_amount + FEE_REIMBURSE_LAMPORTS {
        Some(Failure::Program(DiceError::InsufficientVault))
    } else {
        None
    }
}

/// The accounts after a lock that was accepted: the stake has moved from the
/// player's vault to the house vault, the fee to the fee payer, and the
/// record holds the terms, unsettled.
pub open spec fn bet_placed(ctx: PlaceBetFromVault, args: PlaceBetFromVaultArgs) -> PlaceBetFromVault {
    PlaceBetFromVault {
        fee_payer: Signer { lamports: (ctx.fee_payer.lamports + FEE_REIMBURSE_LAMPORTS) as u64, ..ctx.fee_payer },
        user_vault: Account {
            lamports: (ctx.user_vault.lamports - args.bet_amount - FEE_REIMBURSE_LAMPORTS) as u64,
            ..ctx.user_vault
        },
        house_vault: Account {
            lamports: (ctx.house_vault.lamports + args.bet_amount) as u64,
            ..ctx.house_vault
        },
        pending_bet: Account {
            data: PendingBet {
                player: ctx.player.key,
                amount: args.bet_amount,
                bet_type: args.bet_type,
                target: args.target,
                nonce: args.nonce,
                expiry_unix: args.expiry_unix,
                settled: false,
            },
            ..ctx.pending_bet
        },
        ..ctx
    }
}

/// Escrows the stake of a bet from the player's vault in the house vault,
/// reimburses the fee payer, and opens the pending bet; only the backend may
/// ask for it. Every check comes before any movement: a refused request
/// changes nothing.
pub fn place_bet_from_vault(ctx: &mut PlaceBetFromVault, args: PlaceBetFromVaultArgs) -> (r: Result<
    BetLocked,
    Failure<DiceError>,
>)
    requires
        old(ctx).wf(),
    ensures
        match place_bet_refusal(*old(ctx), args) {
            Some(e) => r == Err::<BetLocked, Failure<DiceError>>(e) && *final(ctx) == *old(ctx),
            None => r == Ok::<BetLocked, Failure<DiceError>>(
                BetLocked {
                    player: old(ctx).player.key,
                    amount: args.bet_amount,
                    bet_type: args.bet_type,
                    target: args.target,
                    nonce: args.nonce,
                },
            ) && *final(ctx) == bet_placed(*old(ctx), args),
        },
        r is Ok ==> final(ctx).house_vault.lamports == old(ctx).house_vault.lamports + args.bet_amount
            && final(ctx).user_vault.lamports == old(ctx).user_vault.lamports - args.bet_amount
            - FEE_REIMBURSE_LAMPORTS && final(ctx).fee_payer.lamports == old(ctx).fee_payer.lamports
            + FEE_REIMBURSE_LAMPORTS,
        r is Ok ==> is_admin(old(ctx).admin_config.data, old(ctx).fee_payer.key),
        final(ctx).wf(),
{
    if !bytes32_eq(&ctx.fee_payer.key.bytes, &ctx.admin_config.data.admin_pubkey) {
        return Err(Failure::Program(DiceError::Unauthorized));
    }
    if !(args.bet_amount >= MIN_BET_LAMPORTS && args.bet_amount <= MAX_BET_LAMPORTS) {
        return Err(Failure::Program(DiceError::BadParams));
    }
    if !(args.target >= 2 && args.target <= 98) {
        return Err(Failure::Program(DiceError::BadParams));
    }
    if !(args.bet_type <= 1) {
        return Err(Failure::Program(DiceError::BadParams));
    }
    if !(ctx.user_vault.data.owner == ctx.player.key) {
        return Err(Failure::Program(DiceError::VaultMismatch));
    }
    let total_need = args.bet_amount.saturating_add(FEE_REIMBURSE_LAMPORTS);
    if !(ctx.user_vault.lamports >= total_need) {
        return Err(Failure::Program(DiceError::InsufficientVault));
    }
    match safe_move_lamports(&mut ctx.user_vault.lamports, &mut ctx.house_vault.lamports, args.bet_amount) {
        Ok(_) => {},
        Err(e) => {
            return Err(Failure::Program(e));
        },
    }
    if FEE_REIMBURSE_LAMPORTS > 0 {
        match safe_move_lamports(
            &mut ctx.user_vault.lamports,
            &mut ctx.fee_payer.lamports,
            FEE_REIMBURSE_LAMPORTS,
        ) {
            Ok(_) => {},
            Err(e) => {
                return Err(Failure::Program(e));
            },
        }
    }
    ctx.pending_bet.data.player = ctx.player.key;
    ctx.pending_bet.data.amount = args.bet_amount;
    ctx.pending_bet.data.bet_type = args.bet_type;
    ctx.pending_bet.data.target = args.target;
    ctx.pending_bet.data.nonce = args.nonce;
    ctx.pending_bet.data.expiry_unix = args.expiry_unix;
    ctx.pending_bet.data.settled = false;
    Ok(
        BetLocked {
            player: ctx.player.key,
            amount: args.bet_amount,
            bet_type: args.bet_type,
            target: args.target,
            nonce: args.nonce,
        },
    )
}

/// Why `resolve_bet` refuses a request at time `now`, if it does: the first
/// rule that the request breaks.
pub open spec fn resolve_refusal(ctx: ResolveBet, args: ResolveBetArgs, now: i64) -> Option<Failure<DiceError>> {
    let bet = ctx.pending_bet.data;
    if bet.settled {
        Some(Failure::Program(DiceError::BadBet))
    } else if now > bet.expiry_unix {
        Some(Failure::Program(DiceError::Expired))
    } else if !is_admin(ctx.admin_config.data, ctx.authority.key) {
        Some(Failure::Program(DiceError::Unauthorized))
    } else if !(1 <= args.roll <= 100) {
        Some(Failure::Program(DiceError::BadParams))
    } else if dice_wins(bet.bet_type, bet.target, args.roll) && !(0 < args.payout <= MAX_PAYOUT_LAMPORTS) {
        Some(Failure::Program(DiceError::BadPayout))
    } else if !dice_wins(bet.bet_type, bet.target, args.roll) && args.payout != 0 {
        Some(Failure::Program(DiceError::BadPayout))
    } else if ctx.house_vault.lamports < args.payout {
        Some(Failure::Program(DiceError::InsufficientVault))
    } else {
        None
    }
}

/// The accounts after a settlement that was accepted: the payout has left the
/// house vault for the player's vault, the bet is settled, and the funds
/// that rested on the record are the vault's.
pub open spec fn resolved(ctx: ResolveBet, args: ResolveBetArgs) -> ResolveBet {
    ResolveBet {
        house_vault: Account { lamports: (ctx.house_vault.lamports - args.payout) as u64, ..ctx.house_vault },
        user_vault: Account {
            lamports: (ctx.user_vault.lamports + args.payout + ctx.pending_bet.lamports) as u64,
            ..ctx.user_vault
        },
        pending_bet: Account {
            lamports: 0,
            data: PendingBet { settled: true, ..ctx.pending_bet.data },
            ..ctx.pending_bet
        },
        ..ctx
    }
}

/// The notification of a settlement that was accepted.
pub open spec fn resolved_event(ctx: ResolveBet, args: ResolveBetArgs) -> BetResolved {
    BetResolved {
        player: ctx.pending_bet.data.player,
        win: dice_wins(ctx.pending_bet.data.bet_type, ctx.pending_bet.data.target, args.roll),
        roll: args.roll,
        payout: args.payout,
        nonce: ctx.pending_bet.data.nonce,
    }
}

/// Settles a pending bet at time `now`: checks that it is unsettled and
/// unexpired and that the backend signed the request, recomputes the outcome
/// from the roll, holds the payout to it and to the cap, pays the player's
/// vault from the house vault, marks the bet settled and hands the record's
/// funds to the player's vault. A refused request changes nothing.
pub fn resolve_bet(ctx: &mut ResolveBet, args: ResolveBetArgs, now: i64) -> (r: Result<
    BetResolved,
    Failure<DiceError>,
>)
    requires
        old(ctx).wf(),
    ensures
        match resolve_refusal(*old(ctx), args, now) {
            Some(e) => r == Err::<BetResolved, Failure<DiceError>>(e) && *final(ctx) == *old(ctx),
            None => r == Ok::<BetResolved, Failure<DiceError>>(resolved_event(*old(ctx), args)) && *final(ctx)
                == resolved(*old(ctx), args),
        },
        old(ctx).pending_bet.data.settled ==> r == Err::<BetResolved, Failure<DiceError>>(
            Failure::Program(DiceError::BadBet),
        ),
        !old(ctx).pending_bet.data.settled && now > old(ctx).pending_bet.data.expiry_unix ==> r == Err::<
            BetResolved,
            Failure<DiceError>,
        >(Failure::Program(DiceError::Expired)),
        r is Ok ==> is_admin(old(ctx).admin_config.data, old(ctx).authority.key),
        r is Ok ==> final(ctx).pending_bet.data.settled && args.payout <= MAX_PAYOUT_LAMPORTS,
        final(ctx).total() == old(ctx).total(),
        final(ctx).wf(),
{
    if ctx.pending_bet.data.settled {
        return Err(Failure::Program(DiceError::BadBet));
    }
    if now > ctx.pending_bet.data.expiry_unix {
        return Err(Failure::Program(DiceError::Expired));
    }
    if !bytes32_eq(&ctx.authority.key.bytes, &ctx.admin_config.data.admin_pubkey) {
        return Err(Failure::Program(DiceError::Unauthorized));
    }
    if !(args.roll >= 1 && args.roll <= 100) {
        return Err(Failure::Program(DiceError::BadParams));
    }
    let win = dice_win(ctx.pending_bet.data.bet_type, ctx.pending_bet.data.target, args.roll);
    if win {
        if !(args.payout > 0 && args.payout <= MAX_PAYOUT_LAMPORTS) {
            return Err(Failure::Program(DiceError::BadPayout));
        }
    } else if args.payout != 0 {
        return Err(Failure::Program(DiceError::BadPayout));
    }
    if win && args.payout > 0 {
        match safe_move_lamports(&mut ctx.house_vault.lamports, &mut ctx.user_vault.lamports, args.payout) {
            Ok(_) => {},
            Err(e) => {
                return Err(Failure::Program(e));
            },
        }
    }
    ctx.pending_bet.data.settled = true;
    let refund = ctx.pending_bet.lamports;
    ctx.pending_bet.lamports = 0;
    ctx.user_vault.lamports = ctx.user_vault.lamports + refund;
    Ok(
        BetResolved {
            player: ctx.pending_bet.data.player,
            win,
            roll: args.roll,
            payout: args.payout,
            nonce: ctx.pending_bet.data.nonce,
        },
    )
}

/// A bet that was settled is never settled again: after a settlement that
/// was accepted, every further settlement of the same record is refused as
/// already settled, whoever signs it, whatever it declares and whenever it
/// comes.
pub proof fn lemma_settled_once(ctx: ResolveBet, first: ResolveBetArgs, at: i64, second: ResolveBetArgs, later: i64)
    requires
        resolve_refusal(ctx, first, at) is None,
    ensures
        resolve_refusal(resolved(ctx, first), second, later) == Some(
            Failure::<DiceError>::Program(DiceError::BadBet),
        ),
{
}

/// A settlement that comes after the deadline of an unsettled bet is refused
/// as expired, however valid the rest of it is.
pub proof fn lemma_expired_is_refused(ctx: ResolveBet, args: ResolveBetArgs, now: i64)
    requires
        !ctx.pending_bet.data.settled,
        now > ctx.pending_bet.data.expiry_unix,
    ensures
        resolve_refusal(ctx, args, now) == Some(Failure::<DiceError>::Program(DiceError::Expired)),
{
}

/// Authorization fails closed: a settlement signed by any key but the configured
/// backend key is refused, and on a bet that is open and in time, as
/// `Unauthorized`.
pub proof fn lemma_foreign_signer_is_refused(ctx: ResolveBet, args: ResolveBetArgs, now: i64)
    requires
        ctx.authority.key.bytes != ctx.admin_config.data.admin_pubkey,
    ensures
        resolve_refusal(ctx, args, now) is Some,
        !ctx.pending_bet.data.settled && now <= ctx.pending_bet.data.expiry_unix ==> resolve_refusal(
            ctx,
            args,
            now,
        ) == Some(Failure::<DiceError>::Program(DiceError::Unauthorized)),
{
}

} // verus!
