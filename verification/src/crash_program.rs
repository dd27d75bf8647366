//! The crash game on a pooled vault: the player pays the stake in, and the
//! round is settled at a multiplier from which the payout is recomputed.

use vstd::prelude::*;
use crate::batch::{check_data, find_ed25519, is_made_with, made_with, signature_data, signed_pubkey, BatchInstruction};
use crate::codec::{
    flag_byte, flag_to_byte, get_le, get_le_spec, i64_bits, i64_from_bits, le_bytes, lemma_capacities,
    lemma_le_bytes_len, lemma_le_bytes_of_value, lemma_le_round_trip, lemma_le_value_bound,
    lemma_twos_complement_of_bits, lemma_twos_complement_round_trip, put_bytes32, put_le, twos_complement,
};
use crate::ledger::{
    opening_balance, opening_lamports, transfer, Account, Failure, Signer, SystemAccount, SystemError,
};
use crate::pubkey::{lemma_key_eq_by_bytes, Pubkey};
use crate::rules::{crash_expected_net, crash_net};

verus! {

/// The most that one settlement may pay out.
pub const MAX_PAYOUT_LAMPORTS: u64 = 50_000_000_000;

/// The smallest stake accepted.
pub const MIN_BET_LAMPORTS: u64 = 50_000;

/// The largest stake accepted.
pub const MAX_BET_LAMPORTS: u64 = 5_000_000_000;

/// The smallest multiplier, in basis points: 1.00x.
pub const MIN_MULT_BPS: u32 = 10_000;

/// The largest multiplier, in basis points: 100.00x.
pub const MAX_MULT_BPS: u32 = 1_000_000;

#[derive(Clone, Copy, Debug, PartialEq, Eq)]
pub enum CrashError {
    /// The batch holds no signature check made with the backend's key.
    InvalidEd25519,
    /// The round's deadline has passed.
    Expired,
    /// A parameter is outside its domain.
    BadParams,
    /// The declared payout is not what the multiplier gives, or is over the cap.
    BadPayout,
    VaultMismatch,
    /// The round is already settled.
    BadRound,
}

/// The trusted backend's public key.
#[derive(Clone, Copy, Debug, PartialEq, Eq)]
pub struct AdminConfig {
    pub admin_pubkey: [u8; 32],
}

/// A locked round that awaits settlement.
#[derive(Clone, Copy, Debug, PartialEq, Eq)]
pub struct PendingRound {
    pub player: Pubkey,
    pub amount: u64,
    pub nonce: u64,
    pub expiry_unix: i64,
    pub settled: bool,
}

impl PendingRound {
    /// The bytes that the store sets aside for one round.
    pub const LEN: usize = 8 + 32 + 8 + 8 + 8 + 1;

    /// The bytes under which a round is stored, after the store's own
    /// eight-byte tag: the fields in their order, each identity in 32 bytes,
    /// each number little-endian in its own width, the deadline in two's
    /// complement, the flag as one byte, zero or one.
    pub open spec fn encoding(self) -> Seq<u8> {
        self.player@
            + le_bytes(self.amount as nat, 8)
            + le_bytes(self.nonce as nat, 8)
            + le_bytes(twos_complement(self.expiry_unix), 8)
            + seq![flag_byte(self.settled)]
    }

    /// Whether `decoded` is what the bytes decode to: the one record that is
    /// stored under exactly these bytes, or nothing where there is none.
    pub open spec fn is_decoding(bytes: Seq<u8>, decoded: Option<PendingRound>) -> bool {
        &&& decoded matches Some(record) ==> record.encoding() == bytes
        &&& forall|record: PendingRound| record.encoding() == bytes ==> decoded == Some(record)
    }

    /// Where each field lies in the encoding.
    pub proof fn lemma_layout(self)
        ensures
            self.encoding().len() == 57,
            self.encoding().subrange(0, 32) == self.player@,
            self.encoding().subrange(32, 40) == le_bytes(self.amount as nat, 8),
            self.encoding().subrange(40, 48) == le_bytes(self.nonce as nat, 8),
            self.encoding().subrange(48, 56) == le_bytes(twos_complement(self.expiry_unix), 8),
            self.encoding().subrange(56, 57) == seq![flag_byte(self.settled)],
    {
        lemma_le_bytes_len(self.amount as nat, 8);
        lemma_le_bytes_len(self.nonce as nat, 8);
        lemma_le_bytes_len(twos_complement(self.expiry_unix), 8);
        assert(self.encoding().subrange(0, 32) =~= self.player@);
        assert(self.encoding().subrange(32, 40) =~= le_bytes(self.amount as nat, 8));
        assert(self.encoding().subrange(40, 48) =~= le_bytes(self.nonce as nat, 8));
        assert(self.encoding().subrange(48, 56) =~= le_bytes(twos_complement(self.expiry_unix), 8));
        assert(self.encoding().subrange(56, 57) =~= seq![flag_byte(self.settled)]);
    }

    /// The encoding loses nothing: two records stored under the same bytes
    /// agree in every field.
    pub proof fn lemma_encoding_lossless(self, other: PendingRound)
        requires
            self.encoding() == other.encoding(),
        ensures
            self == other,
    {
        self.lemma_layout();
        other.lemma_layout();
        lemma_capacities();
        assert(self.player@ == other.player@);
        lemma_key_eq_by_bytes(self.player, other.player);
        assert(self.player == other.player);
        assert(le_bytes(self.amount as nat, 8) == le_bytes(other.amount as nat, 8));
        lemma_le_round_trip(self.amount as nat, 8);
        lemma_le_round_trip(other.amount as nat, 8);
        assert(self.amount == other.amount);
        assert(le_bytes(self.nonce as nat, 8) == le_bytes(other.nonce as nat, 8));
        lemma_le_round_trip(self.nonce as nat, 8);
        lemma_le_round_trip(other.nonce as nat, 8);
        assert(self.nonce == other.nonce);
        assert(le_bytes(twos_complement(self.expiry_unix), 8) == le_bytes(twos_complement(other.expiry_unix), 8));
        lemma_twos_complement_round_trip(self.expiry_unix);
        lemma_twos_complement_round_trip(other.expiry_unix);
        lemma_le_round_trip(twos_complement(self.expiry_unix), 8);
        lemma_le_round_trip(twos_complement(other.expiry_unix), 8);
        assert(self.expiry_unix == other.expiry_unix);
        assert(seq![flag_byte(self.settled)] == seq![flag_byte(other.settled)]);
        assert(seq![flag_byte(self.settled)][0] == seq![flag_byte(other.settled)][0]);
        assert(self.settled == other.settled);
    }

    /// Serializes the record.
    pub fn to_bytes(&self) -> (out: Vec<u8>)
        ensures
            out@ == self.encoding(),
            out@.len() == PendingRound::LEN - 8,
    {
        let mut out: Vec<u8> = Vec::new();
        assert(out@ + self.player@ =~= self.player@);
        put_bytes32(&mut out, &self.player.bytes);
        put_le(&mut out, self.amount, 8);
        put_le(&mut out, self.nonce, 8);
        put_le(&mut out, i64_bits(self.expiry_unix), 8);
        let ghost before_settled = out@;
        out.push(flag_to_byte(self.settled));
        assert(out@ =~= before_settled + seq![flag_byte(self.settled)]);
        proof {
            self.lemma_layout();
        }
        out
    }

    /// Deserializes a record: from bytes of the record's length whose flag
    /// byte is zero or one, and from no others.
    pub fn from_bytes(bytes: &Vec<u8>) -> (decoded: Option<PendingRound>)
        ensures
            PendingRound::is_decoding(bytes@, decoded),
            decoded is Some <==> bytes@.len() == 57 && bytes@[56] <= 1,
    {
        if bytes.len() != 57 || bytes[56] > 1 {
            proof {
                assert forall|record: PendingRound| record.encoding() != bytes@ by {
                    record.lemma_layout();
                    assert(record.encoding().subrange(56, 57)[0] == record.encoding()[56]);
                }
            }
            return None;
        }
        let player = Pubkey::from_bytes_at(bytes, 0);
        let amount: u64 = get_le(bytes, 32, 8);
        let nonce: u64 = get_le(bytes, 40, 8);
        let expiry_unix: i64 = i64_from_bits(get_le(bytes, 48, 8));
        let settled: bool = bytes[56] == 1;
        let record = PendingRound { player, amount, nonce, expiry_unix, settled };
        proof {
            lemma_capacities();
            lemma_twos_complement_of_bits(get_le_spec(bytes@, 48));
            lemma_le_bytes_of_value(bytes@.subrange(32, 40));
            lemma_le_bytes_of_value(bytes@.subrange(40, 48));
            lemma_le_bytes_of_value(bytes@.subrange(48, 56));
            assert(bytes@.subrange(56, 57) =~= seq![flag_byte(settled)]);
            assert(bytes@ =~= bytes@.subrange(0, 32)
                + bytes@.subrange(32, 40)
                + bytes@.subrange(40, 48)
                + bytes@.subrange(48, 56)
                + bytes@.subrange(56, 57));
            assert(record.encoding() == bytes@);
            assert forall|other: PendingRound| other.encoding() == bytes@ implies other == record by {
                other.lemma_encoding_lossless(record);
            }
        }
        Some(record)
    }

    /// Serializing a record and deserializing the bytes gives the record
    /// back, identical in every field.
    pub proof fn lemma_round_trip(self, decoded: Option<PendingRound>)
        requires
            PendingRound::is_decoding(self.encoding(), decoded),
        ensures
            decoded == Some(self),
    {
    }
}

/// The accounts of `init_admin`.
#[derive(Clone, Copy, Debug, PartialEq, Eq)]
pub struct InitAdmin {
    pub authority: Signer,
    pub admin_config: Account<AdminConfig>,
}

/// The accounts of `init_vault`.
#[derive(Clone, Copy, Debug, PartialEq, Eq)]
pub struct InitVault {
    pub payer: Signer,
    pub vault: SystemAccount,
}

/// The accounts of `lock`; `pending_round` is the fresh record that the store
/// opened under the player and the nonce.
#[derive(Clone, Copy, Debug, PartialEq, Eq)]
pub struct Lock {
    pub player: Signer,
    pub vault: SystemAccount,
    pub pending_round: Account<PendingRound>,
}

/// The accounts of `resolve`, with the data of the batch's instructions
/// record.
#[derive(Clone, Debug, PartialEq, Eq)]
pub struct Resolve {
    pub player: SystemAccount,
    pub vault: SystemAccount,
    pub admin_config: Account<AdminConfig>,
    pub pending_round: Account<PendingRound>,
    pub sysvar_instructions: Vec<u8>,
}

#[derive(Clone, Copy, Debug, PartialEq, Eq)]
pub struct LockArgs {
    pub bet_amount: u64,
    pub nonce: u64,
    pub expiry_unix: i64,
}

#[derive(Clone, Copy, Debug, PartialEq, Eq)]
pub struct ResolveArgs {
    pub checksum: u8,
    pub multiplier_bps: u32,
    /// Net of the stake; zero where the round crashed.
    pub payout: u64,
    pub ed25519_instr_index: u8,
}

/// The notification of a locked round.
#[derive(Clone, Copy, Debug, PartialEq, Eq)]
pub struct RoundLocked {
    pub player: Pubkey,
    pub amount: u64,
    pub nonce: u64,
}

/// The notification of a settled round.
#[derive(Clone, Copy, Debug, PartialEq, Eq)]
pub struct RoundResolved {
    pub player: Pubkey,
    pub cashed: bool,
    pub checksum: u8,
    pub multiplier_bps: u32,
    pub payout: u64,
    pub nonce: u64,
}

impl Lock {
    /// The funds of the request fit the unit of account.
    pub open spec fn wf(&self) -> bool {
        self.player.lamports + self.vault.lamports <= u64::MAX
    }
}

impl Resolve {
    /// The funds of the request fit the unit of account.
    pub open spec fn wf(&self) -> bool {
        self.player.lamports + self.vault.lamports + self.pending_round.lamports <= u64::MAX
    }

    /// All the funds that the request's accounts hold.
    pub open spec fn total(&self) -> int {
        self.player.lamports + self.vault.lamports + self.pending_round.lamports
    }
}

/// Records the trusted backend's key.
pub fn init_admin(ctx: &mut InitAdmin, admin_pubkey: [u8; 32]) -> (r: Result<(), Failure<CrashError>>)
    ensures
        r is Ok,
        *final(ctx) == (InitAdmin {
            admin_config: Account { data: AdminConfig { admin_pubkey }, ..old(ctx).admin_config },
            ..*old(ctx)
        }),
{
    ctx.admin_config.data.admin_pubkey = admin_pubkey;
    Ok(())
}

/// Opens the pooled vault with the payer's funds: the host's minimum for an
/// empty account, and at least one lamport. A vault that holds funds exists
/// already and is not opened again.
pub fn init_vault(ctx: &mut InitVault, rent_minimum: u64) -> (r: Result<(), Failure<CrashError>>)
    requires
        old(ctx).payer.lamports + old(ctx).vault.lamports <= u64::MAX,
    ensures
        r == init_vault_outcome(*old(ctx), rent_minimum),
        r is Err ==> *final(ctx) == *old(ctx),
        r is Ok ==> *final(ctx) == (InitVault {
            payer: Signer { lamports: (old(ctx).payer.lamports - opening_lamports(rent_minimum)) as u64, ..old(ctx).payer },
            vault: SystemAccount { lamports: opening_lamports(rent_minimum), ..old(ctx).vault },
        }),
{
    let lamports = opening_balance(rent_minimum);
    if ctx.vault.lamports > 0 {
        return Err(Failure::System(SystemError::AccountAlreadyInUse));
    }
    if !transfer(&mut ctx.payer.lamports, &mut ctx.vault.lamports, lamports) {
        return Err(Failure::System(SystemError::ResultWithNegativeLamports));
    }
    Ok(())
}

/// Whether `init_vault` opens the vault, and why not.
pub open spec fn init_vault_outcome(ctx: InitVault, rent_minimum: u64) -> Result<(), Failure<CrashError>> {
    if ctx.vault.lamports > 0 {
        Err(Failure::System(SystemError::AccountAlreadyInUse))
    } else if ctx.payer.lamports < opening_lamports(rent_minimum) {
        Err(Failure::System(SystemError::ResultWithNegativeLamports))
    } else {
        Ok(())
    }
}

/// Why `lock` refuses a request, if it does: the first rule that the request
/// breaks.
pub open spec fn lock_refusal(ctx: Lock, args: LockArgs) -> Option<Failure<CrashError>> {
    if !(MIN_BET_LAMPORTS <= args.bet_amount <= MAX_BET_LAMPORTS) {
        Some(Failure::Program(CrashError::BadParams))
    } else if ctx.player.lamports < args.bet_amount {
        Some(Failure::System(SystemError::ResultWithNegativeLamports))
    } else {
        None
    }
}

/// The accounts after a lock that was accepted.
pub open spec fn locked(ctx: Lock, args: LockArgs) -> Lock {
    Lock {
        player: Signer { lamports: (ctx.player.lamports - args.bet_amount) as u64, ..ctx.player },
        vault: SystemAccount { lamports: (ctx.vault.lamports + args.bet_amount) as u64, ..ctx.vault },
        pending_round: Account {
            data: PendingRound {
                player: ctx.player.key,
                amount: args.bet_amount,
                nonce: args.nonce,
                expiry_unix: args.expiry_unix,
                settled: false,
            },
            ..ctx.pending_round
        },
    }
}

/// Escrows the player's stake in the vault and opens the pending round.
pub fn lock(ctx: &mut Lock, args: LockArgs) -> (r: Result<RoundLocked, Failure<CrashError>>)
    requires
        old(ctx).wf(),
    ensures
        match lock_refusal(*old(ctx), args) {
            Some(e) => r == Err::<RoundLocked, Failure<CrashError>>(e) && *final(ctx) == *old(ctx),
            None => r == Ok::<RoundLocked, Failure<CrashError>>(
                RoundLocked { player: old(ctx).player.key, amount: args.bet_amount, nonce: args.nonce },
            ) && *final(ctx) == locked(*old(ctx), args),
        },
        r is Ok ==> final(ctx).vault.lamports == old(ctx).vault.lamports + args.bet_amount
            && final(ctx).player.lamports == old(ctx).player.lamports - args.bet_amount
            && final(ctx).wf(),
{
    if !(args.bet_amount >= MIN_BET_LAMPORTS && args.bet_amount <= MAX_BET_LAMPORTS) {
        return Err(Failure::Program(CrashError::BadParams));
    }
    if !transfer(&mut ctx.player.lamports, &mut ctx.vault.lamports, args.bet_amount) {
        return Err(Failure::System(SystemError::ResultWithNegativeLamports));
    }
    ctx.pending_round.data.player = ctx.player.key;
    ctx.pending_round.data.amount = args.bet_amount;
    ctx.pending_round.data.nonce = args.nonce;
    ctx.pending_round.data.expiry_unix = args.expiry_unix;
    ctx.pending_round.data.settled = false;
    Ok(RoundLocked { player: ctx.pending_round.data.player, amount: args.bet_amount, nonce: args.nonce })
}

/// Why a settlement is refused at time `now`, if it is: the first rule that
/// the request breaks. `check` is the data of the signature check that the
/// batch holds, if it holds one.
pub open spec fn resolve_refusal(ctx: Resolve, args: ResolveArgs, now: i64, check: Option<Seq<u8>>) -> Option<
    Failure<CrashError>,
> {
    let round = ctx.pending_round.data;
    if round.settled {
        Some(Failure::Program(CrashError::BadRound))
    } else if now > round.expiry_unix {
        Some(Failure::Program(CrashError::Expired))
    } else if !made_with(check, ctx.admin_config.data.admin_pubkey@) {
        Some(Failure::Program(CrashError::InvalidEd25519))
    } else if !(MIN_MULT_BPS <= args.multiplier_bps <= MAX_MULT_BPS) {
        Some(Failure::Program(CrashError::BadParams))
    } else if !(1 <= args.checksum <= 100) {
        Some(Failure::Program(CrashError::BadParams))
    } else if args.payout != crash_net(round.amount, args.multiplier_bps) {
        Some(Failure::Program(CrashError::BadPayout))
    } else if args.payout > MAX_PAYOUT_LAMPORTS {
        Some(Failure::Program(CrashError::BadPayout))
    } else if ctx.vault.lamports < args.payout {
        Some(Failure::System(SystemError::ResultWithNegativeLamports))
    } else {
        None
    }
}

/// The accounts after a settlement that was accepted: the payout has left the
/// vault for the player, the round is settled, and the funds that rested on
/// the record are the player's.
pub open spec fn resolved(ctx: Resolve, args: ResolveArgs) -> Resolve {
    Resolve {
        player: SystemAccount {
            lamports: (ctx.player.lamports + args.payout + ctx.pending_round.lamports) as u64,
            ..ctx.player
        },
        vault: SystemAccount { lamports: (ctx.vault.lamports - args.payout) as u64, ..ctx.vault },
        pending_round: Account {
            lamports: 0,
            data: PendingRound { settled: true, ..ctx.pending_round.data },
            ..ctx.pending_round
        },
        ..ctx
    }
}

/// The notification of a settlement that was accepted.
pub open spec fn resolved_event(ctx: Resolve, args: ResolveArgs) -> RoundResolved {
    RoundResolved {
        player: ctx.pending_round.data.player,
        cashed: crash_net(ctx.pending_round.data.amount, args.multiplier_bps) > 0,
        checksum: args.checksum,
        multiplier_bps: args.multiplier_bps,
        payout: args.payout,
        nonce: ctx.pending_round.data.nonce,
    }
}

/// Settles a pending round at time `now`, given the signature check that
/// was found in the batch, if one was: checks that the round is unsettled and
/// unexpired, that the signature check was made with the backend's key, and
/// that the declared payout is what the multiplier gives; then pays the
/// player from the vault, marks the round settled and hands the record's
/// funds to the player. A refused request changes nothing.
pub fn resolve_with_check(ctx: &mut Resolve, args: ResolveArgs, now: i64, check: Option<BatchInstruction>) -> (r:
    Result<RoundResolved, Failure<CrashError>>)
    requires
        old(ctx).wf(),
    ensures
        match resolve_refusal(*old(ctx), args, now, check_data(check)) {
            Some(e) => r == Err::<RoundResolved, Failure<CrashError>>(e) && *final(ctx) == *old(ctx),
            None => r == Ok::<RoundResolved, Failure<CrashError>>(resolved_event(*old(ctx), args))
                && *final(ctx) == resolved(*old(ctx), args),
        },
        old(ctx).pending_round.data.settled ==> r == Err::<RoundResolved, Failure<CrashError>>(
            Failure::Program(CrashError::BadRound),
        ),
        !old(ctx).pending_round.data.settled && now > old(ctx).pending_round.data.expiry_unix ==> r == Err::<
            RoundResolved,
            Failure<CrashError>,
        >(Failure::Program(CrashError::Expired)),
        r is Ok ==> made_with(check_data(check), old(ctx).admin_config.data.admin_pubkey@),
        r is Ok ==> final(ctx).pending_round.data.settled,
        final(ctx).total() == old(ctx).total(),
        final(ctx).wf(),
{
    if ctx.pending_round.data.settled {
        return Err(Failure::Program(CrashError::BadRound));
    }
    if now > ctx.pending_round.data.expiry_unix {
        return Err(Failure::Program(CrashError::Expired));
    }
    if !is_made_with(&check, &ctx.admin_config.data.admin_pubkey) {
        return Err(Failure::Program(CrashError::InvalidEd25519));
    }
    if !(args.multiplier_bps >= MIN_MULT_BPS && args.multiplier_bps <= MAX_MULT_BPS) {
        return Err(Failure::Program(CrashError::BadParams));
    }
    if !(args.checksum >= 1 && args.checksum <= 100) {
        return Err(Failure::Program(CrashError::BadParams));
    }
    let net = crash_expected_net(ctx.pending_round.data.amount, args.multiplier_bps);
    if net > 0 {
        if args.payout as u128 != net {
            return Err(Failure::Program(CrashError::BadPayout));
        }
        if args.payout > MAX_PAYOUT_LAMPORTS {
            return Err(Failure::Program(CrashError::BadPayout));
        }
    } else if args.payout != 0 {
        return Err(Failure::Program(CrashError::BadPayout));
    }
    if args.payout > 0 {
        if !transfer(&mut ctx.vault.lamports, &mut ctx.player.lamports, args.payout) {
            return Err(Failure::System(SystemError::ResultWithNegativeLamports));
        }
    }
    ctx.pending_round.data.settled = true;
    let refund = ctx.pending_round.lamports;
    ctx.pending_round.lamports = 0;
    ctx.player.lamports = ctx.player.lamports + refund;
    Ok(
        RoundResolved {
            player: ctx.pending_round.data.player,
            cashed: net > 0,
            checksum: args.checksum,
            multiplier_bps: args.multiplier_bps,
            payout: args.payout,
            nonce: ctx.pending_round.data.nonce,
        },
    )
}

/// Settles a pending round at time `now`: locates the signature check in the
/// batch, by the index hint or by a scan, and settles with what was found, as
/// `resolve_with_check` does.
pub fn resolve(ctx: &mut Resolve, args: ResolveArgs, now: i64) -> (r: Result<RoundResolved, Failure<CrashError>>)
    requires
        old(ctx).wf(),
    ensures
        match resolve_refusal(
            *old(ctx),
            args,
            now,
            signature_data(old(ctx).sysvar_instructions@, args.ed25519_instr_index),
        ) {
            Some(e) => r == Err::<RoundResolved, Failure<CrashError>>(e) && *final(ctx) == *old(ctx),
            None => r == Ok::<RoundResolved, Failure<CrashError>>(resolved_event(*old(ctx), args))
                && *final(ctx) == resolved(*old(ctx), args),
        },
        old(ctx).pending_round.data.settled ==> r == Err::<RoundResolved, Failure<CrashError>>(
            Failure::Program(CrashError::BadRound),
        ),
        !old(ctx).pending_round.data.settled && now > old(ctx).pending_round.data.expiry_unix ==> r == Err::<
            RoundResolved,
            Failure<CrashError>,
        >(Failure::Program(CrashError::Expired)),
        r is Ok ==> final(ctx).pending_round.data.settled,
        final(ctx).total() == old(ctx).total(),
        final(ctx).wf(),
{
    let check = find_ed25519(&ctx.sysvar_instructions, args.ed25519_instr_index);
    resolve_with_check(ctx, args, now, check)
}

/// A round that was settled is never settled again: after a settlement that
/// was accepted, every further settlement of the same record is refused as
/// already settled, whatever it declares, whatever the batch holds and
/// whenever it comes.
pub proof fn lemma_settled_once(
    ctx: Resolve,
    first: ResolveArgs,
    at: i64,
    check: Option<Seq<u8>>,
    second: ResolveArgs,
    later: i64,
    second_check: Option<Seq<u8>>,
)
    requires
        resolve_refusal(ctx, first, at, check) is None,
    ensures
        resolve_refusal(resolved(ctx, first), second, later, second_check) == Some(
            Failure::<CrashError>::Program(CrashError::BadRound),
        ),
{
}

/// A settlement that comes after the round's deadline is refused as expired,
/// however valid the rest of it is.
pub proof fn lemma_expired_is_refused(ctx: Resolve, args: ResolveArgs, now: i64, check: Option<Seq<u8>>)
    requires
        !ctx.pending_round.data.settled,
        now > ctx.pending_round.data.expiry_unix,
    ensures
        resolve_refusal(ctx, args, now, check) == Some(Failure::<CrashError>::Program(CrashError::Expired)),
{
}

/// Authorization fails closed: a settlement whose signature check was made
/// with a key other than the configured backend key is refused, and so is
/// one with no signature check at all; on a round that is open and in time,
/// as `InvalidEd25519`.
pub proof fn lemma_foreign_key_is_refused(ctx: Resolve, args: ResolveArgs, now: i64, check: Option<Seq<u8>>)
    requires
        match check {
            Some(d) => signed_pubkey(d) != ctx.admin_config.data.admin_pubkey@,
            None => true,
        },
    ensures
        resolve_refusal(ctx, args, now, check) is Some,
        !ctx.pending_round.data.settled && now <= ctx.pending_round.data.expiry_unix ==> resolve_refusal(
            ctx,
            args,
            now,
            check,
        ) == Some(Failure::<CrashError>::Program(CrashError::InvalidEd25519)),
{
}

} // verus!
