//! Coin flip on a pooled vault: the player pays the stake in and picks a
//! side, and the round is settled with the side that won.

use vstd::prelude::*;
use crate::batch::{
    check_data, find_ed25519, is_made_with, made_with, signature_data, signed_pubkey, BatchInstruction,
};
use crate::ledger::{
    opening_balance, opening_lamports, transfer, Account, Failure, Signer, SystemAccount, SystemError,
};
use crate::pda::{address_bytes, derived_vault, find_vault_address, is_derived};
use crate::codec::{
    flag_byte, flag_to_byte, get_le, get_le_spec, i64_bits, i64_from_bits, le_bytes, lemma_capacities,
    lemma_le_bytes_len, lemma_le_bytes_of_value, lemma_le_round_trip, lemma_le_value_bound,
    lemma_twos_complement_of_bits, lemma_twos_complement_round_trip, put_bytes32, put_le, twos_complement,
};
use crate::pubkey::{lemma_key_eq_by_bytes, Pubkey};
use crate::rules::{checksum_for, expected_checksum};

verus! {

#[derive(Clone, Copy, Debug, PartialEq, Eq)]
pub enum CfError {
    /// The stake is zero.
    BadBet,
    /// A side is neither heads nor tails.
    BadSide,
    /// The declared checksum is not the one the nonce gives.
    BadChecksum,
    /// The round is already settled.
    AlreadySettled,
    /// The player named is not the round's.
    PlayerMismatch,
    /// The vault is not the one derived for the program.
    VaultMismatch,
    /// A payout is declared for a side the player did not pick.
    WrongWinnerSide,
    /// The round's deadline has passed.
    Expired,
    /// The batch holds no signature check made with the backend's key.
    InvalidEd25519,
}

/// A locked round that awaits settlement.
#[derive(Clone, Copy, Debug, PartialEq, Eq)]
pub struct Pending {
    pub player: Pubkey,
    pub entry_lamports: u64,
    /// Zero for heads, one for tails.
    pub side: u8,
    pub nonce: u64,
    /// The deadline of the settlement, in seconds of the host's clock.
    pub expired_at: i64,
    pub settled: bool,
}

impl Pending {
    /// The bytes of one stored round.
    pub const SIZE: usize = 32 + 8 + 1 + 8 + 8 + 1;

    /// The bytes under which a round is stored: the fields in their order, each
    /// identity in 32 bytes, each number little-endian in its own width, the
    /// deadline in two's complement, the flag as one byte, zero or one.
    pub open spec fn encoding(self) -> Seq<u8> {
        self.player@
            + le_bytes(self.entry_lamports as nat, 8)
            + seq![self.side]
            + le_bytes(self.nonce as nat, 8)
            + le_bytes(twos_complement(self.expired_at), 8)
            + seq![flag_byte(self.settled)]
    }

    /// Whether `decoded` is what the bytes decode to: the one record that is
    /// stored under exactly these bytes, or nothing where there is none.
    pub open spec fn is_decoding(bytes: Seq<u8>, decoded: Option<Pending>) -> bool {
        &&& decoded matches Some(record) ==> record.encoding() == bytes
        &&& forall|record: Pending| record.encoding() == bytes ==> decoded == Some(record)
    }

    /// Where each field lies in the encoding.
    pub proof fn lemma_layout(self)
        ensures
            self.encoding().len() == 58,
            self.encoding().subrange(0, 32) == self.player@,
            self.encoding().subrange(32, 40) == le_bytes(self.entry_lamports as nat, 8),
            self.encoding().subrange(40, 41) == seq![self.side],
            self.encoding().subrange(41, 49) == le_bytes(self.nonce as nat, 8),
            self.encoding().subrange(49, 57) == le_bytes(twos_complement(self.expired_at), 8),
            self.encoding().subrange(57, 58) == seq![flag_byte(self.settled)],
    {
        lemma_le_bytes_len(self.entry_lamports as nat, 8);
        lemma_le_bytes_len(self.nonce as nat, 8);
        lemma_le_bytes_len(twos_complement(self.expired_at), 8);
        assert(self.encoding().subrange(0, 32) =~= self.player@);
        assert(self.encoding().subrange(32, 40) =~= le_bytes(self.entry_lamports as nat, 8));
        assert(self.encoding().subrange(40, 41) =~= seq![self.side]);
        assert(self.encoding().subrange(41, 49) =~= le_bytes(self.nonce as nat, 8));
        assert(self.encoding().subrange(49, 57) =~= le_bytes(twos_complement(self.expired_at), 8));
        assert(self.encoding().subrange(57, 58) =~= seq![flag_byte(self.settled)]);
    }

    /// The encoding loses nothing: two records stored under the same bytes
    /// agree in every field.
    pub proof fn lemma_encoding_lossless(self, other: Pending)
        requires
            self.encoding() == other.encoding(),
        ensures
            self == other,
    {
        self.lemma_layout();
        other.lemma_layout();
        lemma_capacities();
        assert(self.player@ == other.player@);
        lemma_key_eq_by_bytes(self.player, other.player);
        assert(self.player == other.player);
        assert(le_bytes(self.entry_lamports as nat, 8) == le_bytes(other.entry_lamports as nat, 8));
        lemma_le_round_trip(self.entry_lamports as nat, 8);
        lemma_le_round_trip(other.entry_lamports as nat, 8);
        assert(self.entry_lamports == other.entry_lamports);
        assert(seq![self.side] == seq![other.side]);
        assert(seq![self.side][0] == seq![other.side][0]);
        assert(self.side == other.side);
        assert(le_bytes(self.nonce as nat, 8) == le_bytes(other.nonce as nat, 8));
        lemma_le_round_trip(self.nonce as nat, 8);
        lemma_le_round_trip(other.nonce as nat, 8);
        assert(self.nonce == other.nonce);
        assert(le_bytes(twos_complement(self.expired_at), 8) == le_bytes(twos_complement(other.expired_at), 8));
        lemma_twos_complement_round_trip(self.expired_at);
        lemma_twos_complement_round_trip(other.expired_at);
        lemma_le_round_trip(twos_complement(self.expired_at), 8);
        lemma_le_round_trip(twos_complement(other.expired_at), 8);
        assert(self.expired_at == other.expired_at);
        assert(seq![flag_byte(self.settled)] == seq![flag_byte(other.settled)]);
        assert(seq![flag_byte(self.settled)][0] == seq![flag_byte(other.settled)][0]);
        assert(self.settled == other.settled);
    }

    /// Serializes the record.
    pub fn to_bytes(&self) -> (out: Vec<u8>)
        ensures
            out@ == self.encoding(),
            out@.len() == Pending::SIZE,
    {
        let mut out: Vec<u8> = Vec::new();
        assert(out@ + self.player@ =~= self.player@);
        put_bytes32(&mut out, &self.player.bytes);
        put_le(&mut out, self.entry_lamports, 8);
        let ghost before_side = out@;
        out.push(self.side);
        assert(out@ =~= before_side + seq![self.side]);
        put_le(&mut out, self.nonce, 8);
        put_le(&mut out, i64_bits(self.expired_at), 8);
        let ghost before_settled = out@;
        out.push(flag_to_byte(self.settled));
        assert(out@ =~= before_settled + seq![flag_byte(self.settled)]);
        proof {
            self.lemma_layout();
        }
        out
    }

    /// Deserializes a record: from bytes of the record's length whose flag
    /// byte is zero or one, and from no others.
    pub fn from_bytes(bytes: &Vec<u8>) -> (decoded: Option<Pending>)
        ensures
            Pending::is_decoding(bytes@, decoded),
            decoded is Some <==> bytes@.len() == 58 && bytes@[57] <= 1,
    {
        if bytes.len() != 58 || bytes[57] > 1 {
            proof {
                assert forall|record: Pending| record.encoding() != bytes@ by {
                    record.lemma_layout();
                    assert(record.encoding().subrange(57, 58)[0] == record.encoding()[57]);
                }
            }
            return None;
        }
        let player = Pubkey::from_bytes_at(bytes, 0);
        let entry_lamports: u64 = get_le(bytes, 32, 8);
        let side: u8 = bytes[40];
        let nonce: u64 = get_le(bytes, 41, 8);
        let expired_at: i64 = i64_from_bits(get_le(bytes, 49, 8));
        let settled: bool = bytes[57] == 1;
        let record = Pending { player, entry_lamports, side, nonce, expired_at, settled };
        proof {
            lemma_capacities();
            lemma_twos_complement_of_bits(get_le_spec(bytes@, 49));
            lemma_le_bytes_of_value(bytes@.subrange(32, 40));
            assert(bytes@.subrange(40, 41) =~= seq![side]);
            lemma_le_bytes_of_value(bytes@.subrange(41, 49));
            lemma_le_bytes_of_value(bytes@.subrange(49, 57));
            assert(bytes@.subrange(57, 58) =~= seq![flag_byte(settled)]);
            assert(bytes@ =~= bytes@.subrange(0, 32)
                + bytes@.subrange(32, 40)
                + bytes@.subrange(40, 41)
                + bytes@.subrange(41, 49)
                + bytes@.subrange(49, 57)
                + bytes@.subrange(57, 58));
            assert(record.encoding() == bytes@);
            assert forall|other: Pending| other.encoding() == bytes@ implies other == record by {
                other.lemma_encoding_lossless(record);
            }
        }
        Some(record)
    }

    /// Serializing a record and deserializing the bytes gives the record
    /// back, identical in every field.
    pub proof fn lemma_round_trip(self, decoded: Option<Pending>)
        requires
            Pending::is_decoding(self.encoding(), decoded),
        ensures
            decoded == Some(self),
    {
    }
}

/// The accounts of `initialize`.
#[derive(Clone, Copy, Debug, PartialEq, Eq)]
pub struct Initialize {
    pub authority: Signer,
    pub vault: SystemAccount,
}

/// The accounts of `lock`; `pending` is the fresh record that the store opened
/// under the player and the nonce.
#[derive(Clone, Copy, Debug, PartialEq, Eq)]
pub struct Lock {
    pub player: Signer,
    pub vault: SystemAccount,
    pub pending: Account<Pending>,
}

/// The accounts of `resolve`, with the identity of the program that runs and
/// the data of the batch's instructions record; `admin` is the trusted
/// backend's account, whose identity is its public key.
#[derive(Clone, Debug, PartialEq, Eq)]
pub struct Resolve {
    pub program_id: Pubkey,
    pub player: SystemAccount,
    pub vault: SystemAccount,
    pub admin: SystemAccount,
    pub pending: Account<Pending>,
    pub sysvar_instructions: Vec<u8>,
}

impl Lock {
    /// The funds of the request fit the unit of account.
    pub open spec fn wf(&self) -> bool {
        self.player.lamports + self.vault.lamports <= u64::MAX
    }
}

impl Resolve {
    /// The funds of the request fit the unit of account.
    pub open spec fn wf(&self) -> bool {
        self.total() <= u64::MAX
    }

    /// All the funds that the request's accounts hold.
    pub open spec fn total(&self) -> int {
        self.player.lamports + self.vault.lamports + self.pending.lamports
    }
}

/// Opens the pooled vault with the authority's funds. A vault that holds
/// funds exists already: it is left as it is, and the call succeeds.
pub fn initialize(ctx: &mut Initialize, rent_minimum: u64) -> (r: Result<(), Failure<CfError>>)
    requires
        old(ctx).authority.lamports + old(ctx).vault.lamports <= u64::MAX,
    ensures
        old(ctx).vault.lamports > 0 ==> r is Ok && *final(ctx) == *old(ctx),
        old(ctx).vault.lamports == 0 && old(ctx).authority.lamports < opening_lamports(rent_minimum) ==> r == Err::<
            (),
            Failure<CfError>,
        >(Failure::System(SystemError::ResultWithNegativeLamports)) && *final(ctx) == *old(ctx),
        old(ctx).vault.lamports == 0 && old(ctx).authority.lamports >= opening_lamports(rent_minimum) ==> r is Ok
            && *final(ctx) == (Initialize {
            authority: Signer {
                lamports: (old(ctx).authority.lamports - opening_lamports(rent_minimum)) as u64,
                ..old(ctx).authority
            },
            vault: SystemAccount { lamports: opening_lamports(rent_minimum), ..old(ctx).vault },
        }),
{
    if ctx.vault.lamports > 0 {
        return Ok(());
    }
    let rent_min = opening_balance(rent_minimum);
    if !transfer(&mut ctx.authority.lamports, &mut ctx.vault.lamports, rent_min) {
        return Err(Failure::System(SystemError::ResultWithNegativeLamports));
    }
    Ok(())
}

/// Why `lock` refuses a request, if it does: the first rule that the request
/// breaks.
pub open spec fn lock_refusal(ctx: Lock, entry_lamports: u64, side: u8) -> Option<Failure<CfError>> {
    if entry_lamports == 0 {
        Some(Failure::Program(CfError::BadBet))
    } else if side > 1 {
        Some(Failure::Program(CfError::BadSide))
    } else if ctx.player.lamports < entry_lamports {
        Some(Failure::System(SystemError::ResultWithNegativeLamports))
    } else {
        None
    }
}

/// The accounts after a lock that was accepted: the stake has moved from the
/// player to the vault, and the record holds the terms, unsettled.
pub open spec fn locked(ctx: Lock, entry_lamports: u64, side: u8, nonce: u64, expiry_unix: i64) -> Lock {
    Lock {
        player: Signer { lamports: (ctx.player.lamports - entry_lamports) as u64, ..ctx.player },
        vault: SystemAccount { lamports: (ctx.vault.lamports + entry_lamports) as u64, ..ctx.vault },
        pending: Account {
            data: Pending {
                player: ctx.player.key,
                entry_lamports: entry_lamports,
                side: side,
                nonce,
                expired_at: expiry_unix,
                settled: false,
            },
            ..ctx.pending
        },
    }
}

/// Escrows the player's stake in the vault and opens the pending round. A
/// refused request changes nothing.
pub fn lock(ctx: &mut Lock, entry_lamports: u64, side: u8, nonce: u64, expiry_unix: i64) -> (r: Result<(), Failure<CfError>>)
    requires
        old(ctx).wf(),
    ensures
        match lock_refusal(*old(ctx), entry_lamports, side) {
            Some(e) => r == Err::<(), Failure<CfError>>(e) && *final(ctx) == *old(ctx),
            None => r is Ok && *final(ctx) == locked(*old(ctx), entry_lamports, side, nonce, expiry_unix),
        },
        r is Ok ==> final(ctx).vault.lamports == old(ctx).vault.lamports + entry_lamports && final(ctx).player.lamports
            == old(ctx).player.lamports - entry_lamports,
        final(ctx).wf(),
{
    if !(entry_lamports > 0) {
        return Err(Failure::Program(CfError::BadBet));
    }
    if !(side <= 1) {
        return Err(Failure::Program(CfError::BadSide));
    }
    if !transfer(&mut ctx.player.lamports, &mut ctx.vault.lamports, entry_lamports) {
        return Err(Failure::System(SystemError::ResultWithNegativeLamports));
    }
    ctx.pending.data.player = ctx.player.key;
    ctx.pending.data.entry_lamports = entry_lamports;
    ctx.pending.data.side = side;
    ctx.pending.data.nonce = nonce;
    ctx.pending.data.expired_at = expiry_unix;
    ctx.pending.data.settled = false;
    Ok(())
}

/// Why a settlement is refused at time `now`, if it is: the first rule that
/// the request breaks. `check` is the data of the signature check that the
/// batch holds, if it holds one; `vault_pda` is the address derived for the
/// program's vault, if there is one.
pub open spec fn resolve_refusal(
    ctx: Resolve,
    checksum: u8,
    payout: u64,
    winner_side: u8,
    now: i64,
    check: Option<Seq<u8>>,
    vault_pda: Option<Seq<u8>>,
) -> Option<Failure<CfError>> {
    let round = ctx.pending.data;
    if round.settled {
        Some(Failure::Program(CfError::AlreadySettled))
    } else if now > round.expired_at {
        Some(Failure::Program(CfError::Expired))
    } else if !made_with(check, ctx.admin.key@) {
        Some(Failure::Program(CfError::InvalidEd25519))
    } else if checksum as int != expected_checksum(round.nonce) {
        Some(Failure::Program(CfError::BadChecksum))
    } else if round.player != ctx.player.key {
        Some(Failure::Program(CfError::PlayerMismatch))
    } else if winner_side > 1 {
        Some(Failure::Program(CfError::BadSide))
    } else if payout > 0 && winner_side != round.side {
        Some(Failure::Program(CfError::WrongWinnerSide))
    } else if vault_pda != Some(ctx.vault.key@) {
        Some(Failure::Program(CfError::VaultMismatch))
    } else if ctx.vault.lamports < payout {
        Some(Failure::System(SystemError::ResultWithNegativeLamports))
    } else {
        None
    }
}

/// The accounts after a settlement that was accepted: the payout has left the
/// vault for the player, the round is settled, and the funds that rested on
/// the record are the player's.
pub open spec fn resolved(ctx: Resolve, payout: u64) -> Resolve {
    Resolve {
        player: SystemAccount {
            lamports: (ctx.player.lamports + payout + ctx.pending.lamports) as u64,
            ..ctx.player
        },
        vault: SystemAccount { lamports: (ctx.vault.lamports - payout) as u64, ..ctx.vault },
        pending: Account { lamports: 0, data: Pending { settled: true, ..ctx.pending.data }, ..ctx.pending },
        ..ctx
    }
}

/// Settles a pending round at time `now`, given the signature check that
/// was found in the batch, if one was, and the address derived for the
/// program's vault: checks that the round is unsettled and unexpired, that
/// the signature check was made with the backend's key, that the checksum
/// is the one the nonce gives, that the player is the round's, that the winning side is a side
/// and, where a payout is declared, the player's side,
/// and that the vault is the derived one; then pays the player from the
/// vault, marks the round settled and hands the record's funds to the
/// player. A refused request changes nothing.
pub fn resolve_with_vault(
    ctx: &mut Resolve,
    checksum: u8,
    payout: u64,
    winner_side: u8,
    now: i64,
    check: Option<BatchInstruction>,
    vault_pda: Option<Pubkey>,
) -> (r: Result<(), Failure<CfError>>)
    requires
        old(ctx).wf(),
    ensures
        match resolve_refusal(*old(ctx), checksum, payout, winner_side, now, check_data(check), address_bytes(vault_pda)) {
            Some(e) => r == Err::<(), Failure<CfError>>(e) && *final(ctx) == *old(ctx),
            None => r is Ok && *final(ctx) == resolved(*old(ctx), payout),
        },
        r is Ok ==> made_with(check_data(check), old(ctx).admin.key@),
        old(ctx).pending.data.settled ==> r == Err::<(), Failure<CfError>>(
            Failure::Program(CfError::AlreadySettled),
        ),
        !old(ctx).pending.data.settled && now > old(ctx).pending.data.expired_at ==> r == Err::<
            (),
            Failure<CfError>,
        >(Failure::Program(CfError::Expired)),
        r is Ok ==> final(ctx).pending.data.settled,
        final(ctx).total() == old(ctx).total(),
        final(ctx).wf(),
{
    if ctx.pending.data.settled {
        return Err(Failure::Program(CfError::AlreadySettled));
    }
    if now > ctx.pending.data.expired_at {
        return Err(Failure::Program(CfError::Expired));
    }
    if !is_made_with(&check, &ctx.admin.key.bytes) {
        return Err(Failure::Program(CfError::InvalidEd25519));
    }
    let expected = checksum_for(ctx.pending.data.nonce);
    if !(checksum == expected) {
        return Err(Failure::Program(CfError::BadChecksum));
    }
    if !(ctx.pending.data.player == ctx.player.key) {
        return Err(Failure::Program(CfError::PlayerMismatch));
    }
    if !(winner_side <= 1) {
        return Err(Failure::Program(CfError::BadSide));
    }
    if payout > 0 {
        if !(winner_side == ctx.pending.data.side) {
            return Err(Failure::Program(CfError::WrongWinnerSide));
        }
    }
    if !is_derived(&vault_pda, &ctx.vault.key) {
        return Err(Failure::Program(CfError::VaultMismatch));
    }
    if payout > 0 {
        if !transfer(&mut ctx.vault.lamports, &mut ctx.player.lamports, payout) {
            return Err(Failure::System(SystemError::ResultWithNegativeLamports));
        }
    }
    ctx.pending.data.settled = true;
    let refund = ctx.pending.lamports;
    ctx.pending.lamports = 0;
    ctx.player.lamports = ctx.player.lamports + refund;
    Ok(())
}

/// Settles a pending round at time `now`: locates the signature check in the
/// batch, by the index hint or by a scan, derives the address of the
/// program's vault, and settles with both, as `resolve_with_vault` does.
pub fn resolve(ctx: &mut Resolve, checksum: u8, payout: u64, ed25519_ix_index: u8, winner_side: u8, now: i64) -> (r: Result<
    (),
    Failure<CfError>,
>)
    requires
        old(ctx).wf(),
    ensures
        match resolve_refusal(
            *old(ctx),
            checksum,
            payout,
            winner_side,
            now,
            signature_data(old(ctx).sysvar_instructions@, ed25519_ix_index),
            derived_vault(old(ctx).program_id@),
        ) {
            Some(e) => r == Err::<(), Failure<CfError>>(e) && *final(ctx) == *old(ctx),
            None => r is Ok && *final(ctx) == resolved(*old(ctx), payout),
        },
        old(ctx).pending.data.settled ==> r == Err::<(), Failure<CfError>>(
            Failure::Program(CfError::AlreadySettled),
        ),
        !old(ctx).pending.data.settled && now > old(ctx).pending.data.expired_at ==> r == Err::<
            (),
            Failure<CfError>,
        >(Failure::Program(CfError::Expired)),
        r is Ok ==> final(ctx).pending.data.settled,
        final(ctx).total() == old(ctx).total(),
        final(ctx).wf(),
{
    let check = find_ed25519(&ctx.sysvar_instructions, ed25519_ix_index);
    let vault_pda = match find_vault_address(&ctx.program_id) {
        Some((address, _)) => Some(address),
        None => None,
    };
    resolve_with_vault(ctx, checksum, payout, winner_side, now, check, vault_pda)
}

/// A round that was settled is never settled again: after a settlement that
/// was accepted, every further settlement of the same record is refused as
/// already settled, whatever it declares, whatever the batch holds and
/// whenever it comes.
pub proof fn lemma_settled_once(
    ctx: Resolve,
    checksum: u8,
    payout: u64,
    winner_side: u8,
    now: i64,
    check: Option<Seq<u8>>,
    vault_pda: Option<Seq<u8>>,
    second_checksum: u8,
    second_payout: u64,
    second_winner_side: u8,
    later: i64,
    second_check: Option<Seq<u8>>,
    second_vault_pda: Option<Seq<u8>>,
)
    requires
        resolve_refusal(ctx, checksum, payout, winner_side, now, check, vault_pda) is None,
    ensures
        resolve_refusal(
            resolved(ctx, payout),
            second_checksum,
            second_payout,
            second_winner_side,
            later,
            second_check,
            second_vault_pda,
        ) == Some(Failure::<CfError>::Program(CfError::AlreadySettled)),
{
}

/// A settlement that comes after the round's deadline is refused as expired,
/// however valid the rest of it is.
pub proof fn lemma_expired_is_refused(
    ctx: Resolve,
    checksum: u8,
    payout: u64,
    winner_side: u8,
    now: i64,
    check: Option<Seq<u8>>,
    vault_pda: Option<Seq<u8>>,
)
    requires
        !ctx.pending.data.settled,
        now > ctx.pending.data.expired_at,
    ensures
        resolve_refusal(ctx, checksum, payout, winner_side, now, check, vault_pda) == Some(
            Failure::<CfError>::Program(CfError::Expired),
        ),
{
}

/// Authorization fails closed: a settlement whose signature check was made
/// with a key other than the backend's is refused, and so is one with no
/// signature check at all; on a round that is open and in time, as
/// `InvalidEd25519`.
pub proof fn lemma_foreign_key_is_refused(
    ctx: Resolve,
    checksum: u8,
    payout: u64,
    winner_side: u8,
    now: i64,
    check: Option<Seq<u8>>,
    vault_pda: Option<Seq<u8>>,
)
    requires
        match check {
            Some(d) => signed_pubkey(d) != ctx.admin.key@,
            None => true,
        },
    ensures
        resolve_refusal(ctx, checksum, payout, winner_side, now, check, vault_pda) is Some,
        !ctx.pending.data.settled && now <= ctx.pending.data.expired_at ==> resolve_refusal(
            ctx,
            checksum,
            payout,
            winner_side,
            now,
            check,
            vault_pda,
        ) == Some(Failure::<CfError>::Program(CfError::InvalidEd25519)),
{
}

/// A settlement that declares any checksum but the one the nonce gives is
/// refused, and on a round that is open, in time and authorized, as a bad
/// checksum.
pub proof fn lemma_wrong_checksum_is_refused(
    ctx: Resolve,
    checksum: u8,
    payout: u64,
    winner_side: u8,
    now: i64,
    check: Option<Seq<u8>>,
    vault_pda: Option<Seq<u8>>,
)
    requires
        checksum as int != (ctx.pending.data.nonce as int) % 251 + 1,
    ensures
        resolve_refusal(ctx, checksum, payout, winner_side, now, check, vault_pda) is Some,
        !ctx.pending.data.settled && now <= ctx.pending.data.expired_at && made_with(check, ctx.admin.key@)
            ==> resolve_refusal(
            ctx,
            checksum,
            payout,
            winner_side,
            now,
            check,
            vault_pda,
        ) == Some(Failure::<CfError>::Program(CfError::BadChecksum)),
{
}

} // verus!
