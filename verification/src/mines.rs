//! Mines on a pooled vault: the player pays the stake in for a board, and
//! the round is settled with the payout that the backend declares.

use vstd::prelude::*;
use crate::codec::{
    flag_byte, flag_to_byte, get_le, get_le_spec, i64_bits, i64_from_bits, le_bytes, lemma_capacities,
    lemma_le_bytes_len, lemma_le_bytes_of_value, lemma_le_round_trip, lemma_le_value_bound,
    lemma_twos_complement_of_bits, lemma_twos_complement_round_trip, put_bytes32, put_le, twos_complement,
};
use crate::batch::{
    check_data, find_ed25519, is_made_with, made_with, signature_data, signed_pubkey, BatchInstruction,
};
use crate::ledger::{transfer, Account, Failure, Signer, SystemAccount, SystemError};
use crate::pda::{address_bytes, derived_vault, find_vault_address, is_derived};
use crate::pubkey::{lemma_key_eq_by_bytes, Pubkey};
use crate::rules::{checksum_for, expected_checksum, valid_board};

verus! {

#[derive(Clone, Copy, Debug, PartialEq, Eq)]
pub enum MinesError {
    /// The stake is zero.
    BadBet,
    /// The board has fewer than two or more than eight rows or columns.
    BadBoard,
    /// The board has no mine, or no free cell.
    BadMines,
    /// The declared checksum is not the one the nonce gives.
    BadChecksum,
    /// The round is already settled.
    AlreadySettled,
    /// The player named is not the round's.
    PlayerMismatch,
    /// The vault is not the one derived for the program.
    VaultMismatch,
    /// The round's deadline has passed.
    Expired,
    /// The batch holds no signature check made with the backend's key.
    InvalidEd25519,
}

/// The pooled vault: the funds rest on the account, the record is empty.
#[derive(Clone, Copy, Debug, PartialEq, Eq)]
pub struct Vault {}

/// A locked round that awaits settlement.
#[derive(Clone, Copy, Debug, PartialEq, Eq)]
pub struct Pending {
    pub player: Pubkey,
    pub bet_lamports: u64,
    pub rows: u8,
    pub cols: u8,
    pub mines: u8,
    pub nonce: u64,
    /// The deadline of the settlement, in seconds of the host's clock.
    pub expired_at: i64,
    pub settled: bool,
}

impl Pending {
    /// The bytes of one stored round.
    pub const SIZE: usize = 32 + 8 + 1 + 1 + 1 + 8 + 8 + 1;

    /// The bytes under which a round is stored: the fields in their order, each
    /// identity in 32 bytes, each number little-endian in its own width, the
    /// deadline in two's complement, the flag as one byte, zero or one.
    pub open spec fn encoding(self) -> Seq<u8> {
        self.player@
            + le_bytes(self.bet_lamports as nat, 8)
            + seq![self.rows]
            + seq![self.cols]
            + seq![self.mines]
            + le_bytes(self.nonce as nat, 8)
            + le_bytes(twos_complement(self.expired_at), 8)
            + seq![flag_byte(self.settled)]
    }

    /// Whether `decoded` is what the bytes decode to: the one record that is
    /// stored under exactly these bytes, or nothing where there is none.
    pub open spec fn is_decoding(bytes: Seq<u8>, decoded: Option<Pending>) -> bool {
        &&& decoded matches Some(record) ==> record.encoding() == bytes
        &&& forall|record: Pending| record.encoding() == bytes ==> decoded == Some(record)
    }

    /// Where each field lies in the encoding.
    pub proof fn lemma_layout(self)
        ensures
            self.encoding().len() == 60,
            self.encoding().subrange(0, 32) == self.player@,
            self.encoding().subrange(32, 40) == le_bytes(self.bet_lamports as nat, 8),
            self.encoding().subrange(40, 41) == seq![self.rows],
            self.encoding().subrange(41, 42) == seq![self.cols],
            self.encoding().subrange(42, 43) == seq![self.mines],
            self.encoding().subrange(43, 51) == le_bytes(self.nonce as nat, 8),
            self.encoding().subrange(51, 59) == le_bytes(twos_complement(self.expired_at), 8),
            self.encoding().subrange(59, 60) == seq![flag_byte(self.settled)],
    {
        lemma_le_bytes_len(self.bet_lamports as nat, 8);
        lemma_le_bytes_len(self.nonce as nat, 8);
        lemma_le_bytes_len(twos_complement(self.expired_at), 8);
        assert(self.encoding().subrange(0, 32) =~= self.player@);
        assert(self.encoding().subrange(32, 40) =~= le_bytes(self.bet_lamports as nat, 8));
        assert(self.encoding().subrange(40, 41) =~= seq![self.rows]);
        assert(self.encoding().subrange(41, 42) =~= seq![self.cols]);
        assert(self.encoding().subrange(42, 43) =~= seq![self.mines]);
        assert(self.encoding().subrange(43, 51) =~= le_bytes(self.nonce as nat, 8));
        assert(self.encoding().subrange(51, 59) =~= le_bytes(twos_complement(self.expired_at), 8));
        assert(self.encoding().subrange(59, 60) =~= seq![flag_byte(self.settled)]);
    }

    /// The encoding loses nothing: two records stored under the same bytes
    /// agree in every field.
    pub proof fn lemma_encoding_lossless(self, other: Pending)
        requires
            self.encoding() == other.encoding(),
        ensures
            self == other,
    {
        self.lemma_layout();
        other.lemma_layout();
        lemma_capacities();
        assert(self.player@ == other.player@);
        lemma_key_eq_by_bytes(self.player, other.player);
        assert(self.player == other.player);
        assert(le_bytes(self.bet_lamports as nat, 8) == le_bytes(other.bet_lamports as nat, 8));
        lemma_le_round_trip(self.bet_lamports as nat, 8);
        lemma_le_round_trip(other.bet_lamports as nat, 8);
        assert(self.bet_lamports == other.bet_lamports);
        assert(seq![self.rows] == seq![other.rows]);
        assert(seq![self.rows][0] == seq![other.rows][0]);
        assert(self.rows == other.rows);
        assert(seq![self.cols] == seq![other.cols]);
        assert(seq![self.cols][0] == seq![other.cols][0]);
        assert(self.cols == other.cols);
        assert(seq![self.mines] == seq![other.mines]);
        assert(seq![self.mines][0] == seq![other.mines][0]);
        assert(self.mines == other.mines);
        assert(le_bytes(self.nonce as nat, 8) == le_bytes(other.nonce as nat, 8));
        lemma_le_round_trip(self.nonce as nat, 8);
        lemma_le_round_trip(other.nonce as nat, 8);
        assert(self.nonce == other.nonce);
        assert(le_bytes(twos_complement(self.expired_at), 8) == le_bytes(twos_complement(other.expired_at), 8));
        lemma_twos_complement_round_trip(self.expired_at);
        lemma_twos_complement_round_trip(other.expired_at);
        lemma_le_round_trip(twos_complement(self.expired_at), 8);
        lemma_le_round_trip(twos_complement(other.expired_at), 8);
        assert(self.expired_at == other.expired_at);
        assert(seq![flag_byte(self.settled)] == seq![flag_byte(other.settled)]);
        assert(seq![flag_byte(self.settled)][0] == seq![flag_byte(other.settled)][0]);
        assert(self.settled == other.settled);
    }

    /// Serializes the record.
    pub fn to_bytes(&self) -> (out: Vec<u8>)
        ensures
            out@ == self.encoding(),
            out@.len() == Pending::SIZE,
    {
        let mut out: Vec<u8> = Vec::new();
        assert(out@ + self.player@ =~= self.player@);
        put_bytes32(&mut out, &self.player.bytes);
        put_le(&mut out, self.bet_lamports, 8);
        let ghost before_rows = out@;
        out.push(self.rows);
        assert(out@ =~= before_rows + seq![self.rows]);
        let ghost before_cols = out@;
        out.push(self.cols);
        assert(out@ =~= before_cols + seq![self.cols]);
        let ghost before_mines = out@;
        out.push(self.mines);
        assert(out@ =~= before_mines + seq![self.mines]);
        put_le(&mut out, self.nonce, 8);
        put_le(&mut out, i64_bits(self.expired_at), 8);
        let ghost before_settled = out@;
        out.push(flag_to_byte(self.settled));
        assert(out@ =~= before_settled + seq![flag_byte(self.settled)]);
        proof {
            self.lemma_layout();
        }
        out
    }

    /// Deserializes a record: from bytes of the record's length whose flag
    /// byte is zero or one, and from no others.
    pub fn from_bytes(bytes: &Vec<u8>) -> (decoded: Option<Pending>)
        ensures
            Pending::is_decoding(bytes@, decoded),
            decoded is Some <==> bytes@.len() == 60 && bytes@[59] <= 1,
    {
        if bytes.len() != 60 || bytes[59] > 1 {
            proof {
                assert forall|record: Pending| record.encoding() != bytes@ by {
                    record.lemma_layout();
                    assert(record.encoding().subrange(59, 60)[0] == record.encoding()[59]);
                }
            }
            return None;
        }
        let player = Pubkey::from_bytes_at(bytes, 0);
        let bet_lamports: u64 = get_le(bytes, 32, 8);
        let rows: u8 = bytes[40];
        let cols: u8 = bytes[41];
        let mines: u8 = bytes[42];
        let nonce: u64 = get_le(bytes, 43, 8);
        let expired_at: i64 = i64_from_bits(get_le(bytes, 51, 8));
        let settled: bool = bytes[59] == 1;
        let record = Pending { player, bet_lamports, rows, cols, mines, nonce, expired_at, settled };
        proof {
            lemma_capacities();
            lemma_twos_complement_of_bits(get_le_spec(bytes@, 51));
            lemma_le_bytes_of_value(bytes@.subrange(32, 40));
            assert(bytes@.subrange(40, 41) =~= seq![rows]);
            assert(bytes@.subrange(41, 42) =~= seq![cols]);
            assert(bytes@.subrange(42, 43) =~= seq![mines]);
            lemma_le_bytes_of_value(bytes@.subrange(43, 51));
            lemma_le_bytes_of_value(bytes@.subrange(51, 59));
            assert(bytes@.subrange(59, 60) =~= seq![flag_byte(settled)]);
            assert(bytes@ =~= bytes@.subrange(0, 32)
                + bytes@.subrange(32, 40)
                + bytes@.subrange(40, 41)
                + bytes@.subrange(41, 42)
                + bytes@.subrange(42, 43)
                + bytes@.subrange(43, 51)
                + bytes@.subrange(51, 59)
                + bytes@.subrange(59, 60));
            assert(record.encoding() == bytes@);
            assert forall|other: Pending| other.encoding() == bytes@ implies other == record by {
                other.lemma_encoding_lossless(record);
            }
        }
        Some(record)
    }

    /// Serializing a record and deserializing the bytes gives the record
    /// back, identical in every field.
    pub proof fn lemma_round_trip(self, decoded: Option<Pending>)
        requires
            Pending::is_decoding(self.encoding(), decoded),
        ensures
            decoded == Some(self),
    {
    }
}

/// The accounts of `initialize`.
#[derive(Clone, Copy, Debug, PartialEq, Eq)]
pub struct Initialize {
    pub authority: Signer,
    pub vault: Account<Vault>,
}

/// The accounts of `lock`; `pending` is the fresh record that the store opened
/// under the player and the nonce.
#[derive(Clone, Copy, Debug, PartialEq, Eq)]
pub struct Lock {
    pub player: Signer,
    pub vault: Account<Vault>,
    pub pending: Account<Pending>,
}

/// The accounts of `resolve`, with the identity of the program that runs and
/// the data of the batch's instructions record; `admin` is the trusted
/// backend's account, whose identity is its public key.
#[derive(Clone, Debug, PartialEq, Eq)]
pub struct Resolve {
    pub program_id: Pubkey,
    pub player: SystemAccount,
    pub vault: Account<Vault>,
    pub admin: SystemAccount,
    pub pending: Account<Pending>,
    pub sysvar_instructions: Vec<u8>,
}

impl Lock {
    /// The funds of the request fit the unit of account.
    pub open spec fn wf(&self) -> bool {
        self.player.lamports + self.vault.lamports <= u64::MAX
    }
}

impl Resolve {
    /// The funds of the request fit the unit of account.
    pub open spec fn wf(&self) -> bool {
        self.total() <= u64::MAX
    }

    /// All the funds that the request's accounts hold.
    pub open spec fn total(&self) -> int {
        self.player.lamports + self.vault.lamports + self.pending.lamports
    }
}

/// Accepts the vault that the store has opened: there is nothing to set.
pub fn initialize(ctx: &mut Initialize) -> (r: Result<(), Failure<MinesError>>)
    ensures
        r is Ok,
        *final(ctx) == *old(ctx),
{
    Ok(())
}

/// Why `lock` refuses a request, if it does: the first rule that the request
/// breaks.
pub open spec fn lock_refusal(ctx: Lock, bet_lamports: u64, rows: u8, cols: u8, mines: u8) -> Option<Failure<MinesError>> {
    if bet_lamports == 0 {
        Some(Failure::Program(MinesError::BadBet))
    } else if !(2 <= rows <= 8 && 2 <= cols <= 8) {
        Some(Failure::Program(MinesError::BadBoard))
    } else if !valid_board(rows, cols, mines) {
        Some(Failure::Program(MinesError::BadMines))
    } else if ctx.player.lamports < bet_lamports {
        Some(Failure::System(SystemError::ResultWithNegativeLamports))
    } else {
        None
    }
}

/// The accounts after a lock that was accepted: the stake has moved from the
/// player to the vault, and the record holds the terms, unsettled.
pub open spec fn locked(ctx: Lock, bet_lamports: u64, rows: u8, cols: u8, mines: u8, nonce: u64, expiry_unix: i64) -> Lock {
    Lock {
        player: Signer { lamports: (ctx.player.lamports - bet_lamports) as u64, ..ctx.player },
        vault: Account { lamports: (ctx.vault.lamports + bet_lamports) as u64, ..ctx.vault },
        pending: Account {
            data: Pending {
                player: ctx.player.key,
                bet_lamports: bet_lamports,
                rows: rows,
                cols: cols,
                mines: mines,
                nonce,
                expired_at: expiry_unix,
                settled: false,
            },
            ..ctx.pending
        },
    }
}

/// Escrows the player's stake in the vault and opens the pending round. A
/// refused request changes nothing.
pub fn lock(ctx: &mut Lock, bet_lamports: u64, rows: u8, cols: u8, mines: u8, nonce: u64, expiry_unix: i64) -> (r: Result<(), Failure<MinesError>>)
    requires
        old(ctx).wf(),
    ensures
        match lock_refusal(*old(ctx), bet_lamports, rows, cols, mines) {
            Some(e) => r == Err::<(), Failure<MinesError>>(e) && *final(ctx) == *old(ctx),
            None => r is Ok && *final(ctx) == locked(*old(ctx), bet_lamports, rows, cols, mines, nonce, expiry_unix),
        },
        r is Ok ==> final(ctx).vault.lamports == old(ctx).vault.lamports + bet_lamports && final(ctx).player.lamports
            == old(ctx).player.lamports - bet_lamports,
        final(ctx).wf(),
{
    if !(bet_lamports > 0) {
        return Err(Failure::Program(MinesError::BadBet));
    }
    if !(rows >= 2 && rows <= 8) {
        return Err(Failure::Program(MinesError::BadBoard));
    }
    if !(cols >= 2 && cols <= 8) {
        return Err(Failure::Program(MinesError::BadBoard));
    }
    assert((rows as int) * (cols as int) <= 64) by (nonlinear_arith)
        requires
            0 <= rows as int <= 8,
            0 <= cols as int <= 8,
    ;
    let total: u16 = (rows as u16) * (cols as u16);
    if !(mines >= 1 && (mines as u16) < total) {
        return Err(Failure::Program(MinesError::BadMines));
    }
    if !transfer(&mut ctx.player.lamports, &mut ctx.vault.lamports, bet_lamports) {
        return Err(Failure::System(SystemError::ResultWithNegativeLamports));
    }
    ctx.pending.data.player = ctx.player.key;
    ctx.pending.data.bet_lamports = bet_lamports;
    ctx.pending.data.rows = rows;
    ctx.pending.data.cols = cols;
    ctx.pending.data.mines = mines;
    ctx.pending.data.nonce = nonce;
    ctx.pending.data.expired_at = expiry_unix;
    ctx.pending.data.settled = false;
    Ok(())
}

/// Why a settlement is refused at time `now`, if it is: the first rule that
/// the request breaks. `check` is the data of the signature check that the
/// batch holds, if it holds one; `vault_pda` is the address derived for the
/// program's vault, if there is one.
pub open spec fn resolve_refusal(
    ctx: Resolve,
    checksum: u8,
    payout: u64,
    now: i64,
    check: Option<Seq<u8>>,
    vault_pda: Option<Seq<u8>>,
) -> Option<Failure<MinesError>> {
    let round = ctx.pending.data;
    if round.settled {
        Some(Failure::Program(MinesError::AlreadySettled))
    } else if now > round.expired_at {
        Some(Failure::Program(MinesError::Expired))
    } else if !made_with(check, ctx.admin.key@) {
        Some(Failure::Program(MinesError::InvalidEd25519))
    } else if checksum as int != expected_checksum(round.nonce) {
        Some(Failure::Program(MinesError::BadChecksum))
    } else if round.player != ctx.player.key {
        Some(Failure::Program(MinesError::PlayerMismatch))
    } else if vault_pda != Some(ctx.vault.key@) {
        Some(Failure::Program(MinesError::VaultMismatch))
    } else if ctx.vault.lamports < payout {
        Some(Failure::System(SystemError::ResultWithNegativeLamports))
    } else {
        None
    }
}

/// The accounts after a settlement that was accepted: the payout has left the
/// vault for the player, the round is settled, and the funds that rested on
/// the record are the player's.
pub open spec fn resolved(ctx: Resolve, payout: u64) -> Resolve {
    Resolve {
        player: SystemAccount {
            lamports: (ctx.player.lamports + payout + ctx.pending.lamports) as u64,
            ..ctx.player
        },
        vault: Account { lamports: (ctx.vault.lamports - payout) as u64, ..ctx.vault },
        pending: Account { lamports: 0, data: Pending { settled: true, ..ctx.pending.data }, ..ctx.pending },
        ..ctx
    }
}

/// Settles a pending round at time `now`, given the signature check that
/// was found in the batch, if one was, and the address derived for the
/// program's vault: checks that the round is unsettled and unexpired, that
/// the signature check was made with the backend's key, that the checksum
/// is the one the nonce gives, that the player is the round's,
/// and that the vault is the derived one; then pays the player from the
/// vault, marks the round settled and hands the record's funds to the
/// player. A refused request changes nothing.
pub fn resolve_with_vault(
    ctx: &mut Resolve,
    checksum: u8,
    payout: u64,
    now: i64,
    check: Option<BatchInstruction>,
    vault_pda: Option<Pubkey>,
) -> (r: Result<(), Failure<MinesError>>)
    requires
        old(ctx).wf(),
    ensures
        match resolve_refusal(*old(ctx), checksum, payout, now, check_data(check), address_bytes(vault_pda)) {
            Some(e) => r == Err::<(), Failure<MinesError>>(e) && *final(ctx) == *old(ctx),
            None => r is Ok && *final(ctx) == resolved(*old(ctx), payout),
        },
        r is Ok ==> made_with(check_data(check), old(ctx).admin.key@),
        old(ctx).pending.data.settled ==> r == Err::<(), Failure<MinesError>>(
            Failure::Program(MinesError::AlreadySettled),
        ),
        !old(ctx).pending.data.settled && now > old(ctx).pending.data.expired_at ==> r == Err::<
            (),
            Failure<MinesError>,
        >(Failure::Program(MinesError::Expired)),
        r is Ok ==> final(ctx).pending.data.settled,
        final(ctx).total() == old(ctx).total(),
        final(ctx).wf(),
{
    if ctx.pending.data.settled {
        return Err(Failure::Program(MinesError::AlreadySettled));
    }
    if now > ctx.pending.data.expired_at {
        return Err(Failure::Program(MinesError::Expired));
    }
    if !is_made_with(&check, &ctx.admin.key.bytes) {
        return Err(Failure::Program(MinesError::InvalidEd25519));
    }
    let expected = checksum_for(ctx.pending.data.nonce);
    if !(checksum == expected) {
        return Err(Failure::Program(MinesError::BadChecksum));
    }
    if !(ctx.pending.data.player == ctx.player.key) {
        return Err(Failure::Program(MinesError::PlayerMismatch));
    }
    if !is_derived(&vault_pda, &ctx.vault.key) {
        return Err(Failure::Program(MinesError::VaultMismatch));
    }
    if payout > 0 {
        if !transfer(&mut ctx.vault.lamports, &mut ctx.player.lamports, payout) {
            return Err(Failure::System(SystemError::ResultWithNegativeLamports));
        }
    }
    ctx.pending.data.settled = true;
    let refund = ctx.pending.lamports;
    ctx.pending.lamports = 0;
    ctx.player.lamports = ctx.player.lamports + refund;
    Ok(())
}

/// Settles a pending round at time `now`: locates the signature check in the
/// batch, by the index hint or by a scan, derives the address of the
/// program's vault, and settles with both, as `resolve_with_vault` does.
pub fn resolve(ctx: &mut Resolve, checksum: u8, payout: u64, ed25519_instr_index: u8, now: i64) -> (r: Result<
    (),
    Failure<MinesError>,
>)
    requires
        old(ctx).wf(),
    ensures
        match resolve_refusal(
            *old(ctx),
            checksum,
            payout,
            now,
            signature_data(old(ctx).sysvar_instructions@, ed25519_instr_index),
            derived_vault(old(ctx).program_id@),
        ) {
            Some(e) => r == Err::<(), Failure<MinesError>>(e) && *final(ctx) == *old(ctx),
            None => r is Ok && *final(ctx) == resolved(*old(ctx), payout),
        },
        old(ctx).pending.data.settled ==> r == Err::<(), Failure<MinesError>>(
            Failure::Program(MinesError::AlreadySettled),
        ),
        !old(ctx).pending.data.settled && now > old(ctx).pending.data.expired_at ==> r == Err::<
            (),
            Failure<MinesError>,
        >(Failure::Program(MinesError::Expired)),
        r is Ok ==> final(ctx).pending.data.settled,
        final(ctx).total() == old(ctx).total(),
        final(ctx).wf(),
{
    let check = find_ed25519(&ctx.sysvar_instructions, ed25519_instr_index);
    let vault_pda = match find_vault_address(&ctx.program_id) {
        Some((address, _)) => Some(address),
        None => None,
    };
    resolve_with_vault(ctx, checksum, payout, now, check, vault_pda)
}

/// A round that was settled is never settled again: after a settlement that
/// was accepted, every further settlement of the same record is refused as
/// already settled, whatever it declares, whatever the batch holds and
/// whenever it comes.
pub proof fn lemma_settled_once(
    ctx: Resolve,
    checksum: u8,
    payout: u64,
    now: i64,
    check: Option<Seq<u8>>,
    vault_pda: Option<Seq<u8>>,
    second_checksum: u8,
    second_payout: u64,
    later: i64,
    second_check: Option<Seq<u8>>,
    second_vault_pda: Option<Seq<u8>>,
)
    requires
        resolve_refusal(ctx, checksum, payout, now, check, vault_pda) is None,
    ensures
        resolve_refusal(
            resolved(ctx, payout),
            second_checksum,
            second_payout,
            later,
            second_check,
            second_vault_pda,
        ) == Some(Failure::<MinesError>::Program(MinesError::AlreadySettled)),
{
}

/// A settlement that comes after the round's deadline is refused as expired,
/// however valid the rest of it is.
pub proof fn lemma_expired_is_refused(
    ctx: Resolve,
    checksum: u8,
    payout: u64,
    now: i64,
    check: Option<Seq<u8>>,
    vault_pda: Option<Seq<u8>>,
)
    requires
        !ctx.pending.data.settled,
        now > ctx.pending.data.expired_at,
    ensures
        resolve_refusal(ctx, checksum, payout, now, check, vault_pda) == Some(
            Failure::<MinesError>::Program(MinesError::Expired),
        ),
{
}

/// Authorization fails closed: a settlement whose signature check was made
/// with a key other than the backend's is refused, and so is one with no
/// signature check at all; on a round that is open and in time, as
/// `InvalidEd25519`.
pub proof fn lemma_foreign_key_is_refused(
    ctx: Resolve,
    checksum: u8,
    payout: u64,
    now: i64,
    check: Option<Seq<u8>>,
    vault_pda: Option<Seq<u8>>,
)
    requires
        match check {
            Some(d) => signed_pubkey(d) != ctx.admin.key@,
            None => true,
        },
    ensures
        resolve_refusal(ctx, checksum, payout, now, check, vault_pda) is Some,
        !ctx.pending.data.settled && now <= ctx.pending.data.expired_at ==> resolve_refusal(
            ctx,
            checksum,
            payout,
            now,
            check,
            vault_pda,
        ) == Some(Failure::<MinesError>::Program(MinesError::InvalidEd25519)),
{
}

/// A settlement that declares any checksum but the one the nonce gives is
/// refused, and on a round that is open, in time and authorized, as a bad
/// checksum.
pub proof fn lemma_wrong_checksum_is_refused(
    ctx: Resolve,
    checksum: u8,
    payout: u64,
    now: i64,
    check: Option<Seq<u8>>,
    vault_pda: Option<Seq<u8>>,
)
    requires
        checksum as int != (ctx.pending.data.nonce as int) % 251 + 1,
    ensures
        resolve_refusal(ctx, checksum, payout, now, check, vault_pda) is Some,
        !ctx.pending.data.settled && now <= ctx.pending.data.expired_at && made_with(check, ctx.admin.key@)
            ==> resolve_refusal(
            ctx,
            checksum,
            payout,
            now,
            check,
            vault_pda,
        ) == Some(Failure::<MinesError>::Program(MinesError::BadChecksum)),
{
}

} // verus!
