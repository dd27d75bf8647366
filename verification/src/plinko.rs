//! Plinko on a pooled vault: the player pays a unit stake for each ball, and
//! the round is settled with a payout that the trusted backend has signed
//! over a canonical message.

use vstd::prelude::*;
use crate::batch::{
    check_data, extract_signed, find_ed25519, le_u16_at, read_u16, signature_data, signature_layout_ok, signed_msg,
    signed_pubkey, BatchInstruction,
};
use crate::codec::{
    bytes_eq, bytes_eq_32, flag_byte, flag_to_byte, get_le, get_le_spec, i64_bits, i64_from_bits, le_bytes,
    lemma_capacities, lemma_le_bytes_len, lemma_le_bytes_of_value, lemma_le_round_trip, lemma_le_value_bound,
    lemma_twos_complement_of_bits, lemma_twos_complement_round_trip, put_bytes32, put_le, twos_complement,
};
use crate::ledger::{
    opening_balance, opening_lamports, transfer, Account, Failure, Signer, SystemAccount, SystemError,
};
use crate::pubkey::{lemma_key_eq_by_bytes, Pubkey};
use crate::rules::total_stake;

verus! {

/// The smallest unit stake accepted.
pub const MIN_BET_LAMPORTS: u64 = 50_000;

/// The largest stake of a whole round.
pub const MAX_BET_LAMPORTS: u64 = 10_000_000_000_000;

/// The most that one settlement may pay out over the stake.
pub const MAX_PAYOUT_LAMPORTS: u64 = 20_000_000_000_000;

pub const MIN_ROWS: u8 = 8;

pub const MAX_ROWS: u8 = 16;

/// The most balls in one round.
pub const MAX_BALLS: u16 = 10_000;

/// The domain tag that opens every signed message: the ASCII bytes of
/// `PLINKO_V1`. A change of the message layout takes a new tag.
pub open spec fn domain_tag() -> Seq<u8> {
    seq![80u8, 76u8, 73u8, 78u8, 75u8, 79u8, 95u8, 86u8, 49u8]
}

#[derive(Clone, Copy, Debug, PartialEq, Eq)]
pub enum PlinkoError {
    InvalidIx,
    /// The batch holds no signature check of the backend over the canonical
    /// message.
    InvalidEd25519,
    /// The round's deadline has passed.
    Expired,
    /// A parameter is outside its domain.
    BadParams,
    /// The declared payout is over the cap.
    BadPayout,
    /// The round is already settled.
    AlreadySettled,
}

/// The trusted backend's public key.
#[derive(Clone, Copy, Debug, PartialEq, Eq)]
pub struct AdminConfig {
    pub admin_pubkey: [u8; 32],
}

/// A locked round that awaits settlement.
#[derive(Clone, Copy, Debug, PartialEq, Eq)]
pub struct PendingRound {
    pub player: Pubkey,
    /// The stake of one ball.
    pub unit_amount: u64,
    pub balls: u16,
    pub rows: u8,
    /// From zero to four.
    pub difficulty: u8,
    pub nonce: u64,
    pub expiry_unix: i64,
    pub settled: bool,
}

impl PendingRound {
    /// The bytes that the store sets aside for one round.
    pub const LEN: usize = 8 + 32 + 8 + 2 + 1 + 1 + 8 + 8 + 1;

    /// The bytes under which a round is stored, after the store's own
    /// eight-byte tag: the fields in their order, each identity in 32 bytes,
    /// each number little-endian in its own width, the deadline in two's
    /// complement, the flag as one byte, zero or one.
    pub open spec fn encoding(self) -> Seq<u8> {
        self.player@
            + le_bytes(self.unit_amount as nat, 8)
            + le_bytes(self.balls as nat, 2)
            + seq![self.rows]
            + seq![self.difficulty]
            + le_bytes(self.nonce as nat, 8)
            + le_bytes(twos_complement(self.expiry_unix), 8)
            + seq![flag_byte(self.settled)]
    }

    /// Whether `decoded` is what the bytes decode to: the one record that is
    /// stored under exactly these bytes, or nothing where there is none.
    pub open spec fn is_decoding(bytes: Seq<u8>, decoded: Option<PendingRound>) -> bool {
        &&& decoded matches Some(record) ==> record.encoding() == bytes
        &&& forall|record: PendingRound| record.encoding() == bytes ==> decoded == Some(record)
    }

    /// Where each field lies in the encoding.
    pub proof fn lemma_layout(self)
        ensures
            self.encoding().len() == 61,
            self.encoding().subrange(0, 32) == self.player@,
            self.encoding().subrange(32, 40) == le_bytes(self.unit_amount as nat, 8),
            self.encoding().subrange(40, 42) == le_bytes(self.balls as nat, 2),
            self.encoding().subrange(42, 43) == seq![self.rows],
            self.encoding().subrange(43, 44) == seq![self.difficulty],
            self.encoding().subrange(44, 52) == le_bytes(self.nonce as nat, 8),
            self.encoding().subrange(52, 60) == le_bytes(twos_complement(self.expiry_unix), 8),
            self.encoding().subrange(60, 61) == seq![flag_byte(self.settled)],
    {
        lemma_le_bytes_len(self.unit_amount as nat, 8);
        lemma_le_bytes_len(self.balls as nat, 2);
        lemma_le_bytes_len(self.nonce as nat, 8);
        lemma_le_bytes_len(twos_complement(self.expiry_unix), 8);
        assert(self.encoding().subrange(0, 32) =~= self.player@);
        assert(self.encoding().subrange(32, 40) =~= le_bytes(self.unit_amount as nat, 8));
        assert(self.encoding().subrange(40, 42) =~= le_bytes(self.balls as nat, 2));
        assert(self.encoding().subrange(42, 43) =~= seq![self.rows]);
        assert(self.encoding().subrange(43, 44) =~= seq![self.difficulty]);
        assert(self.encoding().subrange(44, 52) =~= le_bytes(self.nonce as nat, 8));
        assert(self.encoding().subrange(52, 60) =~= le_bytes(twos_complement(self.expiry_unix), 8));
        assert(self.encoding().subrange(60, 61) =~= seq![flag_byte(self.settled)]);
    }

    /// The encoding loses nothing: two records stored under the same bytes
    /// agree in every field.
    pub proof fn lemma_encoding_lossless(self, other: PendingRound)
        requires
            self.encoding() == other.encoding(),
        ensures
            self == other,
    {
        self.lemma_layout();
        other.lemma_layout();
        lemma_capacities();
        assert(self.player@ == other.player@);
        lemma_key_eq_by_bytes(self.player, other.player);
        assert(self.player == other.player);
        assert(le_bytes(self.unit_amount as nat, 8) == le_bytes(other.unit_amount as nat, 8));
        lemma_le_round_trip(self.unit_amount as nat, 8);
        lemma_le_round_trip(other.unit_amount as nat, 8);
        assert(self.unit_amount == other.unit_amount);
        assert(le_bytes(self.balls as nat, 2) == le_bytes(other.balls as nat, 2));
        lemma_le_round_trip(self.balls as nat, 2);
        lemma_le_round_trip(other.balls as nat, 2);
        assert(self.balls == other.balls);
        assert(seq![self.rows] == seq![other.rows]);
        assert(seq![self.rows][0] == seq![other.rows][0]);
        assert(self.rows == other.rows);
        assert(seq![self.difficulty] == seq![other.difficulty]);
        assert(seq![self.difficulty][0] == seq![other.difficulty][0]);
        assert(self.difficulty == other.difficulty);
        assert(le_bytes(self.nonce as nat, 8) == le_bytes(other.nonce as nat, 8));
        lemma_le_round_trip(self.nonce as nat, 8);
        lemma_le_round_trip(other.nonce as nat, 8);
        assert(self.nonce == other.nonce);
        assert(le_bytes(twos_complement(self.expiry_unix), 8) == le_bytes(twos_complement(other.expiry_unix), 8));
        lemma_twos_complement_round_trip(self.expiry_unix);
        lemma_twos_complement_round_trip(other.expiry_unix);
        lemma_le_round_trip(twos_complement(self.expiry_unix), 8);
        lemma_le_round_trip(twos_complement(other.expiry_unix), 8);
        assert(self.expiry_unix == other.expiry_unix);
        assert(seq![flag_byte(self.settled)] == seq![flag_byte(other.settled)]);
        assert(seq![flag_byte(self.settled)][0] == seq![flag_byte(other.settled)][0]);
        assert(self.settled == other.settled);
    }

    /// Serializes the record.
    pub fn to_bytes(&self) -> (out: Vec<u8>)
        ensures
            out@ == self.encoding(),
            out@.len() == PendingRound::LEN - 8,
    {
        let mut out: Vec<u8> = Vec::new();
        assert(out@ + self.player@ =~= self.player@);
        put_bytes32(&mut out, &self.player.bytes);
        put_le(&mut out, self.unit_amount, 8);
        put_le(&mut out, self.balls as u64, 2);
        let ghost before_rows = out@;
        out.push(self.rows);
        assert(out@ =~= before_rows + seq![self.rows]);
        let ghost before_difficulty = out@;
        out.push(self.difficulty);
        assert(out@ =~= before_difficulty + seq![self.difficulty]);
        put_le(&mut out, self.nonce, 8);
        put_le(&mut out, i64_bits(self.expiry_unix), 8);
        let ghost before_settled = out@;
        out.push(flag_to_byte(self.settled));
        assert(out@ =~= before_settled + seq![flag_byte(self.settled)]);
        proof {
            self.lemma_layout();
        }
        out
    }

    /// Deserializes a record: from bytes of the record's length whose flag
    /// byte is zero or one, and from no others.
    pub fn from_bytes(bytes: &Vec<u8>) -> (decoded: Option<PendingRound>)
        ensures
            PendingRound::is_decoding(bytes@, decoded),
            decoded is Some <==> bytes@.len() == 61 && bytes@[60] <= 1,
    {
        if bytes.len() != 61 || bytes[60] > 1 {
            proof {
                assert forall|record: PendingRound| record.encoding() != bytes@ by {
                    record.lemma_layout();
                    assert(record.encoding().subrange(60, 61)[0] == record.encoding()[60]);
                }
            }
            return None;
        }
        let player = Pubkey::from_bytes_at(bytes, 0);
        let unit_amount: u64 = get_le(bytes, 32, 8);
        proof {
            lemma_le_value_bound(bytes@.subrange(40, 42));
        }
        let balls: u16 = get_le(bytes, 40, 2) as u16;
        let rows: u8 = bytes[42];
        let difficulty: u8 = bytes[43];
        let nonce: u64 = get_le(bytes, 44, 8);
        let expiry_unix: i64 = i64_from_bits(get_le(bytes, 52, 8));
        let settled: bool = bytes[60] == 1;
        let record = PendingRound { player, unit_amount, balls, rows, difficulty, nonce, expiry_unix, settled };
        proof {
            lemma_capacities();
            lemma_twos_complement_of_bits(get_le_spec(bytes@, 52));
            lemma_le_bytes_of_value(bytes@.subrange(32, 40));
            lemma_le_bytes_of_value(bytes@.subrange(40, 42));
            assert(bytes@.subrange(42, 43) =~= seq![rows]);
            assert(bytes@.subrange(43, 44) =~= seq![difficulty]);
            lemma_le_bytes_of_value(bytes@.subrange(44, 52));
            lemma_le_bytes_of_value(bytes@.subrange(52, 60));
            assert(bytes@.subrange(60, 61) =~= seq![flag_byte(settled)]);
            assert(bytes@ =~= bytes@.subrange(0, 32)
                + bytes@.subrange(32, 40)
                + bytes@.subrange(40, 42)
                + bytes@.subrange(42, 43)
                + bytes@.subrange(43, 44)
                + bytes@.subrange(44, 52)
                + bytes@.subrange(52, 60)
                + bytes@.subrange(60, 61));
            assert(record.encoding() == bytes@);
            assert forall|other: PendingRound| other.encoding() == bytes@ implies other == record by {
                other.lemma_encoding_lossless(record);
            }
        }
        Some(record)
    }

    /// Serializing a record and deserializing the bytes gives the record
    /// back, identical in every field.
    pub proof fn lemma_round_trip(self, decoded: Option<PendingRound>)
        requires
            PendingRound::is_decoding(self.encoding(), decoded),
        ensures
            decoded == Some(self),
    {
    }
}

/// The accounts of `init_admin`.
#[derive(Clone, Copy, Debug, PartialEq, Eq)]
pub struct InitAdmin {
    pub authority: Signer,
    pub admin_config: Account<AdminConfig>,
}

/// The accounts of `init_vault`.
#[derive(Clone, Copy, Debug, PartialEq, Eq)]
pub struct InitVault {
    pub payer: Signer,
    pub vault: SystemAccount,
}

/// The accounts of `lock`; `pending_round` is the fresh record that the store
/// opened under the player and the nonce.
#[derive(Clone, Copy, Debug, PartialEq, Eq)]
pub struct Lock {
    pub player: Signer,
    pub vault: SystemAccount,
    pub pending_round: Account<PendingRound>,
}

/// The accounts of `resolve`, with the identity of the program that runs and
/// the data of the batch's instructions record.
#[derive(Clone, Debug, PartialEq, Eq)]
pub struct Resolve {
    pub program_id: Pubkey,
    pub player: SystemAccount,
    pub vault: SystemAccount,
    pub admin_config: Account<AdminConfig>,
    pub pending_round: Account<PendingRound>,
    pub sysvar_instructions: Vec<u8>,
}

#[derive(Clone, Copy, Debug, PartialEq, Eq)]
pub struct LockArgs {
    pub unit_amount: u64,
    pub balls: u16,
    pub rows: u8,
    /// From zero to four.
    pub difficulty: u8,
    pub nonce: u64,
    pub expiry_unix: i64,
}

#[derive(Clone, Copy, Debug, PartialEq, Eq)]
pub struct ResolveArgs {
    pub checksum: u8,
    /// Net of the stake: the profit alone.
    pub payout: u64,
    pub ed25519_instr_index: u8,
}

/// The notification of a locked round.
#[derive(Clone, Copy, Debug, PartialEq, Eq)]
pub struct PlinkoLocked {
    pub player: Pubkey,
    pub unit_amount: u64,
    pub balls: u16,
    pub rows: u8,
    pub difficulty: u8,
    pub nonce: u64,
}

/// The notification of a settled round.
#[derive(Clone, Copy, Debug, PartialEq, Eq)]
pub struct PlinkoResolved {
    pub player: Pubkey,
    pub payout: u64,
    pub nonce: u64,
}

impl Lock {
    /// The funds of the request fit the unit of account.
    pub open spec fn wf(&self) -> bool {
        self.player.lamports + self.vault.lamports <= u64::MAX
    }
}

impl Resolve {
    /// The funds of the request fit the unit of account.
    pub open spec fn wf(&self) -> bool {
        self.total() <= u64::MAX
    }

    /// All the funds that the request's accounts hold.
    pub open spec fn total(&self) -> int {
        self.player.lamports + self.vault.lamports + self.pending_round.lamports
    }
}

/// Records the trusted backend's key.
pub fn init_admin(ctx: &mut InitAdmin, admin_pubkey: [u8; 32]) -> (r: Result<(), Failure<PlinkoError>>)
    ensures
        r is Ok,
        *final(ctx) == (InitAdmin {
            admin_config: Account { data: AdminConfig { admin_pubkey }, ..old(ctx).admin_config },
            ..*old(ctx)
        }),
{
    ctx.admin_config.data.admin_pubkey = admin_pubkey;
    Ok(())
}

/// Whether `init_vault` opens the vault, and why not.
pub open spec fn init_vault_outcome(ctx: InitVault, rent_minimum: u64) -> Result<(), Failure<PlinkoError>> {
    if ctx.vault.lamports > 0 {
        Err(Failure::System(SystemError::AccountAlreadyInUse))
    } else if ctx.payer.lamports < opening_lamports(rent_minimum) {
        Err(Failure::System(SystemError::ResultWithNegativeLamports))
    } else {
        Ok(())
    }
}

/// Opens the pooled vault with the payer's funds. A vault that holds funds
/// exists already and is not opened again.
pub fn init_vault(ctx: &mut InitVault, rent_minimum: u64) -> (r: Result<(), Failure<PlinkoError>>)
    requires
        old(ctx).payer.lamports + old(ctx).vault.lamports <= u64::MAX,
    ensures
        r == init_vault_outcome(*old(ctx), rent_minimum),
        r is Err ==> *final(ctx) == *old(ctx),
        r is Ok ==> *final(ctx) == (InitVault {
            payer: Signer {
                lamports: (old(ctx).payer.lamports - opening_lamports(rent_minimum)) as u64,
                ..old(ctx).payer
            },
            vault: SystemAccount { lamports: opening_lamports(rent_minimum), ..old(ctx).vault },
        }),
{
    let lamports = opening_balance(rent_minimum);
    if ctx.vault.lamports > 0 {
        return Err(Failure::System(SystemError::AccountAlreadyInUse));
    }
    if !transfer(&mut ctx.payer.lamports, &mut ctx.vault.lamports, lamports) {
        return Err(Failure::System(SystemError::ResultWithNegativeLamports));
    }
    Ok(())
}

/// Whether the terms of a round are in their domains: eight to sixteen rows,
/// a difficulty up to four, one to ten thousand balls, a unit stake no
/// smaller than the minimum and a whole stake no larger than the maximum.
pub open spec fn terms_valid(args: LockArgs) -> bool {
    &&& MIN_ROWS <= args.rows <= MAX_ROWS
    &&& args.difficulty <= 4
    &&& 1 <= args.balls <= MAX_BALLS
    &&& args.unit_amount >= MIN_BET_LAMPORTS
    &&& total_stake(args.unit_amount, args.balls) <= MAX_BET_LAMPORTS
}

/// Why `lock` refuses a request, if it does: the first rule that the request
/// breaks.
pub open spec fn lock_refusal(ctx: Lock, args: LockArgs) -> Option<Failure<PlinkoError>> {
    if !terms_valid(args) {
        Some(Failure::Program(PlinkoError::BadParams))
    } else if ctx.player.lamports < total_stake(args.unit_amount, args.balls) {
        Some(Failure::System(SystemError::ResultWithNegativeLamports))
    } else {
        None
    }
}

/// The accounts after a lock that was accepted.
pub open spec fn locked(ctx: Lock, args: LockArgs) -> Lock {
    Lock {
        player: Signer {
            lamports: (ctx.player.lamports - total_stake(args.unit_amount, args.balls)) as u64,
            ..ctx.player
        },
        vault: SystemAccount {
            lamports: (ctx.vault.lamports + total_stake(args.unit_amount, args.balls)) as u64,
            ..ctx.vault
        },
        pending_round: Account {
            data: PendingRound {
                player: ctx.player.key,
                unit_amount: args.unit_amount,
                balls: args.balls,
                rows: args.rows,
                difficulty: args.difficulty,
                nonce: args.nonce,
                expiry_unix: args.expiry_unix,
                settled: false,
            },
            ..ctx.pending_round
        },
    }
}

/// Escrows the player's stake for all the balls in the vault and opens the
/// pending round. A refused request changes nothing.
pub fn lock(ctx: &mut Lock, args: LockArgs) -> (r: Result<PlinkoLocked, Failure<PlinkoError>>)
    requires
        old(ctx).wf(),
    ensures
        match lock_refusal(*old(ctx), args) {
            Some(e) => r == Err::<PlinkoLocked, Failure<PlinkoError>>(e) && *final(ctx) == *old(ctx),
            None => r == Ok::<PlinkoLocked, Failure<PlinkoError>>(
                PlinkoLocked {
                    player: old(ctx).player.key,
                    unit_amount: args.unit_amount,
                    balls: args.balls,
                    rows: args.rows,
                    difficulty: args.difficulty,
                    nonce: args.nonce,
                },
            ) && *final(ctx) == locked(*old(ctx), args),
        },
        r is Ok ==> final(ctx).vault.lamports == old(ctx).vault.lamports + total_stake(args.unit_amount, args.balls)
            && final(ctx).player.lamports == old(ctx).player.lamports - total_stake(args.unit_amount, args.balls),
        final(ctx).wf(),
{
    if !(args.rows >= MIN_ROWS && args.rows <= MAX_ROWS) {
        return Err(Failure::Program(PlinkoError::BadParams));
    }
    if !(args.difficulty <= 4) {
        return Err(Failure::Program(PlinkoError::BadParams));
    }
    if !(args.balls >= 1 && args.balls <= MAX_BALLS) {
        return Err(Failure::Program(PlinkoError::BadParams));
    }
    if !(args.unit_amount >= MIN_BET_LAMPORTS) {
        return Err(Failure::Program(PlinkoError::BadParams));
    }
    assert((args.unit_amount as int) * (args.balls as int) <= 0xffff_ffff_ffff_ffff * 10_000) by (nonlinear_arith)
        requires
            0 <= args.unit_amount as int <= 0xffff_ffff_ffff_ffff,
            0 <= args.balls as int <= 10_000,
    ;
    let total: u128 = (args.unit_amount as u128) * (args.balls as u128);
    if !(total <= MAX_BET_LAMPORTS as u128) {
        return Err(Failure::Program(PlinkoError::BadParams));
    }
    if !transfer(&mut ctx.player.lamports, &mut ctx.vault.lamports, total as u64) {
        return Err(Failure::System(SystemError::ResultWithNegativeLamports));
    }
    ctx.pending_round.data.player = ctx.player.key;
    ctx.pending_round.data.unit_amount = args.unit_amount;
    ctx.pending_round.data.balls = args.balls;
    ctx.pending_round.data.rows = args.rows;
    ctx.pending_round.data.difficulty = args.difficulty;
    ctx.pending_round.data.nonce = args.nonce;
    ctx.pending_round.data.expiry_unix = args.expiry_unix;
    ctx.pending_round.data.settled = false;
    Ok(
        PlinkoLocked {
            player: ctx.player.key,
            unit_amount: args.unit_amount,
            balls: args.balls,
            rows: args.rows,
            difficulty: args.difficulty,
            nonce: args.nonce,
        },
    )
}

/// Reads the 16-bit little-endian number at `off`, or refuses data that ends
/// before it does.
pub fn rd_u16(d: &Vec<u8>, off: usize) -> (r: Result<u16, PlinkoError>)
    ensures
        off + 2 <= d@.len() ==> r == Ok::<u16, PlinkoError>(le_u16_at(d@, off as int) as u16),
        off + 2 > d@.len() ==> r == Err::<u16, PlinkoError>(PlinkoError::InvalidEd25519),
{
    match read_u16(d, off) {
        Some(v) => Ok(v),
        None => Err(PlinkoError::InvalidEd25519),
    }
}

/// Reads the signed message and the public key, in this order, out of a
/// signature check, or refuses one whose layout is not the expected one.
pub fn extract_ed25519_msg_and_pubkey(ix: &BatchInstruction) -> (r: Result<(Vec<u8>, Vec<u8>), PlinkoError>)
    ensures
        match r {
            Ok((msg, pubkey)) => signature_layout_ok(ix.data@) && msg@ == signed_msg(ix.data@) && pubkey@
                == signed_pubkey(ix.data@),
            Err(e) => !signature_layout_ok(ix.data@) && e == PlinkoError::InvalidEd25519,
        },
{
    match extract_signed(ix) {
        Some(pair) => Ok(pair),
        None => Err(PlinkoError::InvalidEd25519),
    }
}

/// The message that the backend signs for a settlement: the domain tag, the
/// identities of the program, the vault, the player and the pending record,
/// then the unit stake in 8 bytes, the number of balls widened to 4 bytes,
/// the rows and the difficulty in one byte each, the net payout, the nonce
/// and the deadline in 8 bytes each; every number little-endian, nothing
/// between the fields.
pub open spec fn canonical_msg(
    program_id: Pubkey,
    vault: Pubkey,
    player: Pubkey,
    pending: Pubkey,
    pr: PendingRound,
    payout: u64,
) -> Seq<u8> {
    domain_tag() + program_id@ + vault@ + player@ + pending@ + le_bytes(pr.unit_amount as nat, 8) + le_bytes(
        pr.balls as nat,
        4,
    ) + seq![pr.rows] + seq![pr.difficulty] + le_bytes(payout as nat, 8) + le_bytes(pr.nonce as nat, 8)
        + le_bytes(twos_complement(pr.expiry_unix), 8)
}

/// Builds the message that the backend signs for a settlement.
pub fn build_canonical_msg(
    program_id: &Pubkey,
    vault: &Pubkey,
    player: &Pubkey,
    pending: &Pubkey,
    pr: &PendingRound,
    payout: u64,
) -> (v: Vec<u8>)
    ensures
        v@ == canonical_msg(*program_id, *vault, *player, *pending, *pr, payout),
{
    let mut v: Vec<u8> = Vec::new();
    v.push(80u8);
    v.push(76u8);
    v.push(73u8);
    v.push(78u8);
    v.push(75u8);
    v.push(79u8);
    v.push(95u8);
    v.push(86u8);
    v.push(49u8);
    assert(v@ =~= domain_tag());
    put_bytes32(&mut v, &program_id.bytes);
    put_bytes32(&mut v, &vault.bytes);
    put_bytes32(&mut v, &player.bytes);
    put_bytes32(&mut v, &pending.bytes);
    put_le(&mut v, pr.unit_amount, 8);
    put_le(&mut v, pr.balls as u64, 4);
    let ghost before_rows = v@;
    v.push(pr.rows);
    assert(v@ =~= before_rows + seq![pr.rows]);
    let ghost before_difficulty = v@;
    v.push(pr.difficulty);
    assert(v@ =~= before_difficulty + seq![pr.difficulty]);
    put_le(&mut v, payout, 8);
    put_le(&mut v, pr.nonce, 8);
    put_le(&mut v, i64_bits(pr.expiry_unix), 8);
    v
}

/// Whether a signature check authorizes a settlement: one was found, of the
/// expected layout, made with the configured backend key, over the canonical
/// message of exactly this round and this payout.
pub open spec fn authorized(ctx: Resolve, args: ResolveArgs, check: Option<Seq<u8>>) -> bool {
    match check {
        Some(d) => {
            &&& signature_layout_ok(d)
            &&& signed_pubkey(d) == ctx.admin_config.data.admin_pubkey@
            &&& signed_msg(d) == canonical_msg(
                ctx.program_id,
                ctx.vault.key,
                ctx.player.key,
                ctx.pending_round.key,
                ctx.pending_round.data,
                args.payout,
            )
        },
        None => false,
    }
}

/// What a settlement pays the player: the whole stake back and the net
/// payout on top, as far as a balance can hold it.
pub open spec fn total_out(pr: PendingRound, payout: u64) -> int {
    let sum = total_stake(pr.unit_amount, pr.balls) + payout;
    if sum > u64::MAX {
        u64::MAX as int
    } else {
        sum
    }
}

/// Why a settlement is refused at time `now`, if it is: the first rule that
/// the request breaks. `check` is the data of the signature check that the
/// batch holds, if it holds one.
pub open spec fn resolve_refusal(ctx: Resolve, args: ResolveArgs, now: i64, check: Option<Seq<u8>>) -> Option<
    Failure<PlinkoError>,
> {
    let round = ctx.pending_round.data;
    if round.settled {
        Some(Failure::Program(PlinkoError::AlreadySettled))
    } else if now > round.expiry_unix {
        Some(Failure::Program(PlinkoError::Expired))
    } else if !authorized(ctx, args, check) {
        Some(Failure::Program(PlinkoError::InvalidEd25519))
    } else if args.payout > MAX_PAYOUT_LAMPORTS {
        Some(Failure::Program(PlinkoError::BadPayout))
    } else if total_stake(round.unit_amount, round.balls) > u64::MAX {
        Some(Failure::Program(PlinkoError::BadPayout))
    } else if ctx.vault.lamports < total_out(round, args.payout) {
        Some(Failure::System(SystemError::ResultWithNegativeLamports))
    } else {
        None
    }
}

/// The accounts after a settlement that was accepted: the stake and the
/// payout have left the vault for the player, the round is settled, and the
/// funds that rested on the record are the player's.
pub open spec fn resolved(ctx: Resolve, args: ResolveArgs) -> Resolve {
    Resolve {
        player: SystemAccount {
            lamports: (ctx.player.lamports + total_out(ctx.pending_round.data, args.payout)
                + ctx.pending_round.lamports) as u64,
            ..ctx.player
        },
        vault: SystemAccount {
            lamports: (ctx.vault.lamports - total_out(ctx.pending_round.data, args.payout)) as u64,
            ..ctx.vault
        },
        pending_round: Account {
            lamports: 0,
            data: PendingRound { settled: true, ..ctx.pending_round.data },
            ..ctx.pending_round
        },
        ..ctx
    }
}

/// Checks whether the signature check that was found, if one was,
/// authorizes a settlement.
pub fn check_authorization(ctx: &Resolve, args: &ResolveArgs, check: &Option<BatchInstruction>) -> (ok: bool)
    ensures
        ok == authorized(*ctx, *args, check_data(*check)),
{
    let ed_ix = match check {
        Some(ix) => ix,
        None => {
            return false;
        },
    };
    let (signed_msg, signed_pk) = match extract_ed25519_msg_and_pubkey(ed_ix) {
        Ok(pair) => pair,
        Err(_) => {
            return false;
        },
    };
    if !bytes_eq_32(&signed_pk, &ctx.admin_config.data.admin_pubkey) {
        return false;
    }
    let expected = build_canonical_msg(
        &ctx.program_id,
        &ctx.vault.key,
        &ctx.player.key,
        &ctx.pending_round.key,
        &ctx.pending_round.data,
        args.payout,
    );
    bytes_eq(&signed_msg, &expected)
}

/// Settles a pending round at time `now`, given the signature check that
/// was found in the batch, if one was: checks that the round is unsettled and
/// unexpired and that the backend has signed exactly this settlement, holds
/// the payout to the cap, pays the player the stake and the payout from the
/// vault, marks the round settled and hands the record's funds to the
/// player. A refused request changes nothing.
pub fn resolve_with_check(ctx: &mut Resolve, args: ResolveArgs, now: i64, check: Option<BatchInstruction>) -> (r:
    Result<PlinkoResolved, Failure<PlinkoError>>)
    requires
        old(ctx).wf(),
    ensures
        match resolve_refusal(*old(ctx), args, now, check_data(check)) {
            Some(e) => r == Err::<PlinkoResolved, Failure<PlinkoError>>(e) && *final(ctx) == *old(ctx),
            None => r == Ok::<PlinkoResolved, Failure<PlinkoError>>(
                PlinkoResolved {
                    player: old(ctx).pending_round.data.player,
                    payout: args.payout,
                    nonce: old(ctx).pending_round.data.nonce,
                },
            ) && *final(ctx) == resolved(*old(ctx), args),
        },
        old(ctx).pending_round.data.settled ==> r == Err::<PlinkoResolved, Failure<PlinkoError>>(
            Failure::Program(PlinkoError::AlreadySettled),
        ),
        !old(ctx).pending_round.data.settled && now > old(ctx).pending_round.data.expiry_unix ==> r == Err::<
            PlinkoResolved,
            Failure<PlinkoError>,
        >(Failure::Program(PlinkoError::Expired)),
        r is Ok ==> authorized(*old(ctx), args, check_data(check)) && final(ctx).pending_round.data.settled
            && args.payout <= MAX_PAYOUT_LAMPORTS,
        final(ctx).total() == old(ctx).total(),
        final(ctx).wf(),
{
    if ctx.pending_round.data.settled {
        return Err(Failure::Program(PlinkoError::AlreadySettled));
    }
    if now > ctx.pending_round.data.expiry_unix {
        return Err(Failure::Program(PlinkoError::Expired));
    }
    if !check_authorization(ctx, &args, &check) {
        return Err(Failure::Program(PlinkoError::InvalidEd25519));
    }
    if args.payout > 0 {
        if !(args.payout <= MAX_PAYOUT_LAMPORTS) {
            return Err(Failure::Program(PlinkoError::BadPayout));
        }
    }
    assert((ctx.pending_round.data.unit_amount as int) * (ctx.pending_round.data.balls as int)
        <= 0xffff_ffff_ffff_ffff * 0xffff) by (nonlinear_arith)
        requires
            0 <= ctx.pending_round.data.unit_amount as int <= 0xffff_ffff_ffff_ffff,
            0 <= ctx.pending_round.data.balls as int <= 0xffff,
    ;
    let product: u128 = (ctx.pending_round.data.unit_amount as u128) * (ctx.pending_round.data.balls as u128);
    if product > u64::MAX as u128 {
        return Err(Failure::Program(PlinkoError::BadPayout));
    }
    let principal: u64 = product as u64;
    let total_out: u64 = principal.saturating_add(args.payout);
    if total_out > 0 {
        if !transfer(&mut ctx.vault.lamports, &mut ctx.player.lamports, total_out) {
            return Err(Failure::System(SystemError::ResultWithNegativeLamports));
        }
    }
    ctx.pending_round.data.settled = true;
    let refund = ctx.pending_round.lamports;
    ctx.pending_round.lamports = 0;
    ctx.player.lamports = ctx.player.lamports + refund;
    Ok(
        PlinkoResolved {
            player: ctx.pending_round.data.player,
            payout: args.payout,
            nonce: ctx.pending_round.data.nonce,
        },
    )
}

/// Settles a pending round at time `now`: locates the signature check in the
/// batch, by the index hint or by a scan, and settles with what was found, as
/// `resolve_with_check` does.
pub fn resolve(ctx: &mut Resolve, args: ResolveArgs, now: i64) -> (r: Result<PlinkoResolved, Failure<PlinkoError>>)
    requires
        old(ctx).wf(),
    ensures
        match resolve_refusal(
            *old(ctx),
            args,
            now,
            signature_data(old(ctx).sysvar_instructions@, args.ed25519_instr_index),
        ) {
            Some(e) => r == Err::<PlinkoResolved, Failure<PlinkoError>>(e) && *final(ctx) == *old(ctx),
            None => r == Ok::<PlinkoResolved, Failure<PlinkoError>>(
                PlinkoResolved {
                    player: old(ctx).pending_round.data.player,
                    payout: args.payout,
                    nonce: old(ctx).pending_round.data.nonce,
                },
            ) && *final(ctx) == resolved(*old(ctx), args),
        },
        old(ctx).pending_round.data.settled ==> r == Err::<PlinkoResolved, Failure<PlinkoError>>(
            Failure::Program(PlinkoError::AlreadySettled),
        ),
        !old(ctx).pending_round.data.settled && now > old(ctx).pending_round.data.expiry_unix ==> r == Err::<
            PlinkoResolved,
            Failure<PlinkoError>,
        >(Failure::Program(PlinkoError::Expired)),
        r is Ok ==> final(ctx).pending_round.data.settled && args.payout <= MAX_PAYOUT_LAMPORTS,
        final(ctx).total() == old(ctx).total(),
        final(ctx).wf(),
{
    let check = find_ed25519(&ctx.sysvar_instructions, args.ed25519_instr_index);
    resolve_with_check(ctx, args, now, check)
}

/// A round that was settled is never settled again: after a settlement that
/// was accepted, every further settlement of the same record is refused as
/// already settled, whatever it declares, whatever the batch holds and
/// whenever it comes.
pub proof fn lemma_settled_once(
    ctx: Resolve,
    first: ResolveArgs,
    at: i64,
    check: Option<Seq<u8>>,
    second: ResolveArgs,
    later: i64,
    second_check: Option<Seq<u8>>,
)
    requires
        resolve_refusal(ctx, first, at, check) is None,
    ensures
        resolve_refusal(resolved(ctx, first), second, later, second_check) == Some(
            Failure::<PlinkoError>::Program(PlinkoError::AlreadySettled),
        ),
{
}

/// A settlement that comes after the round's deadline is refused as expired,
/// however valid the rest of it is.
pub proof fn lemma_expired_is_refused(ctx: Resolve, args: ResolveArgs, now: i64, check: Option<Seq<u8>>)
    requires
        !ctx.pending_round.data.settled,
        now > ctx.pending_round.data.expiry_unix,
    ensures
        resolve_refusal(ctx, args, now, check) == Some(Failure::<PlinkoError>::Program(PlinkoError::Expired)),
{
}

/// Authorization fails closed: a settlement whose signature check was made
/// with a key other than the configured backend key is refused, and so is
/// one with no signature check at all; on a round that is open and in time,
/// as `InvalidEd25519`.
pub proof fn lemma_foreign_key_is_refused(ctx: Resolve, args: ResolveArgs, now: i64, check: Option<Seq<u8>>)
    requires
        match check {
            Some(d) => signed_pubkey(d) != ctx.admin_config.data.admin_pubkey@,
            None => true,
        },
    ensures
        resolve_refusal(ctx, args, now, check) is Some,
        !ctx.pending_round.data.settled && now <= ctx.pending_round.data.expiry_unix ==> resolve_refusal(
            ctx,
            args,
            now,
            check,
        ) == Some(Failure::<PlinkoError>::Program(PlinkoError::InvalidEd25519)),
{
}

/// The signature is bound to the settlement: a signature over any message
/// but the canonical one of this round and this payout is refused.
pub proof fn lemma_foreign_message_is_refused(ctx: Resolve, args: ResolveArgs, now: i64, check: Option<Seq<u8>>)
    requires
        match check {
            Some(d) => signed_msg(d) != canonical_msg(
                ctx.program_id,
                ctx.vault.key,
                ctx.player.key,
                ctx.pending_round.key,
                ctx.pending_round.data,
                args.payout,
            ),
            None => true,
        },
    ensures
        resolve_refusal(ctx, args, now, check) is Some,
{
}

} // verus!
