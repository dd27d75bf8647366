//! The batch of operations that were submitted together with a request, as the
//! host lays it out in its instructions record, and the search in it for the
//! operation that checked a detached signature.

use vstd::prelude::*;
use crate::codec::{bytes_eq_32, copy_range};
use crate::pubkey::Pubkey;

verus! {

/// One operation of the batch: the program it addresses and the data handed
/// to that program.
#[derive(Debug)]
pub struct BatchInstruction {
    pub program_id: Pubkey,
    pub data: Vec<u8>,
}

/// What `load_instruction_at_checked` of the host library reads at `index` in
/// an instructions record with the given data: the addressed program and the
/// operation's data, or nothing where the record holds no readable operation
/// there.
pub uninterp spec fn instruction_at(sysvar_data: Seq<u8>, index: int) -> Option<(Seq<u8>, Seq<u8>)>;

/// The identity of the host's program that checks detached signatures: the
/// 32 bytes that the host writes as
/// `Ed25519SigVerify111111111111111111111111111`.
pub open spec fn ed25519_program_id() -> Seq<u8> {
    seq![
        3u8, 125u8, 70u8, 214u8, 124u8, 147u8, 251u8, 190u8,
        18u8, 249u8, 66u8, 143u8, 131u8, 141u8, 64u8, 255u8,
        5u8, 112u8, 116u8, 73u8, 39u8, 244u8, 138u8, 100u8,
        252u8, 202u8, 112u8, 68u8, 128u8, 0u8, 0u8, 0u8,
    ]
}

/// The identity of the program that checks detached signatures.
pub fn ed25519_program_key() -> (key: Pubkey)
    ensures
        key@ == ed25519_program_id(),
{
    let bytes: [u8; 32] = [
        3u8, 125u8, 70u8, 214u8, 124u8, 147u8, 251u8, 190u8,
        18u8, 249u8, 66u8, 143u8, 131u8, 141u8, 64u8, 255u8,
        5u8, 112u8, 116u8, 73u8, 39u8, 244u8, 138u8, 100u8,
        252u8, 202u8, 112u8, 68u8, 128u8, 0u8, 0u8, 0u8,
    ];
    assert(bytes@ =~= ed25519_program_id());
    Pubkey { bytes }
}

/// Calls `anchor_lang::solana_program::sysvar::instructions::load_instruction_at_checked`
/// on an account that carries the instructions record's address and the given
/// data. The host library decodes the operation from the data alone, so the
/// contract names what it reads; a failed read gives `None`.
#[verifier::external_body]
pub(crate) fn load_instruction_at(index: usize, sysvar_data: &Vec<u8>) -> (loaded: Option<BatchInstruction>)
    ensures
        match loaded {
            Some(ix) => instruction_at(sysvar_data@, index as int) == Some((ix.program_id@, ix.data@)),
            None => instruction_at(sysvar_data@, index as int) is None,
        },
{
    let key = anchor_lang::solana_program::sysvar::instructions::ID;
    let mut lamports = 0u64;
    let mut data = sysvar_data.clone();
    let info = anchor_lang::prelude::AccountInfo::new(&key, false, false, &mut lamports, &mut data, &key, false, 0);
    match anchor_lang::solana_program::sysvar::instructions::load_instruction_at_checked(index, &info) {
        Ok(ix) => Some(BatchInstruction { program_id: Pubkey { bytes: ix.program_id.to_bytes() }, data: ix.data }),
        Err(_) => None,
    }
}

/// The index that an instructions record keeps of the operation now running:
/// its last two bytes, little-endian.
pub open spec fn current_index(sysvar_data: Seq<u8>) -> int
    recommends
        sysvar_data.len() >= 2,
{
    sysvar_data[sysvar_data.len() - 2] as int + 256 * (sysvar_data[sysvar_data.len() - 1] as int)
}

/// Calls `anchor_lang::solana_program::sysvar::instructions::load_current_index_checked`
/// on an account that carries the instructions record's address and the given
/// data. The host library refuses only an account with another address, and
/// reads the last two bytes as a little-endian number; it indexes them
/// without a test, so shorter data is kept out.
#[verifier::external_body]
pub(crate) fn load_current_index(sysvar_data: &Vec<u8>) -> (index: u16)
    requires
        sysvar_data@.len() >= 2,
    ensures
        index as int == current_index(sysvar_data@),
{
    let key = anchor_lang::solana_program::sysvar::instructions::ID;
    let mut lamports = 0u64;
    let mut data = sysvar_data.clone();
    let info = anchor_lang::prelude::AccountInfo::new(&key, false, false, &mut lamports, &mut data, &key, false, 0);
    match anchor_lang::solana_program::sysvar::instructions::load_current_index_checked(&info) {
        Ok(index) => index,
        Err(_) => 0,
    }
}

/// Calls `anchor_lang::solana_program::ed25519_program::check_id`, which
/// compares an identity with the identity that the host declares for the
/// program that checks detached signatures.
#[verifier::external_body]
pub(crate) fn is_ed25519_program(program_id: &Pubkey) -> (same: bool)
    ensures
        same == (program_id@ == ed25519_program_id()),
{
    let id = anchor_lang::prelude::Pubkey::new_from_array(program_id.bytes);
    anchor_lang::solana_program::ed25519_program::check_id(&id)
}

/// Whether the operation at `index` of the batch is readable and addresses
/// the program that checks detached signatures.
pub open spec fn is_ed25519_at(sysvar_data: Seq<u8>, index: int) -> bool {
    match instruction_at(sysvar_data, index) {
        Some((program_id, _)) => program_id == ed25519_program_id(),
        None => false,
    }
}

/// Whether `index` is the first place before the running operation at which
/// the batch holds a signature check.
pub open spec fn is_first_ed25519(sysvar_data: Seq<u8>, index: int) -> bool {
    &&& sysvar_data.len() >= 2
    &&& 0 <= index < current_index(sysvar_data)
    &&& is_ed25519_at(sysvar_data, index)
    &&& forall|j: int| 0 <= j < index ==> !is_ed25519_at(sysvar_data, j)
}

/// Whether `index` is where the signature check of the batch is taken from:
/// the hinted place if a signature check stands there, and else the first
/// one among the operations that precede the running one.
pub open spec fn is_ed25519_pick(sysvar_data: Seq<u8>, hinted_idx: u8, index: int) -> bool {
    if is_ed25519_at(sysvar_data, hinted_idx as int) {
        index == hinted_idx as int
    } else {
        is_first_ed25519(sysvar_data, index)
    }
}

/// The signature check of the batch, if it holds one where it is looked for:
/// the program it addresses and its data.
pub open spec fn signature_check(sysvar_data: Seq<u8>, hinted_idx: u8) -> Option<(Seq<u8>, Seq<u8>)> {
    if exists|index: int| is_ed25519_pick(sysvar_data, hinted_idx, index) {
        instruction_at(sysvar_data, choose|index: int| is_ed25519_pick(sysvar_data, hinted_idx, index))
    } else {
        None
    }
}

/// The data of the signature check of the batch, if it holds one where it is
/// looked for.
pub open spec fn signature_data(sysvar_data: Seq<u8>, hinted_idx: u8) -> Option<Seq<u8>> {
    match signature_check(sysvar_data, hinted_idx) {
        Some((_, data)) => Some(data),
        None => None,
    }
}

/// The data of a signature check that was or was not found.
pub open spec fn check_data(check: Option<BatchInstruction>) -> Option<Seq<u8>> {
    match check {
        Some(ix) => Some(ix.data@),
        None => None,
    }
}

/// Whether the batch holds a signature check at the hinted place or before
/// the running operation.
pub open spec fn ed25519_present(sysvar_data: Seq<u8>, hinted_idx: u8) -> bool {
    signature_check(sysvar_data, hinted_idx) is Some
}

/// Locates the signature check of the batch: by the index hint, falling back
/// to a scan of the operations that precede the running one. Data too short
/// to hold the running index is scanned no further than the hint.
pub fn find_ed25519(sysvar_data: &Vec<u8>, hinted_idx: u8) -> (found: Option<BatchInstruction>)
    ensures
        match found {
            Some(ix) => signature_check(sysvar_data@, hinted_idx) == Some((ix.program_id@, ix.data@)),
            None => signature_check(sysvar_data@, hinted_idx) is None,
        },
        check_data(found) == signature_data(sysvar_data@, hinted_idx),
        found is Some <==> ed25519_present(sysvar_data@, hinted_idx),
{
    let hinted: usize = hinted_idx as usize;
    match load_instruction_at(hinted, sysvar_data) {
        Some(ix) => {
            if is_ed25519_program(&ix.program_id) {
                proof {
                    lemma_signature_check_at(sysvar_data@, hinted_idx, hinted_idx as int);
                }
                return Some(ix);
            }
        },
        None => {},
    }
    assert(!is_ed25519_at(sysvar_data@, hinted_idx as int));
    if sysvar_data.len() < 2 {
        return None;
    }
    let cur_idx: u16 = load_current_index(sysvar_data);
    let mut i: u16 = 0;
    while i < cur_idx
        invariant
            i <= cur_idx,
            sysvar_data@.len() >= 2,
            cur_idx as int == current_index(sysvar_data@),
            !is_ed25519_at(sysvar_data@, hinted_idx as int),
            forall|j: int| 0 <= j < i ==> !is_ed25519_at(sysvar_data@, j),
        decreases cur_idx - i,
    {
        match load_instruction_at(i as usize, sysvar_data) {
            Some(ix) => {
                if is_ed25519_program(&ix.program_id) {
                    proof {
                        lemma_signature_check_at(sysvar_data@, hinted_idx, i as int);
                    }
                    return Some(ix);
                }
            },
            None => {},
        }
        i += 1;
    }
    None
}

/// Where an index is the pick, the signature check is the operation there.
pub proof fn lemma_signature_check_at(sysvar_data: Seq<u8>, hinted_idx: u8, index: int)
    requires
        is_ed25519_pick(sysvar_data, hinted_idx, index),
    ensures
        signature_check(sysvar_data, hinted_idx) == instruction_at(sysvar_data, index),
        signature_check(sysvar_data, hinted_idx) is Some,
{
    let chosen = choose|i: int| is_ed25519_pick(sysvar_data, hinted_idx, i);
    lemma_ed25519_pick_unique(sysvar_data, hinted_idx, chosen, index);
}

/// A pick, where there is one, is the only one.
pub proof fn lemma_ed25519_pick_unique(sysvar_data: Seq<u8>, hinted_idx: u8, a: int, b: int)
    requires
        is_ed25519_pick(sysvar_data, hinted_idx, a),
        is_ed25519_pick(sysvar_data, hinted_idx, b),
    ensures
        a == b,
{
    if a < b {
        assert(!is_ed25519_at(sysvar_data, a));
    } else if b < a {
        assert(!is_ed25519_at(sysvar_data, b));
    }
}

/// The 16-bit number that two bytes at `off` spell, least significant first.
pub open spec fn le_u16_at(d: Seq<u8>, off: int) -> int {
    d[off] as int + 256 * (d[off + 1] as int)
}

/// Reads the 16-bit little-endian number at `off`, or nothing from data that
/// ends before it does.
pub fn read_u16(d: &Vec<u8>, off: usize) -> (r: Option<u16>)
    ensures
        off + 2 <= d@.len() ==> r == Some(le_u16_at(d@, off as int) as u16),
        off + 2 > d@.len() ==> r is None,
{
    if d.len() < 2 || off > d.len() - 2 {
        return None;
    }
    let low: u16 = d[off] as u16;
    let high: u16 = d[off + 1] as u16;
    Some(low + 256 * high)
}

/// Whether the data of a signature check has the layout that is read here:
/// at least the sixteen bytes of the header, one signature, and a public key
/// and a message that lie within the data at the offsets the header gives.
pub open spec fn signature_layout_ok(d: Seq<u8>) -> bool {
    &&& d.len() >= 16
    &&& d[0] == 1
    &&& le_u16_at(d, 6) + 32 <= d.len()
    &&& le_u16_at(d, 10) + le_u16_at(d, 12) <= d.len()
}

/// The public key that a signature check names: 32 bytes at the offset that
/// stands at byte 6 of the header.
pub open spec fn signed_pubkey(d: Seq<u8>) -> Seq<u8> {
    d.subrange(le_u16_at(d, 6), le_u16_at(d, 6) + 32)
}

/// The message that a signature check covers: at the offset that stands at
/// byte 10 of the header, of the size that stands at byte 12.
pub open spec fn signed_msg(d: Seq<u8>) -> Seq<u8> {
    d.subrange(le_u16_at(d, 10), le_u16_at(d, 10) + le_u16_at(d, 12))
}

/// Reads the signed message and the public key, in this order, out of a
/// signature check, or nothing out of one whose layout is not the expected
/// one.
pub fn extract_signed(ix: &BatchInstruction) -> (r: Option<(Vec<u8>, Vec<u8>)>)
    ensures
        match r {
            Some((msg, pubkey)) => signature_layout_ok(ix.data@) && msg@ == signed_msg(ix.data@) && pubkey@
                == signed_pubkey(ix.data@),
            None => !signature_layout_ok(ix.data@),
        },
{
    let d = &ix.data;
    if !(d.len() >= 16) {
        return None;
    }
    let num: usize = d[0] as usize;
    if !(num == 1) {
        return None;
    }
    let pk_off: usize = match read_u16(d, 6) {
        Some(v) => v as usize,
        None => {
            return None;
        },
    };
    let msg_off: usize = match read_u16(d, 10) {
        Some(v) => v as usize,
        None => {
            return None;
        },
    };
    let msg_sz: usize = match read_u16(d, 12) {
        Some(v) => v as usize,
        None => {
            return None;
        },
    };
    if !(pk_off + 32 <= d.len()) {
        return None;
    }
    if !(msg_off + msg_sz <= d.len()) {
        return None;
    }
    let pubkey = copy_range(d, pk_off, pk_off + 32);
    let msg = copy_range(d, msg_off, msg_off + msg_sz);
    Some((msg, pubkey))
}

/// Whether a signature check was found, has the expected layout and was
/// made with `key`.
pub open spec fn made_with(check: Option<Seq<u8>>, key: Seq<u8>) -> bool {
    match check {
        Some(d) => signature_layout_ok(d) && signed_pubkey(d) == key,
        None => false,
    }
}

/// Compares the key with which a signature check was made, if one was found.
pub fn is_made_with(check: &Option<BatchInstruction>, key: &[u8; 32]) -> (ok: bool)
    ensures
        ok == made_with(check_data(*check), key@),
{
    match check {
        Some(ix) => match extract_signed(ix) {
            Some((_, pubkey)) => bytes_eq_32(&pubkey, key),
            None => false,
        },
        None => false,
    }
}

} // verus!
