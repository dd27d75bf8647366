//! Fixed-width little-endian numbers in byte strings: the encoding of the
//! signed message and of the stored records.

use vstd::prelude::*;

verus! {

/// The `width` low-order bytes of `value`, least significant first.
pub open spec fn le_bytes(value: nat, width: nat) -> Seq<u8>
    decreases width,
{
    if width == 0 {
        Seq::empty()
    } else {
        seq![(value % 256) as u8] + le_bytes(value / 256, (width - 1) as nat)
    }
}

/// The number that bytes spell, least significant first.
pub open spec fn le_value(bytes: Seq<u8>) -> nat
    decreases bytes.len(),
{
    if bytes.len() == 0 {
        0
    } else {
        bytes[0] as nat + 256 * le_value(bytes.skip(1))
    }
}

/// One more than the largest number that `width` bytes spell.
pub open spec fn capacity(width: nat) -> nat
    decreases width,
{
    if width == 0 {
        1
    } else {
        256 * capacity((width - 1) as nat)
    }
}

/// A 64-bit signed number as the unsigned number with the same bits.
pub open spec fn twos_complement(value: i64) -> nat {
    if value >= 0 {
        value as nat
    } else {
        (value + 0x1_0000_0000_0000_0000) as nat
    }
}

/// The signed number whose bits an unsigned 64-bit number holds.
pub open spec fn from_twos_complement(bits: nat) -> int {
    if bits < 0x8000_0000_0000_0000 {
        bits as int
    } else {
        bits - 0x1_0000_0000_0000_0000
    }
}

/// The byte that stands for a flag: one where it is set, zero where not.
pub open spec fn flag_byte(flag: bool) -> u8 {
    if flag {
        1
    } else {
        0
    }
}

/// An encoding has the width asked for.
pub proof fn lemma_le_bytes_len(value: nat, width: nat)
    ensures
        le_bytes(value, width).len() == width,
    decreases width,
{
    if width > 0 {
        lemma_le_bytes_len(value / 256, (width - 1) as nat);
    }
}

/// Bytes spell a number below the capacity of their width.
pub proof fn lemma_le_value_bound(bytes: Seq<u8>)
    ensures
        le_value(bytes) < capacity(bytes.len()),
    decreases bytes.len(),
{
    if bytes.len() > 0 {
        lemma_le_value_bound(bytes.skip(1));
        let rest = le_value(bytes.skip(1));
        let cap = capacity((bytes.len() - 1) as nat);
        assert(bytes[0] as nat + 256 * rest < 256 * cap) by (nonlinear_arith)
            requires
                rest < cap,
                (bytes[0] as nat) < 256,
        ;
    }
}

/// Decoding an encoding gives the number back, where the width holds it.
pub proof fn lemma_le_round_trip(value: nat, width: nat)
    requires
        value < capacity(width),
    ensures
        le_value(le_bytes(value, width)) == value,
    decreases width,
{
    if width > 0 {
        let rest = le_bytes(value / 256, (width - 1) as nat);
        let all = le_bytes(value, width);
        assert(value / 256 < capacity((width - 1) as nat)) by (nonlinear_arith)
            requires
                value < 256 * capacity((width - 1) as nat),
        ;
        lemma_le_round_trip(value / 256, (width - 1) as nat);
        assert(all.skip(1) =~= rest);
        assert(all[0] == (value % 256) as u8);
        assert(value == value % 256 + 256 * (value / 256)) by (nonlinear_arith);
    }
}

/// Encoding a decoded number gives the bytes back.
pub proof fn lemma_le_bytes_of_value(bytes: Seq<u8>)
    ensures
        le_bytes(le_value(bytes), bytes.len()) == bytes,
    decreases bytes.len(),
{
    if bytes.len() > 0 {
        let rest = bytes.skip(1);
        lemma_le_bytes_of_value(rest);
        let v = le_value(bytes);
        let first = bytes[0] as nat;
        assert(v % 256 == first && v / 256 == le_value(rest)) by (nonlinear_arith)
            requires
                v == first + 256 * le_value(rest),
                first < 256,
        ;
        assert(le_bytes(v, bytes.len()) =~= bytes);
    } else {
        assert(le_bytes(le_value(bytes), bytes.len()) =~= bytes);
    }
}

/// The capacities of the widths in use.
pub proof fn lemma_capacities()
    ensures
        capacity(1) == 0x100,
        capacity(2) == 0x1_0000,
        capacity(4) == 0x1_0000_0000,
        capacity(8) == 0x1_0000_0000_0000_0000,
{
    reveal_with_fuel(capacity, 9);
}

/// The two readings of 64 bits undo each other.
pub proof fn lemma_twos_complement_round_trip(value: i64)
    ensures
        twos_complement(value) < 0x1_0000_0000_0000_0000,
        from_twos_complement(twos_complement(value)) == value,
{
}

/// The number that eight bytes at `offset` spell.
pub open spec fn get_le_spec(bytes: Seq<u8>, offset: int) -> nat {
    le_value(bytes.subrange(offset, offset + 8))
}

/// Reading 64 bits as a signed number and back gives the bits.
pub proof fn lemma_twos_complement_of_bits(bits: nat)
    requires
        bits < 0x1_0000_0000_0000_0000,
    ensures
        -0x8000_0000_0000_0000 <= from_twos_complement(bits) < 0x8000_0000_0000_0000,
        twos_complement(from_twos_complement(bits) as i64) == bits,
{
}

/// Appends the `width` low-order bytes of `value`, least significant first.
pub fn put_le(out: &mut Vec<u8>, value: u64, width: usize)
    requires
        width <= 8,
    ensures
        final(out)@ == old(out)@ + le_bytes(value as nat, width as nat),
{
    let mut rest: u64 = value;
    let mut i: usize = 0;
    let ghost start = out@;
    while i < width
        invariant
            i <= width <= 8,
            start + le_bytes(value as nat, width as nat) == out@ + le_bytes(rest as nat, (width - i) as nat),
        decreases width - i,
    {
        let ghost before = out@;
        out.push((rest % 256) as u8);
        proof {
            let tail = le_bytes((rest / 256) as nat, (width - i - 1) as nat);
            assert(le_bytes(rest as nat, (width - i) as nat) == seq![(rest % 256) as u8] + tail);
            assert(out@ + tail =~= before + (seq![(rest % 256) as u8] + tail));
        }
        rest = rest / 256;
        i += 1;
    }
    assert(out@ + le_bytes(rest as nat, 0) =~= out@);
}

/// Reads the number that `width` bytes from `offset` on spell, least
/// significant first.
pub fn get_le(bytes: &Vec<u8>, offset: usize, width: usize) -> (value: u64)
    requires
        width <= 8,
        offset + width <= bytes@.len(),
    ensures
        value as nat == le_value(bytes@.subrange(offset as int, offset + width)),
{
    let mut value: u64 = 0;
    let mut i: usize = width;
    let len = bytes.len();
    proof {
        lemma_capacities();
        assert(bytes@.subrange(offset + width, offset + width).len() == 0);
    }
    while i > 0
        invariant
            i <= width <= 8,
            offset + width <= len,
            len == bytes@.len(),
            capacity(8) == 0x1_0000_0000_0000_0000,
            value as nat == le_value(bytes@.subrange(offset + i, offset + width)),
        decreases i,
    {
        let ghost above = bytes@.subrange(offset + i, offset + width);
        let ghost from = bytes@.subrange(offset + i - 1, offset + width);
        proof {
            lemma_le_value_bound(above);
            lemma_le_value_bound(from);
            assert(from.skip(1) =~= above);
            assert(from[0] == bytes@[offset + i - 1]);
            assert(le_value(from) == from[0] as nat + 256 * le_value(above));
            lemma_capacity_grows(from.len(), 8);
        }
        i -= 1;
        value = value * 256 + bytes[offset + i] as u64;
    }
    value
}

/// A wider string never has the smaller capacity.
pub proof fn lemma_capacity_grows(narrow: nat, wide: nat)
    requires
        narrow <= wide,
    ensures
        capacity(narrow) <= capacity(wide),
    decreases wide,
{
    if narrow < wide {
        lemma_capacity_grows(narrow, (wide - 1) as nat);
    }
}

/// The byte that stands for a flag.
pub fn flag_to_byte(flag: bool) -> (byte: u8)
    ensures
        byte == flag_byte(flag),
{
    if flag {
        1
    } else {
        0
    }
}

/// The unsigned number with the bits of a signed one.
pub fn i64_bits(value: i64) -> (bits: u64)
    ensures
        bits as nat == twos_complement(value),
{
    if value >= 0 {
        value as u64
    } else {
        ((value + i64::MAX) + 1) as u64 + 0x8000_0000_0000_0000u64
    }
}

/// The signed number with the bits of an unsigned one.
pub fn i64_from_bits(bits: u64) -> (value: i64)
    ensures
        value as int == from_twos_complement(bits as nat),
{
    if bits < 0x8000_0000_0000_0000u64 {
        bits as i64
    } else {
        ((bits - 0x8000_0000_0000_0000u64) as i64 - i64::MAX) - 1
    }
}

/// Appends the 32 bytes of an identity or a key.
pub fn put_bytes32(out: &mut Vec<u8>, bytes: &[u8; 32])
    ensures
        final(out)@ == old(out)@ + bytes@,
{
    let ghost start = out@;
    let mut i: usize = 0;
    while i < 32
        invariant
            i <= 32,
            out@ == start + bytes@.subrange(0, i as int),
        decreases 32 - i,
    {
        let ghost before = out@;
        out.push(bytes[i]);
        i += 1;
        assert(out@ =~= start + bytes@.subrange(0, i as int));
    }
    assert(bytes@.subrange(0, 32) =~= bytes@);
}

/// Copies the bytes from `start` up to `end`.
pub fn copy_range(bytes: &Vec<u8>, start: usize, end: usize) -> (copy: Vec<u8>)
    requires
        start <= end <= bytes@.len(),
    ensures
        copy@ == bytes@.subrange(start as int, end as int),
{
    let mut copy: Vec<u8> = Vec::new();
    let mut i: usize = start;
    while i < end
        invariant
            start <= i <= end <= bytes@.len(),
            copy@ == bytes@.subrange(start as int, i as int),
        decreases end - i,
    {
        copy.push(bytes[i]);
        i += 1;
        assert(copy@ =~= bytes@.subrange(start as int, i as int));
    }
    copy
}

/// Whether two byte strings are the same.
pub fn bytes_eq(a: &Vec<u8>, b: &Vec<u8>) -> (same: bool)
    ensures
        same == (a@ == b@),
{
    if a.len() != b.len() {
        return false;
    }
    let mut i: usize = 0;
    while i < a.len()
        invariant
            i <= a@.len(),
            a@.len() == b@.len(),
            forall|j: int| 0 <= j < i ==> a@[j] == b@[j],
        decreases a@.len() - i,
    {
        if a[i] != b[i] {
            return false;
        }
        i += 1;
    }
    assert(a@ =~= b@);
    true
}

/// Whether a byte string is the given 32 bytes.
pub fn bytes_eq_32(a: &Vec<u8>, b: &[u8; 32]) -> (same: bool)
    ensures
        same == (a@ == b@),
{
    if a.len() != 32 {
        return false;
    }
    let mut i: usize = 0;
    while i < 32
        invariant
            i <= 32,
            a@.len() == 32,
            forall|j: int| 0 <= j < i ==> a@[j] == b@[j],
        decreases 32 - i,
    {
        if a[i] != b[i] {
            return false;
        }
        i += 1;
    }
    assert(a@ =~= b@);
    true
}

} // verus!
