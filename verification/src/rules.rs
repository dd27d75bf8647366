//! The deterministic rules by which a declared outcome is checked against the
//! terms that a pending record holds.

use vstd::prelude::*;

verus! {

/// The checksum that a settlement must declare for a record with this nonce:
/// the nonce modulo 251, plus one.
pub open spec fn expected_checksum(nonce: u64) -> int {
    (nonce as int) % 251 + 1
}

/// Computes the checksum owed for a nonce.
pub fn checksum_for(nonce: u64) -> (checksum: u8)
    ensures
        checksum as int == expected_checksum(nonce),
        1 <= checksum <= 251,
{
    let rem: u64 = nonce % 251;
    (rem + 1) as u8
}

/// Whether a dice bet wins on a roll: an under bet (type 0) when the roll is
/// below the target, an over bet (type 1) when it is above it.
pub open spec fn dice_wins(bet_type: u8, target: u8, roll: u8) -> bool {
    (bet_type == 0 && roll < target) || (bet_type == 1 && roll > target)
}

/// Decides a dice bet.
pub fn dice_win(bet_type: u8, target: u8, roll: u8) -> (win: bool)
    ensures
        win == dice_wins(bet_type, target, roll),
{
    (bet_type == 0 && roll < target) || (bet_type == 1 && roll > target)
}

/// Whether a mines board is playable: between two and eight rows and columns,
/// at least one mine and at least one free cell.
pub open spec fn valid_board(rows: u8, cols: u8, mines: u8) -> bool {
    &&& 2 <= rows <= 8
    &&& 2 <= cols <= 8
    &&& 1 <= mines
    &&& (mines as int) < (rows as int) * (cols as int)
}

/// The net payout of a crash round cashed out at a multiplier given in basis
/// points: the stake times the multiplier, divided by 10000 and rounded down,
/// less the stake, and never below zero.
pub open spec fn crash_net(amount: u64, multiplier_bps: u32) -> int {
    let gross = (amount as int) * (multiplier_bps as int) / 10000;
    if gross > amount as int {
        gross - amount as int
    } else {
        0
    }
}

/// Computes the net payout that a multiplier gives on a stake. It may exceed
/// what a balance can hold, so it is given in the wider type.
pub fn crash_expected_net(amount: u64, multiplier_bps: u32) -> (net: u128)
    ensures
        net as int == crash_net(amount, multiplier_bps),
{
    assert((amount as int) * (multiplier_bps as int) <= 0xffff_ffff_ffff_ffff * 0xffff_ffff) by (nonlinear_arith)
        requires
            0 <= amount as int <= 0xffff_ffff_ffff_ffff,
            0 <= multiplier_bps as int <= 0xffff_ffff,
    ;
    let gross: u128 = (amount as u128) * (multiplier_bps as u128) / 10_000u128;
    if gross > amount as u128 {
        gross - amount as u128
    } else {
        0u128
    }
}

/// The stake of a round of several balls: the unit stake times their number.
pub open spec fn total_stake(unit_amount: u64, balls: u16) -> int {
    (unit_amount as int) * (balls as int)
}

} // verus!
