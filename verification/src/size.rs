//! The human-readable size formatter: a quantity is shifted down by ten bits
//! at a time while it is at least 1024 and a larger unit remains, then
//! written with the unit it ended on. The quotient is truncated, never
//! rounded.
//!
//! The quantity is taken to be in the first unit of its family, so that 512
//! is written `512KB` and 2048 is written `2MB`.

use vstd::arithmetic::div_mod::lemma_div_denominator;
use vstd::arithmetic::power::pow;
use vstd::prelude::*;
use vstd::string::StringExecFns;

use crate::decimal::{decimal_text, push_u64};

verus! {

/// The two families of unit labels.
#[derive(Debug, Clone, Copy, PartialEq, Eq, Structural)]
pub enum UnitSystem {
    /// `KB`, `MB`, `GB`, `TB`, `PB`, `EB`, `ZB`.
    Decimal,
    /// `KiB`, `MiB`, `GiB`, `TiB`, `PiB`, `EiB`, `ZiB`.
    Binary,
}

/// The index of the largest unit of either family.
pub const LARGEST_UNIT: usize = 6;

/// The label of the unit at `index` in `system`.
pub open spec fn unit_label(system: UnitSystem, index: nat) -> Seq<char> {
    match system {
        UnitSystem::Decimal => if index == 0 {
            "KB"@
        } else if index == 1 {
            "MB"@
        } else if index == 2 {
            "GB"@
        } else if index == 3 {
            "TB"@
        } else if index == 4 {
            "PB"@
        } else if index == 5 {
            "EB"@
        } else {
            "ZB"@
        },
        UnitSystem::Binary => if index == 0 {
            "KiB"@
        } else if index == 1 {
            "MiB"@
        } else if index == 2 {
            "GiB"@
        } else if index == 3 {
            "TiB"@
        } else if index == 4 {
            "PiB"@
        } else if index == 5 {
            "EiB"@
        } else {
            "ZiB"@
        },
    }
}

/// Scales `value` down: while it is at least 1024 and one of the `remaining`
/// larger units is left, divide by 1024 and move one unit up. Gives the
/// number left and the count of units moved.
pub open spec fn scale(value: nat, remaining: nat) -> (nat, nat)
    decreases remaining,
{
    if value >= 1024 && remaining > 0 {
        let (mantissa, steps) = scale(value / 1024, (remaining - 1) as nat);
        (mantissa, steps + 1)
    } else {
        (value, 0)
    }
}

/// The text of `value`, a quantity in the smallest unit of `system`: the
/// scaled number followed, without a space, by the label of its unit.
pub open spec fn size_text(value: nat, system: UnitSystem) -> Seq<char> {
    let (mantissa, steps) = scale(value, LARGEST_UNIT as nat);
    decimal_text(mantissa as int) + unit_label(system, steps)
}

/// Scaling moves at most `remaining` units up and never raises the number;
/// it stops on a number below 1024 or on the last unit, and it moves only
/// a number of at least 1024.
pub proof fn lemma_scale(value: nat, remaining: nat)
    ensures
        scale(value, remaining).1 <= remaining,
        scale(value, remaining).0 <= value,
        scale(value, remaining).0 < 1024 || scale(value, remaining).1 == remaining,
        scale(value, remaining).1 > 0 ==> value >= 1024,
    decreases remaining,
{
    if value >= 1024 && remaining > 0 {
        lemma_scale(value / 1024, (remaining - 1) as nat);
    }
}

/// The number left by scaling is the truncated quotient of the value by
/// 1024 to the power of the units moved.
pub proof fn lemma_scale_is_quotient(value: nat, remaining: nat)
    ensures
        pow(1024, scale(value, remaining).1) > 0,
        scale(value, remaining).0 == value as int / pow(1024, scale(value, remaining).1),
    decreases remaining,
{
    reveal(pow);
    if value >= 1024 && remaining > 0 {
        let steps = scale(value / 1024, (remaining - 1) as nat).1;
        lemma_scale_is_quotient(value / 1024, (remaining - 1) as nat);
        lemma_div_denominator(value as int, 1024, pow(1024, steps));
    }
}

/// Every 64-bit quantity ends below 1024 within the seven units: the
/// largest one, `u64::MAX`, ends as 15 of the last unit.
pub proof fn lemma_scale_u64(value: u64)
    ensures
        scale(value as nat, LARGEST_UNIT as nat).0 < 1024,
        scale(value as nat, LARGEST_UNIT as nat).1 <= LARGEST_UNIT,
        scale(u64::MAX as nat, LARGEST_UNIT as nat) == (15nat, 6nat),
{
    reveal_with_fuel(scale, 8);
}

/// The label of the unit at `index` in `system`.
fn unit_name(system: UnitSystem, index: usize) -> (label: &'static str)
    requires
        index <= LARGEST_UNIT,
    ensures
        label@ == unit_label(system, index as nat),
{
    match system {
        UnitSystem::Decimal => if index == 0 {
            "KB"
        } else if index == 1 {
            "MB"
        } else if index == 2 {
            "GB"
        } else if index == 3 {
            "TB"
        } else if index == 4 {
            "PB"
        } else if index == 5 {
            "EB"
        } else {
            "ZB"
        },
        UnitSystem::Binary => if index == 0 {
            "KiB"
        } else if index == 1 {
            "MiB"
        } else if index == 2 {
            "GiB"
        } else if index == 3 {
            "TiB"
        } else if index == 4 {
            "PiB"
        } else if index == 5 {
            "EiB"
        } else {
            "ZiB"
        },
    }
}

/// Appends the human-readable text of `value` to `out`.
pub fn push_size(out: &mut String, value: u64, system: UnitSystem)
    ensures
        final(out)@ == old(out)@ + size_text(value as nat, system),
{
    let mut current: u64 = value;
    let mut index: usize = 0;
    while current >= 1024 && index < LARGEST_UNIT
        invariant
            index <= LARGEST_UNIT,
            scale(value as nat, LARGEST_UNIT as nat).0 == scale(
                current as nat,
                (LARGEST_UNIT - index) as nat,
            ).0,
            scale(value as nat, LARGEST_UNIT as nat).1 == scale(
                current as nat,
                (LARGEST_UNIT - index) as nat,
            ).1 + index,
        decreases LARGEST_UNIT - index,
    {
        assert(current >> 10 == current / 1024) by (bit_vector);
        current >>= 10;
        index += 1;
    }
    push_u64(out, current);
    out.append(unit_name(system, index));
}

/// The human-readable text of `value`, with the labels `KB` to `ZB`.
pub fn format_memory(value: u64) -> (text: String)
    ensures
        text@ == size_text(value as nat, UnitSystem::Decimal),
{
    let mut text = String::new();
    push_size(&mut text, value, UnitSystem::Decimal);
    text
}

} // verus!
