//! Fee-rate policy: an abstract confirmation urgency is mapped to a block
//! target and, through a cached per-target estimate when one is present,
//! to a fee rate in satoshis per 1000 weight units.

use vstd::prelude::*;

verus! {

/// The floor under every returned fee rate, in satoshis per 1000 weight
/// units: the minimum rate relay nodes accept.
pub const FEERATE_FLOOR_SATS_PER_KW: u32 = 253;

/// How urgently confirmation is wanted.
#[derive(Clone, Copy, PartialEq, Eq, Structural, Debug)]
pub enum ConfirmationTarget {
    Background,
    Normal,
    HighPriority,
}

/// Cached fee estimates, keyed by confirmation block target, valued in
/// satoshis per virtual byte.  Populated out of band by the caller.
pub struct FeeEstimates {
    pub entries: Vec<(usize, u32)>,
}

/// The confirmation-window block target for an urgency.
pub open spec fn num_blocks_spec(target: ConfirmationTarget) -> usize {
    match target {
        ConfirmationTarget::Background => 12,
        ConfirmationTarget::Normal => 6,
        ConfirmationTarget::HighPriority => 3,
    }
}

/// The hard-coded rate used when no cached estimate is available.
pub open spec fn fallback_fee_spec(target: ConfirmationTarget) -> u32 {
    match target {
        ConfirmationTarget::Background => FEERATE_FLOOR_SATS_PER_KW,
        ConfirmationTarget::Normal => 2000,
        ConfirmationTarget::HighPriority => 5000,
    }
}

/// The value stored for `key`, searching from position `from`.
pub open spec fn lookup_from(entries: Seq<(usize, u32)>, key: usize, from: int) -> Option<u32>
    decreases entries.len() - from,
{
    if from < 0 || from >= entries.len() {
        None
    } else if entries[from].0 == key {
        Some(entries[from].1)
    } else {
        lookup_from(entries, key, from + 1)
    }
}

/// The first value stored for `key`, if any.
pub open spec fn lookup_spec(entries: Seq<(usize, u32)>, key: usize) -> Option<u32> {
    lookup_from(entries, key, 0)
}

/// A rate in satoshis per virtual byte converted to satoshis per 1000
/// weight units (four weight units to the virtual byte), saturating.
pub open spec fn per_kw_from_sat_per_vb(sat_per_vb: u32) -> u32 {
    if sat_per_vb * 250 > u32::MAX {
        u32::MAX
    } else {
        (sat_per_vb * 250) as u32
    }
}

/// The rate owed for an urgency given the cache the caller could read:
/// the cached per-target rate converted to per-weight-unit terms when one
/// is present, else the fallback, floored at the minimum relay rate.
pub open spec fn estimate_spec(
    target: ConfirmationTarget,
    estimates: Option<Seq<(usize, u32)>>,
) -> u32 {
    let base = match estimates {
        Some(entries) => match lookup_spec(entries, num_blocks_spec(target)) {
            Some(sat_per_vb) => per_kw_from_sat_per_vb(sat_per_vb),
            None => fallback_fee_spec(target),
        },
        None => fallback_fee_spec(target),
    };
    if base > FEERATE_FLOOR_SATS_PER_KW {
        base
    } else {
        FEERATE_FLOOR_SATS_PER_KW
    }
}

/// The confirmation-window block target for an urgency.
pub fn num_blocks_from_conf_target(target: ConfirmationTarget) -> (r: usize)
    ensures
        r == num_blocks_spec(target),
{
    match target {
        ConfirmationTarget::Background => 12,
        ConfirmationTarget::Normal => 6,
        ConfirmationTarget::HighPriority => 3,
    }
}

/// The hard-coded rate used when no cached estimate is available.
pub fn fallback_fee_from_conf_target(target: ConfirmationTarget) -> (r: u32)
    ensures
        r == fallback_fee_spec(target),
{
    match target {
        ConfirmationTarget::Background => FEERATE_FLOOR_SATS_PER_KW,
        ConfirmationTarget::Normal => 2000,
        ConfirmationTarget::HighPriority => 5000,
    }
}

/// The first cached rate for `key`, if any.
fn lookup(estimates: &FeeEstimates, key: usize) -> (r: Option<u32>)
    ensures
        r == lookup_spec(estimates.entries@, key),
{
    let n: usize = estimates.entries.len();
    let mut i: usize = 0;
    while i < n
        invariant
            0 <= i <= n,
            n == estimates.entries@.len(),
            lookup_spec(estimates.entries@, key) == lookup_from(estimates.entries@, key, i as int),
        decreases n - i,
    {
        let entry: (usize, u32) = estimates.entries[i];
        if entry.0 == key {
            return Some(entry.1);
        }
        i = i + 1;
    }
    None
}

/// The fee rate for an urgency, in satoshis per 1000 weight units.
///
/// `estimates` is the cached per-target table the caller read, or `None`
/// when the read failed.  A cached rate for the urgency's block target is
/// converted from satoshis per virtual byte to per-weight-unit terms; on
/// a miss or a failed read the urgency's fallback applies.  The result is
/// floored at the minimum relay rate.
pub fn get_est_sat_per_1000_weight(
    target: ConfirmationTarget,
    estimates: Option<&FeeEstimates>,
) -> (r: u32)
    ensures
        r == estimate_spec(
            target,
            match estimates {
                Some(e) => Some(e.entries@),
                None => None,
            },
        ),
        r >= FEERATE_FLOOR_SATS_PER_KW,
{
    let fallback: u32 = fallback_fee_from_conf_target(target);
    let base: u32 = match estimates {
        Some(cache) => {
            let num_blocks: usize = num_blocks_from_conf_target(target);
            match lookup(cache, num_blocks) {
                Some(sat_per_vb) => {
                    let wide: u64 = (sat_per_vb as u64) * 250;
                    if wide > (u32::MAX as u64) {
                        u32::MAX
                    } else {
                        wide as u32
                    }
                },
                None => fallback,
            }
        },
        None => fallback,
    };
    if base > FEERATE_FLOOR_SATS_PER_KW {
        base
    } else {
        FEERATE_FLOOR_SATS_PER_KW
    }
}

} // verus!
