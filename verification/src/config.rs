//! Configuration validation: the pin registry.
//!
//! A configuration is an ordered list of shutter entries, each naming the two
//! control lines of one shutter. Every line identifier must be unique across
//! the whole configuration; the first identifier seen a second time is
//! reported and startup is refused. On success the shutter bank is built in
//! entry order, which fixes the shutter indices for the process lifetime.

use vstd::prelude::*;
use crate::actuator::OutputLine;
use crate::actuator::Shutter;

verus! {

/// One configuration entry: the two line identifiers of one shutter.
#[derive(Clone, Copy, PartialEq, Eq, Structural, Debug)]
pub struct ShutterConfig {
    pub pin_open: u8,
    pub pin_close: u8,
}

/// Every line identifier the configuration names, in entry order: entry `k`
/// contributes positions `2k` (open) and `2k + 1` (close).
pub open spec fn config_pins(cfgs: Seq<ShutterConfig>) -> Seq<u8> {
    Seq::new(
        2 * cfgs.len(),
        |k: int| if k % 2 == 0 { cfgs[k / 2].pin_open } else { cfgs[k / 2].pin_close },
    )
}

/// No value occurs twice.
pub open spec fn distinct_seq(s: Seq<u8>) -> bool {
    forall|i: int, j: int| 0 <= i < j < s.len() ==> s[i] != s[j]
}

/// Position `k` repeats an earlier value.
pub open spec fn dup_at(s: Seq<u8>, k: int) -> bool {
    exists|m: int| 0 <= m < k && s[m] == s[k]
}

/// `p` is the value at the first position that repeats an earlier one.
pub open spec fn first_dup(s: Seq<u8>, p: u8) -> bool {
    exists|k: int|
        0 <= k < s.len() && #[trigger] dup_at(s, k) && s[k] == p
            && forall|m: int| 0 <= m < k ==> !dup_at(s, m)
}

/// The bank `bank` is the one entry-order construction from `cfgs`: same
/// length, and shutter `i` owns the two lines of entry `i`, both released.
pub open spec fn bank_from(cfgs: Seq<ShutterConfig>, bank: Seq<Shutter>) -> bool {
    &&& bank.len() == cfgs.len()
    &&& forall|i: int| 0 <= i < cfgs.len() ==> #[trigger] bank[i] == (Shutter {
        pin_open: OutputLine { id: cfgs[i].pin_open, active: false },
        pin_close: OutputLine { id: cfgs[i].pin_close, active: false },
    })
}

/// Whether `p` occurs in `seen`.
fn contains_pin(seen: &Vec<u8>, p: u8) -> (r: bool)
    ensures
        r == seen@.contains(p),
{
    let mut k: usize = 0;
    while k < seen.len()
        invariant
            0 <= k <= seen@.len(),
            forall|m: int| 0 <= m < k ==> seen@[m] != p,
        decreases seen@.len() - k,
    {
        if seen[k] == p {
            return true;
        }
        k = k + 1;
    }
    false
}

/// Validate a configuration and build the shutter bank.
///
/// Succeeds exactly when no line identifier is reused anywhere in the
/// configuration; the bank then mirrors the entries in order, every line
/// released. Fails with the offending identifier otherwise: the one at the
/// first position (in entry order, open line before close line) that repeats
/// an earlier identifier.
pub fn build_bank(cfgs: &Vec<ShutterConfig>) -> (r: Result<Vec<Shutter>, u8>)
    ensures
        match r {
            Ok(bank) => distinct_seq(config_pins(cfgs@)) && bank_from(cfgs@, bank@),
            Err(p) => !distinct_seq(config_pins(cfgs@)) && first_dup(config_pins(cfgs@), p),
        },
{
    let ghost pins = config_pins(cfgs@);
    let mut seen: Vec<u8> = Vec::new();
    let mut bank: Vec<Shutter> = Vec::new();
    let mut i: usize = 0;
    while i < cfgs.len()
        invariant
            0 <= i <= cfgs@.len(),
            pins == config_pins(cfgs@),
            seen@ =~= pins.take(2 * i),
            distinct_seq(seen@),
            bank@.len() == i,
            forall|m: int| 0 <= m < i ==> #[trigger] bank@[m] == (Shutter {
                pin_open: OutputLine { id: cfgs@[m].pin_open, active: false },
                pin_close: OutputLine { id: cfgs@[m].pin_close, active: false },
            }),
        decreases cfgs@.len() - i,
    {
        let po = cfgs[i].pin_open;
        let pc = cfgs[i].pin_close;
        proof {
            assert(pins[2 * i] == po);
            assert(pins[2 * i + 1] == pc);
        }
        if contains_pin(&seen, po) {
            proof {
                lemma_first_dup_here(pins, seen@, 2 * i as int, po);
            }
            return Err(po);
        }
        seen.push(po);
        proof {
            assert(seen@ =~= pins.take(2 * i + 1));
        }
        if contains_pin(&seen, pc) {
            proof {
                lemma_first_dup_here(pins, seen@, 2 * i + 1, pc);
            }
            return Err(pc);
        }
        seen.push(pc);
        proof {
            assert(seen@ =~= pins.take(2 * (i + 1)));
        }
        bank.push(Shutter {
            pin_open: OutputLine { id: po, active: false },
            pin_close: OutputLine { id: pc, active: false },
        });
        i = i + 1;
    }
    proof {
        assert(seen@ =~= pins);
    }
    Ok(bank)
}

/// If the prefix before position `k` is duplicate-free and `p = pins[k]`
/// already occurs in it, then `k` is the first duplicating position.
proof fn lemma_first_dup_here(pins: Seq<u8>, seen: Seq<u8>, k: int, p: u8)
    requires
        0 <= k < pins.len(),
        seen =~= pins.take(k),
        distinct_seq(seen),
        pins[k] == p,
        seen.contains(p),
    ensures
        !distinct_seq(pins),
        first_dup(pins, p),
{
    let m = choose|m: int| 0 <= m < seen.len() && seen[m] == p;
    assert(pins[m] == p);
    assert(0 <= m < k && pins[m] == pins[k]);
    assert(dup_at(pins, k));
    assert forall|q: int| 0 <= q < k implies !dup_at(pins, q) by {
        if dup_at(pins, q) {
            let w = choose|w: int| 0 <= w < q && pins[w] == pins[q];
            assert(seen[w] == seen[q]);
            assert(false);
        }
    }
    assert(!distinct_seq(pins)) by {
        assert(pins[m] == pins[k] && 0 <= m < k);
    }
}

/// Index density: a configuration with `N` entries yields a bank whose valid
/// shutter indices are exactly `0..N`, in entry order.
pub proof fn lemma_index_density(cfgs: Seq<ShutterConfig>, bank: Seq<Shutter>)
    requires
        bank_from(cfgs, bank),
    ensures
        bank.len() == cfgs.len(),
        forall|i: int| 0 <= i < cfgs.len() ==> #[trigger] bank[i].pin_open.id == cfgs[i].pin_open
            && bank[i].pin_close.id == cfgs[i].pin_close,
{
    assert forall|i: int| 0 <= i < cfgs.len() implies #[trigger] bank[i].pin_open.id
        == cfgs[i].pin_open && bank[i].pin_close.id == cfgs[i].pin_close by {
        assert(bank_from(cfgs, bank));
    }
}

} // verus!
