//! Output lines, shutters, and the verified pulse sequence.
//!
//! The crate models each physical control line by its hardware identifier and
//! its electrical level. Actuation does not touch hardware itself: it yields
//! the exact sequence of hardware actions (drive a line high or low, hold for
//! a duration) for the surrounding process to perform in order, and keeps the
//! model levels in step with that plan.

use vstd::prelude::*;
use crate::command::OpenClose;

verus! {

/// How long the selected line is held active, in milliseconds.
pub const PULSE_MS: u64 = 100;

/// How long the driver settles after both lines go low, in milliseconds.
pub const SETTLE_MS: u64 = 100;

/// One hardware action of the pulse plan, to be performed in sequence.
#[derive(Clone, Copy, PartialEq, Eq, Structural, Debug)]
pub enum Action {
    /// Drive the line with this identifier to the active (high) level.
    SetHigh(u8),
    /// Drive the line with this identifier to the inactive (low) level.
    SetLow(u8),
    /// Hold every level as it is for this many milliseconds.
    SleepMs(u64),
}

/// One physical output line: its hardware identifier and the level the plan
/// so far has left it at.
#[derive(Clone, Copy, PartialEq, Eq, Structural, Debug)]
pub struct OutputLine {
    pub id: u8,
    pub active: bool,
}

/// One shutter: the two direction-specific drive lines it owns exclusively.
#[derive(Clone, Copy, PartialEq, Eq, Structural, Debug)]
pub struct Shutter {
    pub pin_open: OutputLine,
    pub pin_close: OutputLine,
}

impl Shutter {
    /// The two lines are physically distinct.
    pub open spec fn wf(self) -> bool {
        self.pin_open.id != self.pin_close.id
    }

    /// Neither line is driven: the state between commands.
    pub open spec fn idle(self) -> bool {
        !self.pin_open.active && !self.pin_close.active
    }

    /// This shutter with both lines released.
    pub open spec fn settled(self) -> Self {
        Shutter {
            pin_open: OutputLine { id: self.pin_open.id, active: false },
            pin_close: OutputLine { id: self.pin_close.id, active: false },
        }
    }
}

/// The line the direction selects.
pub open spec fn selected_id(open_id: u8, close_id: u8, dir: OpenClose) -> u8 {
    match dir {
        OpenClose::Open => open_id,
        OpenClose::Close => close_id,
    }
}

/// The full pulse plan for one actuation: drive the selected line high, hold,
/// release both lines unconditionally, hold again.
pub open spec fn pulse_trace(open_id: u8, close_id: u8, dir: OpenClose) -> Seq<Action> {
    seq![
        Action::SetHigh(selected_id(open_id, close_id, dir)),
        Action::SleepMs(PULSE_MS),
        Action::SetLow(open_id),
        Action::SetLow(close_id),
        Action::SleepMs(SETTLE_MS),
    ]
}

/// The level a line with identifier `line` has after the actions of `t` have
/// run on top of level `init`.
pub open spec fn level_after(init: bool, line: u8, t: Seq<Action>) -> bool
    decreases t.len(),
{
    if t.len() == 0 {
        init
    } else {
        let prev = level_after(init, line, t.drop_last());
        match t.last() {
            Action::SetHigh(l) => if l == line { true } else { prev },
            Action::SetLow(l) => if l == line { false } else { prev },
            Action::SleepMs(_) => prev,
        }
    }
}

impl OutputLine {
    /// Drive this line active and append the matching hardware action.
    fn set_active(&mut self, acts: &mut Vec<Action>)
        ensures
            final(self).id == old(self).id,
            final(self).active,
            final(acts)@ == old(acts)@ + seq![Action::SetHigh(old(self).id)],
    {
        self.active = true;
        acts.push(Action::SetHigh(self.id));
    }

    /// Release this line and append the matching hardware action.
    fn set_inactive(&mut self, acts: &mut Vec<Action>)
        ensures
            final(self).id == old(self).id,
            !final(self).active,
            final(acts)@ == old(acts)@ + seq![Action::SetLow(old(self).id)],
    {
        self.active = false;
        acts.push(Action::SetLow(self.id));
    }
}

/// Actuate one shutter in one direction: plan the full pulse and leave both
/// model lines released, whatever state they started in.
pub fn actuate(shutter: &mut Shutter, dir: OpenClose) -> (acts: Vec<Action>)
    ensures
        acts@ == pulse_trace(old(shutter).pin_open.id, old(shutter).pin_close.id, dir),
        *final(shutter) == old(shutter).settled(),
{
    let mut acts: Vec<Action> = Vec::new();
    match dir {
        OpenClose::Open => shutter.pin_open.set_active(&mut acts),
        OpenClose::Close => shutter.pin_close.set_active(&mut acts),
    }
    acts.push(Action::SleepMs(PULSE_MS));
    shutter.pin_open.set_inactive(&mut acts);
    shutter.pin_close.set_inactive(&mut acts);
    acts.push(Action::SleepMs(SETTLE_MS));
    proof {
        assert(acts@ =~= pulse_trace(old(shutter).pin_open.id, old(shutter).pin_close.id, dir));
    }
    acts
}

/// Mutual exclusion during one pulse: starting from both lines low, no prefix
/// of the pulse plan leaves both lines of the shutter active at once, and the
/// whole plan leaves both low.
pub proof fn lemma_pulse_mutual_exclusion(open_id: u8, close_id: u8, dir: OpenClose, k: int)
    requires
        open_id != close_id,
        0 <= k <= pulse_trace(open_id, close_id, dir).len(),
    ensures
        !(level_after(false, open_id, pulse_trace(open_id, close_id, dir).take(k))
            && level_after(false, close_id, pulse_trace(open_id, close_id, dir).take(k))),
        k == pulse_trace(open_id, close_id, dir).len() ==> {
            &&& !level_after(false, open_id, pulse_trace(open_id, close_id, dir).take(k))
            &&& !level_after(false, close_id, pulse_trace(open_id, close_id, dir).take(k))
        },
{
    let t = pulse_trace(open_id, close_id, dir);
    let sel = selected_id(open_id, close_id, dir);
    assert(t.take(0) =~= Seq::<Action>::empty());
    assert(t.take(1).drop_last() =~= t.take(0));
    assert(t.take(2).drop_last() =~= t.take(1));
    assert(t.take(3).drop_last() =~= t.take(2));
    assert(t.take(4).drop_last() =~= t.take(3));
    assert(t.take(5).drop_last() =~= t.take(4));
    assert(t.take(5) =~= t);
    assert(t.take(1).last() == Action::SetHigh(sel));
    assert(t.take(2).last() == Action::SleepMs(PULSE_MS));
    assert(t.take(3).last() == Action::SetLow(open_id));
    assert(t.take(4).last() == Action::SetLow(close_id));
    assert(t.take(5).last() == Action::SleepMs(SETTLE_MS));
    assert(level_after(false, open_id, t.take(0)) == false);
    assert(level_after(false, close_id, t.take(0)) == false);
    assert(level_after(false, open_id, t.take(1)) == (open_id == sel));
    assert(level_after(false, close_id, t.take(1)) == (close_id == sel));
    assert(level_after(false, open_id, t.take(2)) == (open_id == sel));
    assert(level_after(false, close_id, t.take(2)) == (close_id == sel));
    assert(level_after(false, open_id, t.take(3)) == false);
    assert(level_after(false, close_id, t.take(3)) == (close_id == sel));
    assert(level_after(false, open_id, t.take(4)) == false);
    assert(level_after(false, close_id, t.take(4)) == false);
    assert(level_after(false, open_id, t.take(5)) == false);
    assert(level_after(false, close_id, t.take(5)) == false);
    assert(!(open_id == sel && close_id == sel));
}

/// A pulse plan never touches any line other than the two it names: a
/// stranger line keeps whatever level it had.
pub proof fn lemma_pulse_isolation(open_id: u8, close_id: u8, dir: OpenClose, other: u8, init: bool, k: int)
    requires
        other != open_id,
        other != close_id,
        0 <= k <= pulse_trace(open_id, close_id, dir).len(),
    ensures
        level_after(init, other, pulse_trace(open_id, close_id, dir).take(k)) == init,
{
    let t = pulse_trace(open_id, close_id, dir);
    let sel = selected_id(open_id, close_id, dir);
    assert(t.take(0) =~= Seq::<Action>::empty());
    assert(t.take(1).drop_last() =~= t.take(0));
    assert(t.take(2).drop_last() =~= t.take(1));
    assert(t.take(3).drop_last() =~= t.take(2));
    assert(t.take(4).drop_last() =~= t.take(3));
    assert(t.take(5).drop_last() =~= t.take(4));
    assert(t.take(1).last() == Action::SetHigh(sel));
    assert(t.take(2).last() == Action::SleepMs(PULSE_MS));
    assert(t.take(3).last() == Action::SetLow(open_id));
    assert(t.take(4).last() == Action::SetLow(close_id));
    assert(t.take(5).last() == Action::SleepMs(SETTLE_MS));
    assert(sel == open_id || sel == close_id);
    assert(level_after(init, other, t.take(0)) == init);
    assert(level_after(init, other, t.take(1)) == init);
    assert(level_after(init, other, t.take(2)) == init);
    assert(level_after(init, other, t.take(3)) == init);
    assert(level_after(init, other, t.take(4)) == init);
    assert(level_after(init, other, t.take(5)) == init);
}

/// Pulse timing: the plan holds the selected line active for `PULSE_MS` (at
/// least 100 ms) before releasing, and settles for `SETTLE_MS` (at least
/// 100 ms) after both lines are released, in exactly this order.
pub proof fn lemma_pulse_timing(open_id: u8, close_id: u8, dir: OpenClose)
    ensures
        pulse_trace(open_id, close_id, dir).len() == 5,
        pulse_trace(open_id, close_id, dir)[0]
            == Action::SetHigh(selected_id(open_id, close_id, dir)),
        pulse_trace(open_id, close_id, dir)[1] == Action::SleepMs(PULSE_MS),
        pulse_trace(open_id, close_id, dir)[2] == Action::SetLow(open_id),
        pulse_trace(open_id, close_id, dir)[3] == Action::SetLow(close_id),
        pulse_trace(open_id, close_id, dir)[4] == Action::SleepMs(SETTLE_MS),
        PULSE_MS >= 100,
        SETTLE_MS >= 100,
{
}

} // verus!
