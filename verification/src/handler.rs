//! The connection handler's per-line step and its model.
//!
//! A connection delivers one command attempt per line. Each line is decoded,
//! resolved against the shutter bank, and on success turned into a pulse
//! plan; on failure the handler phrases one reply line for the client and the
//! connection goes on. Nothing here ends a connection: only an I/O failure on
//! the stream itself does, and that lives with the caller.

use vstd::prelude::*;
use crate::actuator::Action;
use crate::actuator::Shutter;
use crate::actuator::actuate;
use crate::actuator::pulse_trace;
use crate::command::Command;
use crate::command::OpenClose;
use crate::config::ShutterConfig;
use crate::config::bank_from;
use crate::decode::DecodeError;
use crate::decode::decode;
use crate::decode::spec_decode;

verus! {

/// Why one command failed. Every such failure is reported to the client and
/// never ends the connection.
#[derive(Clone, Copy, PartialEq, Eq, Structural, Debug)]
pub enum CmdError {
    /// The line is not a well-formed command encoding.
    Decode(DecodeError),
    /// The decoded shutter index lies outside the bank.
    InvalidShutter(usize),
}

/// Decimal digits of `n`, most significant first.
pub open spec fn dec_rep(n: int) -> Seq<u8>
    decreases n when n >= 0
{
    if n < 10 {
        seq![(0x30 + n) as u8]
    } else {
        dec_rep(n / 10) + seq![(0x30 + n % 10) as u8]
    }
}

/// `invalid command`: the report for a line that does not decode.
pub open spec fn decode_msg() -> Seq<u8> {
    seq![0x69u8, 0x6e, 0x76, 0x61, 0x6c, 0x69, 0x64, 0x20, 0x63, 0x6f, 0x6d, 0x6d, 0x61, 0x6e, 0x64]
}

/// `Invalid shutter ID: `: the prefix of the unknown-shutter report.
pub open spec fn invalid_shutter_prefix() -> Seq<u8> {
    seq![0x49u8, 0x6e, 0x76, 0x61, 0x6c, 0x69, 0x64, 0x20, 0x73, 0x68, 0x75, 0x74, 0x74, 0x65,
        0x72, 0x20, 0x49, 0x44, 0x3a, 0x20]
}

/// The message text for an error.
pub open spec fn spec_message(e: CmdError) -> Seq<u8> {
    match e {
        CmdError::Decode(_) => decode_msg(),
        CmdError::InvalidShutter(id) => invalid_shutter_prefix() + dec_rep(id as int),
    }
}

/// `Error: `: every reply line to the client begins with it.
pub open spec fn error_prefix() -> Seq<u8> {
    seq![0x45u8, 0x72, 0x72, 0x6f, 0x72, 0x3a, 0x20]
}

/// The full reply line (without terminator) for an error.
pub open spec fn spec_reply(e: CmdError) -> Seq<u8> {
    error_prefix() + spec_message(e)
}

/// Append the decimal digits of `n`, most significant first.
fn push_dec(n: usize, out: &mut Vec<u8>)
    ensures
        final(out)@ == old(out)@ + dec_rep(n as int),
    decreases n,
{
    if n >= 10 {
        push_dec(n / 10, out);
    }
    out.push(0x30 + (n % 10) as u8);
    proof {
        assert(out@ =~= old(out)@ + dec_rep(n as int));
    }
}

impl CmdError {
    /// The human-readable message for this error.
    pub fn message(&self) -> (v: Vec<u8>)
        ensures
            v@ == spec_message(*self),
    {
        let mut v: Vec<u8> = Vec::new();
        match self {
            CmdError::Decode(_) => {
                v.push(0x69);
                v.push(0x6e);
                v.push(0x76);
                v.push(0x61);
                v.push(0x6c);
                v.push(0x69);
                v.push(0x64);
                v.push(0x20);
                v.push(0x63);
                v.push(0x6f);
                v.push(0x6d);
                v.push(0x6d);
                v.push(0x61);
                v.push(0x6e);
                v.push(0x64);
                proof {
                    assert(v@ =~= decode_msg());
                }
            },
            CmdError::InvalidShutter(id) => {
                v.push(0x49);
                v.push(0x6e);
                v.push(0x76);
                v.push(0x61);
                v.push(0x6c);
                v.push(0x69);
                v.push(0x64);
                v.push(0x20);
                v.push(0x73);
                v.push(0x68);
                v.push(0x75);
                v.push(0x74);
                v.push(0x74);
                v.push(0x65);
                v.push(0x72);
                v.push(0x20);
                v.push(0x49);
                v.push(0x44);
                v.push(0x3a);
                v.push(0x20);
                proof {
                    assert(v@ =~= invalid_shutter_prefix());
                }
                push_dec(*id, &mut v);
            },
        }
        v
    }
}

/// The full reply line for an error: `Error: ` followed by its message.
pub fn error_reply(e: &CmdError) -> (v: Vec<u8>)
    ensures
        v@ == spec_reply(*e),
{
    let mut v: Vec<u8> = Vec::new();
    v.push(0x45);
    v.push(0x72);
    v.push(0x72);
    v.push(0x6f);
    v.push(0x72);
    v.push(0x3a);
    v.push(0x20);
    proof {
        assert(v@ =~= error_prefix());
    }
    let mut m = e.message();
    v.append(&mut m);
    v
}

/// What one input line yields against a bank with the given wiring: the
/// planned pulse on success, the error otherwise.
pub open spec fn spec_outcome(bank: Seq<Shutter>, line: Seq<u8>) -> Result<Seq<Action>, CmdError> {
    match spec_decode(line) {
        None => Err(CmdError::Decode(DecodeError)),
        Some(cmd) => match cmd {
            Command::Shutter(id, dir) => {
                if id >= bank.len() {
                    Err(CmdError::InvalidShutter(id))
                } else {
                    Ok(pulse_trace(bank[id as int].pin_open.id, bank[id as int].pin_close.id, dir))
                }
            },
        },
    }
}

/// One connection-handler step at the model level: the bank afterwards and
/// the reply line, `None` for silent success.
pub open spec fn spec_step(bank: Seq<Shutter>, line: Seq<u8>) -> (Seq<Shutter>, Option<Seq<u8>>) {
    match spec_decode(line) {
        None => (bank, Some(spec_reply(CmdError::Decode(DecodeError)))),
        Some(cmd) => match cmd {
            Command::Shutter(id, dir) => {
                if id >= bank.len() {
                    (bank, Some(spec_reply(CmdError::InvalidShutter(id))))
                } else {
                    (bank.update(id as int, bank[id as int].settled()), None)
                }
            },
        },
    }
}

/// Handle one command line against the bank: decode it, resolve the shutter,
/// and plan its pulse. The caller performs the returned actions in order
/// before reading the next line.
pub fn handle_command(shutters: &mut Vec<Shutter>, line: &[u8]) -> (r: Result<Vec<Action>, CmdError>)
    ensures
        final(shutters)@ == spec_step(old(shutters)@, line@).0,
        match r {
            Ok(acts) => spec_outcome(old(shutters)@, line@) matches Ok(t) && acts@ == t,
            Err(e) => spec_outcome(old(shutters)@, line@) == Err::<Seq<Action>, CmdError>(e),
        },
{
    let cmd = match decode(line) {
        Ok(c) => c,
        Err(e) => {
            return Err(CmdError::Decode(e));
        },
    };
    match cmd {
        Command::Shutter(id, dir) => {
            if id >= shutters.len() {
                return Err(CmdError::InvalidShutter(id));
            }
            let acts = actuate(&mut shutters[id], dir);
            Ok(acts)
        },
    }
}

/// The outcome of one line: the planned actions (none on failure) and the
/// reply to send back, `None` for silent success.
pub struct StepResult {
    pub actions: Vec<Action>,
    pub reply: Option<Vec<u8>>,
}

/// Process one line exactly as the connection handler does: decode, resolve,
/// actuate; on any per-command failure phrase the one reply line and go on.
pub fn handle_line(shutters: &mut Vec<Shutter>, line: &[u8]) -> (r: StepResult)
    ensures
        final(shutters)@ == spec_step(old(shutters)@, line@).0,
        match spec_step(old(shutters)@, line@).1 {
            Some(m) => r.reply matches Some(v) && v@ == m,
            None => r.reply is None,
        },
        match spec_outcome(old(shutters)@, line@) {
            Ok(t) => r.actions@ == t,
            Err(_) => r.actions@.len() == 0,
        },
{
    match handle_command(shutters, line) {
        Ok(actions) => StepResult { actions, reply: None },
        Err(e) => StepResult { actions: Vec::new(), reply: Some(error_reply(&e)) },
    }
}

/// Every shutter of the bank has both lines released: the state between
/// commands, which every handler step preserves.
pub open spec fn bank_idle(bank: Seq<Shutter>) -> bool {
    forall|i: int| 0 <= i < bank.len() ==> (#[trigger] bank[i]).idle()
}

/// The model of one whole connection: every line processed in order, with
/// the reply slot (or silence) each one draws.
pub open spec fn spec_run(bank: Seq<Shutter>, lines: Seq<Seq<u8>>) -> (Seq<Shutter>, Seq<
    Option<Seq<u8>>,
>)
    decreases lines.len(),
{
    if lines.len() == 0 {
        (bank, Seq::empty())
    } else {
        let prev = spec_run(bank, lines.drop_last());
        let last = spec_step(prev.0, lines.last());
        (last.0, prev.1 + seq![last.1])
    }
}

/// Process a whole connection's lines in order, collecting each line's reply
/// slot (`None` for silent success).
pub fn handle_lines(shutters: &mut Vec<Shutter>, lines: &Vec<Vec<u8>>) -> (replies: Vec<
    Option<Vec<u8>>,
>)
    ensures
        final(shutters)@ == spec_run(old(shutters)@, lines.deep_view()).0,
        replies.deep_view() == spec_run(old(shutters)@, lines.deep_view()).1,
{
    let ghost lmodel = lines.deep_view();
    let ghost bank0 = shutters@;
    let mut replies: Vec<Option<Vec<u8>>> = Vec::new();
    let mut i: usize = 0;
    while i < lines.len()
        invariant
            0 <= i <= lines@.len(),
            lmodel == lines.deep_view(),
            lmodel.len() == lines@.len(),
            shutters@ == spec_run(bank0, lmodel.take(i as int)).0,
            replies@.len() == i,
            replies.deep_view() =~= spec_run(bank0, lmodel.take(i as int)).1,
        decreases lines@.len() - i,
    {
        proof {
            assert(lmodel[i as int] == lines@[i as int]@);
        }
        let r = handle_line(shutters, lines[i].as_slice());
        let ghost prev_replies = replies.deep_view();
        let ghost rep = r.reply;
        replies.push(r.reply);
        proof {
            assert(lmodel.take(i + 1).drop_last() =~= lmodel.take(i as int));
            assert(lmodel.take(i + 1).last() == lmodel[i as int]);
            let stepped = spec_step(spec_run(bank0, lmodel.take(i as int)).0, lmodel[i as int]);
            match rep {
                Some(v) => {
                    assert(v.deep_view() =~= v@);
                },
                None => {},
            }
            assert(rep.deep_view() == stepped.1);
            assert(replies@[i as int] == rep);
            assert(replies.deep_view() =~= prev_replies + seq![rep.deep_view()]);
            assert(replies.deep_view() =~= spec_run(bank0, lmodel.take(i + 1)).1);
        }
        i = i + 1;
    }
    proof {
        assert(lmodel.take(lmodel.len() as int) =~= lmodel);
    }
    replies
}

/// Malformed-input resilience: a line that does not decode draws the decode
/// error reply and leaves every shutter exactly as it was, so any following
/// line behaves as if the malformed one had never arrived.
pub proof fn lemma_malformed_line_isolated(bank: Seq<Shutter>, bad: Seq<u8>, next: Seq<u8>)
    requires
        spec_decode(bad) is None,
    ensures
        spec_step(bank, bad).0 == bank,
        spec_step(bank, bad).1 == Some(spec_reply(CmdError::Decode(DecodeError))),
        spec_step(spec_step(bank, bad).0, next) == spec_step(bank, next),
{
}

/// Unknown shutter: a decoded command whose index lies outside the bank
/// draws exactly the `Invalid shutter ID` reply, plans no action, and
/// changes no shutter.
pub proof fn lemma_unknown_shutter(bank: Seq<Shutter>, line: Seq<u8>, id: usize, dir: OpenClose)
    requires
        spec_decode(line) == Some(Command::Shutter(id, dir)),
        id >= bank.len(),
    ensures
        spec_outcome(bank, line) == Err::<Seq<Action>, CmdError>(CmdError::InvalidShutter(id)),
        spec_step(bank, line).0 == bank,
        spec_step(bank, line).1 == Some(spec_reply(CmdError::InvalidShutter(id))),
{
}

/// A bank as the pin registry builds it starts with every line released.
pub proof fn lemma_built_bank_idle(cfgs: Seq<ShutterConfig>, bank: Seq<Shutter>)
    requires
        bank_from(cfgs, bank),
    ensures
        bank_idle(bank),
{
    assert forall|i: int| 0 <= i < bank.len() implies (#[trigger] bank[i]).idle() by {
        assert(bank_from(cfgs, bank));
    }
}

/// A handler step on an idle bank hands the bank back unchanged.
pub proof fn lemma_step_keeps_idle_bank(bank: Seq<Shutter>, line: Seq<u8>)
    requires
        bank_idle(bank),
    ensures
        spec_step(bank, line).0 == bank,
{
    match spec_decode(line) {
        None => {},
        Some(cmd) => match cmd {
            Command::Shutter(id, dir) => {
                if id < bank.len() {
                    assert(bank[id as int].idle());
                    assert(bank[id as int].settled() == bank[id as int]);
                    assert(bank.update(id as int, bank[id as int].settled()) =~= bank);
                }
            },
        },
    }
}

/// A whole connection on an idle bank hands the bank back unchanged.
pub proof fn lemma_connection_keeps_bank(bank: Seq<Shutter>, lines: Seq<Seq<u8>>)
    requires
        bank_idle(bank),
    ensures
        spec_run(bank, lines).0 == bank,
    decreases lines.len(),
{
    if lines.len() > 0 {
        lemma_connection_keeps_bank(bank, lines.drop_last());
        lemma_step_keeps_idle_bank(bank, lines.last());
    }
}

/// Sequential isolation: whatever one connection sent, it leaves the bank as
/// configured, so the next connection's replies are exactly those it would
/// have drawn against the fresh bank.
pub proof fn lemma_sequential_isolation(bank: Seq<Shutter>, first: Seq<Seq<u8>>, second: Seq<
    Seq<u8>,
>)
    requires
        bank_idle(bank),
    ensures
        spec_run(bank, first).0 == bank,
        spec_run(spec_run(bank, first).0, second) == spec_run(bank, second),
{
    lemma_connection_keeps_bank(bank, first);
}

} // verus!
