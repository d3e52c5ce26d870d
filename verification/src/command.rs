//! The command vocabulary of the wire protocol.

use vstd::prelude::*;

verus! {

/// The direction a shutter is driven in.
#[derive(Clone, Copy, PartialEq, Eq, Structural, Debug)]
pub enum OpenClose {
    Open,
    Close,
}

/// One decoded client command: drive the shutter at a bank index in a
/// direction. Commands are transient: decoded from one input line, acted on
/// at once, never stored.
#[derive(Clone, Copy, PartialEq, Eq, Structural, Debug)]
pub enum Command {
    Shutter(usize, OpenClose),
}

} // verus!
