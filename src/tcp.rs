//! The per-flow TCP state machine, driven by the flags of each packet.
use vstd::prelude::*;

use crate::net::Direction;

verus! {

#[derive(Clone, Copy, Debug, PartialEq, Eq, Structural)]
pub struct TcpFlags {
    pub syn: bool,
    pub ack: bool,
    pub fin: bool,
    pub rst: bool,
}

/// `Closing` records in which directions a FIN has been seen.
#[derive(Clone, Copy, Debug, PartialEq, Eq, Structural)]
pub enum TcpState {
    New,
    Established,
    Closing { fin_out: bool, fin_in: bool },
    Closed,
}

/// The state after a FIN seen in `dir`, with FINs already seen as given.
pub open spec fn after_fin(fin_out: bool, fin_in: bool, dir: Direction) -> TcpState {
    let o = fin_out || dir == Direction::Out;
    let i = fin_in || dir == Direction::In;
    if o && i {
        TcpState::Closed
    } else {
        TcpState::Closing { fin_out: o, fin_in: i }
    }
}

/// RST closes at once; SYN+ACK establishes a new flow; a FIN in each
/// direction closes it.
pub open spec fn spec_next(s: TcpState, dir: Direction, fl: TcpFlags) -> TcpState {
    if fl.rst {
        TcpState::Closed
    } else {
        match s {
            TcpState::New => if fl.fin {
                after_fin(false, false, dir)
            } else if fl.syn && fl.ack {
                TcpState::Established
            } else {
                TcpState::New
            },
            TcpState::Established => if fl.fin {
                after_fin(false, false, dir)
            } else {
                TcpState::Established
            },
            TcpState::Closing { fin_out, fin_in } => if fl.fin {
                after_fin(fin_out, fin_in, dir)
            } else {
                s
            },
            TcpState::Closed => TcpState::Closed,
        }
    }
}

fn next_after_fin(fin_out: bool, fin_in: bool, dir: Direction) -> (r: TcpState)
    ensures
        r == after_fin(fin_out, fin_in, dir),
{
    let o = fin_out || dir == Direction::Out;
    let i = fin_in || dir == Direction::In;
    if o && i {
        TcpState::Closed
    } else {
        TcpState::Closing { fin_out: o, fin_in: i }
    }
}

impl TcpState {
    /// The state after a packet with flags `fl` travelling in `dir`.
    pub fn next(self, dir: Direction, fl: TcpFlags) -> (r: TcpState)
        ensures
            r == spec_next(self, dir, fl),
    {
        if fl.rst {
            return TcpState::Closed;
        }
        match self {
            TcpState::New => if fl.fin {
                next_after_fin(false, false, dir)
            } else if fl.syn && fl.ack {
                TcpState::Established
            } else {
                TcpState::New
            },
            TcpState::Established => if fl.fin {
                next_after_fin(false, false, dir)
            } else {
                TcpState::Established
            },
            TcpState::Closing { fin_out, fin_in } => if fl.fin {
                next_after_fin(fin_out, fin_in, dir)
            } else {
                self
            },
            TcpState::Closed => TcpState::Closed,
        }
    }
}

} // verus!
