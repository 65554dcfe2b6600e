//! # How the daemon is set up
//!
//! Two ways to be reached and one place to write scans down, each chosen on
//! the command line. Neither way is a default: a daemon that opens something
//! unasked is a daemon nobody asked for, and which of the two a caller wants is
//! not something to guess at.

use vstd::prelude::*;

verus! {

/// How the protocol reaches its clients.
#[derive(Debug, Clone, Copy, PartialEq, Eq)]
pub enum Transport {
    /// A unix socket at a path, for clients that cannot start the daemon.
    Socket,
    /// Standard input and output, for a client that started this process.
    Pipe,
}

/// How the daemon is reached: a socket where one was named, whatever else was
/// said; the pipe where that was asked for instead; and nothing where neither
/// was, which the daemon answers by saying how and stopping.
pub fn transport_for(socket_named: bool, pipe: bool) -> (r: Option<Transport>)
    ensures
        r == if socket_named {
            Some(Transport::Socket)
        } else if pipe {
            Some(Transport::Pipe)
        } else {
            None::<Transport>
        },
{
    if socket_named {
        Some(Transport::Socket)
    } else if pipe {
        Some(Transport::Pipe)
    } else {
        None
    }
}

/// Where scans are written down: nowhere when told to keep no record, and
/// otherwise the place named, or this user's own journal directory where none
/// was named and there is one.
pub fn journal_root<T>(no_journal: bool, named: Option<T>, fallback: Option<T>) -> (r: Option<T>)
    ensures
        r == if no_journal {
            None::<T>
        } else {
            match named {
                Some(place) => Some(place),
                None => fallback,
            }
        },
{
    if no_journal {
        None
    } else {
        match named {
            Some(place) => Some(place),
            None => fallback,
        }
    }
}

} // verus!
