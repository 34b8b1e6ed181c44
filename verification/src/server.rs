//! Server-side dispatch: which datagrams on the well-known port start a
//! transfer, and the error packet a transfer handler sends before
//! aborting on a sequence violation.
//!
//! The listen loop itself is plain blocking socket work and lives with
//! the rest of the I/O; each accepted request runs the mirrored half of
//! the stop-and-wait exchange over a fresh ephemeral endpoint.

use vstd::prelude::*;

use crate::packet::{Packet, PacketSpec};

verus! {

/// What the listen loop does with one accepted request.
#[derive(Debug)]
pub enum Request {
    /// A read request: serve the named file to the requesting client.
    Upload(Vec<u8>),
    /// A write request: accept the named file from the requesting client.
    Download(Vec<u8>),
}

/// The server engine's configuration: a verbosity flag set once at
/// construction from an environment toggle.
pub struct Server {
    /// When set, every exchanged packet and each completed transfer's
    /// byte count are logged.
    pub verbose: bool,
}

impl Server {
    /// Builds a server with the given verbosity.
    pub fn new(verbose: bool) -> (s: Server)
        ensures
            s.verbose == verbose,
    {
        Server { verbose }
    }

    /// Dispatch of the listen loop: a read request starts an upload of
    /// the named file to the client, a write request a download from it;
    /// every other packet kind on the well-known port is silently
    /// discarded.
    pub fn dispatch(&self, p: Packet) -> (r: Option<Request>)
        ensures
            match p@ {
                PacketSpec::ReadRequest { filename, .. } => r matches Some(Request::Upload(f))
                    && f@ == filename,
                PacketSpec::WriteRequest { filename, .. } => r matches Some(Request::Download(f))
                    && f@ == filename,
                _ => r is None,
            },
    {
        match p {
            Packet::ReadRequest(file, _) => Some(Request::Upload(file)),
            Packet::WriteRequest(file, _) => Some(Request::Download(file)),
            _ => None,
        }
    }
}

/// The error packet a server-side transfer handler sends to its peer
/// when a received block number does not match the expected one: code 0
/// with the message "blk != klb".
pub fn sequence_error_packet() -> (p: Packet)
    ensures
        p@ == (PacketSpec::Error {
            code: 0u16,
            message: seq![98u8, 108u8, 107u8, 32u8, 33u8, 61u8, 32u8, 107u8, 108u8, 98u8],
        }),
        p@.wf(),
{
    let msg: Vec<u8> = vec![98, 108, 107, 32, 33, 61, 32, 107, 108, 98];
    proof {
        assert(msg@ =~= seq![98u8, 108u8, 107u8, 32u8, 33u8, 61u8, 32u8, 107u8, 108u8, 98u8]);
        assert(!msg@.contains(0u8));
    }
    Packet::Error(0, msg)
}

} // verus!
