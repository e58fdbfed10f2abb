//! The error kinds of the proxy core.

use vstd::prelude::*;

verus! {

/// What can go wrong inside the core. None of these is fatal to the proxy
/// itself: a connection is closed, or a packet is dropped, and the relay goes on.
#[derive(Clone, Debug, PartialEq, Eq)]
pub enum SplinterError {
    /// A malformed packet, or a packet kind that the current state does not expect.
    ProtocolError,
    /// The peer announced a protocol version that the registry does not know.
    UnsupportedVersion(i32),
    /// A numeric id that the static dictionary of its kind does not hold.
    UnknownId(i32),
    /// A namespaced name that the static dictionary of its kind does not hold.
    UnknownName(String),
    /// No mapping exists for a proxy-side identifier.
    NotMapped,
    /// An allocator has handed out every identifier it may.
    IdsExhausted,
    /// No zone matches a position and no default backend is configured.
    Unzoned,
    /// A packet was directed to a backend the client has no connection to.
    UnknownServer(u64),
    /// No live client has the given proxy-side UUID.
    UnknownClient(u128),
    /// A read or write failed on a path that the session survives.
    IoTransient,
    /// A write to the client's own socket failed.
    IoFatal,
    /// Startup data could not be parsed.
    ConfigFatal,
    /// A command was given fewer arguments than it needs.
    MissingArgument,
    /// No live client has the given name.
    UnknownPlayer(String),
}

} // verus!
