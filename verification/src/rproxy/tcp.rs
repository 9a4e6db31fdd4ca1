//! Handshakers of the reverse proxy's TCP tunnels, which keep the tunnel
//! configuration that each handshake reads.
use vstd::prelude::*;

verus! {

/// Opens plain TCP tunnels with the configuration it was made with.
pub struct TcpHandshaker<C> {
    config: C,
}

impl<C> TcpHandshaker<C> {
    /// The configuration the handshaker was made with.
    pub closed spec fn spec_config(&self) -> C {
        self.config
    }

    /// Creates a handshaker for the given tunnel configuration.
    pub fn new(config: C) -> (r: Self)
        ensures
            r.spec_config() == config,
    {
        TcpHandshaker { config }
    }
}

/// Opens TLS tunnels over TCP with the configuration it was made with.
pub struct TcpSslHandshaker<C> {
    config: C,
}

impl<C> TcpSslHandshaker<C> {
    /// The configuration the handshaker was made with.
    pub closed spec fn spec_config(&self) -> C {
        self.config
    }

    /// Creates a handshaker for the given tunnel configuration.
    pub fn new(config: C) -> (r: Self)
        ensures
            r.spec_config() == config,
    {
        TcpSslHandshaker { config }
    }
}

} // verus!
