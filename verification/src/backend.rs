//! One upstream server, and the transport that its port calls for.

use crate::address::{address_port, is_address, parse_port};
use vstd::prelude::*;

verus! {

/// The port on which an upstream is taken to speak TLS.
pub const SECURE_PORT: u16 = 443;

/// How the proxy talks to an upstream.
#[derive(Clone, Copy, Debug, PartialEq, Eq)]
pub enum Transport {
    /// Plain TCP.
    Plain,
    /// TLS over TCP.
    Tls,
}

/// The transport that an upstream configured as `address` calls for: TLS on
/// the secure port, plain TCP on every other.
pub open spec fn transport_of(address: Seq<char>) -> Transport {
    if address_port(address) == Some(SECURE_PORT) {
        Transport::Tls
    } else {
        Transport::Plain
    }
}

/// One upstream server.
///
/// A backend is its address and nothing else: it never changes once it
/// exists. Whether it is healthy is the pool's to say, which keeps one flag
/// beside each of its backends. The view of a backend is its address.
#[derive(Debug, PartialEq, Eq)]
pub struct Backend {
    address: String,
    port: u16,
}

impl View for Backend {
    type V = Seq<char>;

    closed spec fn view(&self) -> Seq<char> {
        self.address@
    }
}

impl Backend {
    #[verifier::type_invariant]
    spec fn well_formed(self) -> bool {
        address_port(self.address@) == Some(self.port)
    }

    /// Makes a backend from an address of the form `host:port`; `None` for
    /// any other text.
    pub fn new(address: &str) -> (backend: Option<Backend>)
        ensures
            match backend {
                Some(b) => is_address(address@) && b@ == address@,
                None => !is_address(address@),
            },
    {
        match parse_port(address) {
            Some(port) => Some(Backend { address: address.to_owned(), port }),
            None => None,
        }
    }

    /// The address as it was configured.
    pub fn address(&self) -> (address: &str)
        ensures
            address@ == self@,
    {
        self.address.as_str()
    }

    /// The port named in the address.
    pub fn port(&self) -> (port: u16)
        ensures
            address_port(self@) == Some(port),
    {
        proof {
            use_type_invariant(self);
        }
        self.port
    }

    /// The transport that this backend's port calls for.
    pub fn transport_hint(&self) -> (transport: Transport)
        ensures
            transport == transport_of(self@),
    {
        if self.port() == SECURE_PORT {
            Transport::Tls
        } else {
            Transport::Plain
        }
    }
}

impl Clone for Backend {
    fn clone(&self) -> (copy: Backend)
        ensures
            copy@ == self@,
    {
        proof {
            use_type_invariant(self);
        }
        Backend { address: self.address.clone(), port: self.port }
    }
}

/// The addresses of `backends`, in order.
pub open spec fn addresses_of(backends: Seq<Backend>) -> Seq<Seq<char>> {
    Seq::new(backends.len(), |i: int| backends[i]@)
}

} // verus!
