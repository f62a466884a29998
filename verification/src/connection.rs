//! What is known of one accepted connection.
use std::path::PathBuf;

use vstd::prelude::*;

use crate::address::{IpAddr, SocketAddr};
use crate::transport::NacelleTransport;

verus! {

/// A path in the file system, from `std`.
#[verifier::external_type_specification]
#[verifier::external_body]
pub struct ExPathBuf(std::path::PathBuf);

/// [`PathBuf::clone`] duplicates a path.
pub assume_specification[ <PathBuf as Clone>::clone ](path: &PathBuf) -> (copy: PathBuf)
    ensures
        copy == *path,
;

/// What was negotiated for a TLS connection.
#[derive(Debug)]
pub struct NacelleConnectionTlsMeta {
    pub provider: &'static str,
    pub protocol: Option<String>,
    pub cipher_suite: Option<String>,
    pub cipher_bits: Option<u16>,
    pub cipher_algorithm_bits: Option<u16>,
    pub server_name: Option<String>,
}

impl Clone for NacelleConnectionTlsMeta {
    fn clone(&self) -> (copy: Self)
        ensures
            copy == self,
    {
        Self {
            provider: self.provider,
            protocol: copy_text(&self.protocol),
            cipher_suite: copy_text(&self.cipher_suite),
            cipher_bits: self.cipher_bits,
            cipher_algorithm_bits: self.cipher_algorithm_bits,
            server_name: copy_text(&self.server_name),
        }
    }
}

fn copy_text(text: &Option<String>) -> (copy: Option<String>)
    ensures
        copy == *text,
{
    match text {
        Some(text) => Some(text.clone()),
        None => None,
    }
}

impl NacelleConnectionTlsMeta {
    /// Nothing is known but the TLS implementation.
    pub fn new(provider: &'static str) -> (meta: Self)
        ensures
            meta == (NacelleConnectionTlsMeta {
                provider,
                protocol: None,
                cipher_suite: None,
                cipher_bits: None,
                cipher_algorithm_bits: None,
                server_name: None,
            }),
    {
        Self {
            provider,
            protocol: None,
            cipher_suite: None,
            cipher_bits: None,
            cipher_algorithm_bits: None,
            server_name: None,
        }
    }

    pub fn with_protocol(self, protocol: &str) -> (meta: Self)
        ensures
            meta.protocol is Some,
            meta.protocol->0@ == protocol@,
            meta == (NacelleConnectionTlsMeta { protocol: meta.protocol, ..self }),
    {
        Self { protocol: Some(protocol.to_owned()), ..self }
    }

    pub fn with_cipher_suite(self, cipher_suite: &str) -> (meta: Self)
        ensures
            meta.cipher_suite is Some,
            meta.cipher_suite->0@ == cipher_suite@,
            meta == (NacelleConnectionTlsMeta { cipher_suite: meta.cipher_suite, ..self }),
    {
        Self { cipher_suite: Some(cipher_suite.to_owned()), ..self }
    }

    pub fn with_cipher_bits(self, cipher_bits: u16) -> (meta: Self)
        ensures
            meta == (NacelleConnectionTlsMeta { cipher_bits: Some(cipher_bits), ..self }),
    {
        Self { cipher_bits: Some(cipher_bits), ..self }
    }

    pub fn with_cipher_algorithm_bits(self, cipher_algorithm_bits: u16) -> (meta: Self)
        ensures
            meta == (NacelleConnectionTlsMeta {
                cipher_algorithm_bits: Some(cipher_algorithm_bits),
                ..self
            }),
    {
        Self { cipher_algorithm_bits: Some(cipher_algorithm_bits), ..self }
    }

    pub fn with_server_name(self, server_name: &str) -> (meta: Self)
        ensures
            meta.server_name is Some,
            meta.server_name->0@ == server_name@,
            meta == (NacelleConnectionTlsMeta { server_name: meta.server_name, ..self }),
    {
        Self { server_name: Some(server_name.to_owned()), ..self }
    }
}

/// The identifiers of connections, drawn one after the other.
#[derive(Debug)]
pub struct ConnectionIds {
    next: u64,
}

/// The identifier that is drawn after `id`.
pub open spec fn following_id(id: nat) -> nat {
    (id + 1) % 0x1_0000_0000_0000_0000
}

impl View for ConnectionIds {
    type V = nat;

    /// The identifier that is drawn next.
    closed spec fn view(&self) -> nat {
        self.next as nat
    }
}

impl Default for ConnectionIds {
    fn default() -> (ids: Self)
        ensures
            ids@ == 1,
    {
        Self { next: 1 }
    }
}

impl ConnectionIds {
    /// Draws an identifier.
    pub fn next_connection_id(&mut self) -> (id: u64)
        ensures
            id == old(self)@,
            final(self)@ == following_id(old(self)@),
    {
        let id: u64 = self.next;
        self.next = id.wrapping_add(1);
        id
    }
}

/// The `count`-th identifier after `first`.
pub open spec fn drawn_id(first: nat, count: nat) -> nat
    decreases count,
{
    if count == 0 {
        first
    } else {
        following_id(drawn_id(first, (count - 1) as nat))
    }
}

proof fn lemma_drawn_id(first: nat, count: nat)
    requires
        first < 0x1_0000_0000_0000_0000,
    ensures
        drawn_id(first, count) == (first + count) % 0x1_0000_0000_0000_0000,
    decreases count,
{
    if count > 0 {
        lemma_drawn_id(first, (count - 1) as nat);
    }
}

/// No identifier is drawn twice within 2^64 draws.
pub proof fn law_connection_ids_are_unique(first: nat, early: nat, late: nat)
    requires
        first < 0x1_0000_0000_0000_0000,
        early < late,
        late - early < 0x1_0000_0000_0000_0000,
    ensures
        drawn_id(first, early) != drawn_id(first, late),
{
    lemma_drawn_id(first, early);
    lemma_drawn_id(first, late);
}

/// What is known of one accepted connection.
#[derive(Debug)]
pub struct NacelleConnectionMeta {
    pub connection_id: u64,
    pub transport: NacelleTransport,
    pub listener: String,
    pub peer_addr: Option<SocketAddr>,
    pub peer_ip: Option<IpAddr>,
    pub local_addr: Option<SocketAddr>,
    pub local_path: Option<PathBuf>,
    pub tls: Option<NacelleConnectionTlsMeta>,
}

/// The address without its port.
pub open spec fn ip_of(addr: Option<SocketAddr>) -> Option<IpAddr> {
    match addr {
        Some(addr) => Some(addr.ip),
        None => None,
    }
}

fn address_ip(addr: Option<SocketAddr>) -> (ip: Option<IpAddr>)
    ensures
        ip == ip_of(addr),
{
    match addr {
        Some(addr) => Some(addr.ip),
        None => None,
    }
}

impl Clone for NacelleConnectionMeta {
    fn clone(&self) -> (copy: Self)
        ensures
            copy == self,
    {
        Self {
            connection_id: self.connection_id,
            transport: self.transport,
            listener: self.listener.clone(),
            peer_addr: self.peer_addr,
            peer_ip: self.peer_ip,
            local_addr: self.local_addr,
            local_path: match &self.local_path {
                Some(path) => Some(path.clone()),
                None => None,
            },
            tls: match &self.tls {
                Some(tls) => Some(tls.clone()),
                None => None,
            },
        }
    }
}

impl NacelleConnectionMeta {
    /// A connection with the next identifier, on the default listener, without TLS.
    pub open spec fn is_new(
        self,
        ids: nat,
        transport: Seq<char>,
        peer_addr: Option<SocketAddr>,
        peer_ip: Option<IpAddr>,
        local_addr: Option<SocketAddr>,
        local_path: Option<PathBuf>,
    ) -> bool {
        &&& self.connection_id == ids
        &&& self.transport@ == transport
        &&& self.listener@ == "direct"@
        &&& self.peer_addr == peer_addr
        &&& self.peer_ip == peer_ip
        &&& self.local_addr == local_addr
        &&& self.local_path == local_path
        &&& self.tls is None
    }

    /// A TCP connection.
    pub fn tcp(
        ids: &mut ConnectionIds,
        peer_addr: Option<SocketAddr>,
        local_addr: Option<SocketAddr>,
    ) -> (meta: Self)
        ensures
            meta.is_new(old(ids)@, "tcp"@, peer_addr, ip_of(peer_addr), local_addr, None),
            final(ids)@ == following_id(old(ids)@),
    {
        Self {
            connection_id: ids.next_connection_id(),
            transport: NacelleTransport::new("tcp"),
            listener: "direct".to_owned(),
            peer_ip: address_ip(peer_addr),
            peer_addr,
            local_addr,
            local_path: None,
            tls: None,
        }
    }

    /// A connection on a Unix domain socket.
    pub fn unix_socket(ids: &mut ConnectionIds, local_path: Option<PathBuf>) -> (meta: Self)
        ensures
            meta.is_new(old(ids)@, "unix_socket"@, None, None, None, local_path),
            final(ids)@ == following_id(old(ids)@),
    {
        Self {
            connection_id: ids.next_connection_id(),
            transport: NacelleTransport::new("unix_socket"),
            listener: "direct".to_owned(),
            peer_addr: None,
            peer_ip: None,
            local_addr: None,
            local_path,
            tls: None,
        }
    }

    /// An HTTP connection of which only the peer's IP address is known.
    pub fn http(ids: &mut ConnectionIds, peer_ip: Option<IpAddr>) -> (meta: Self)
        ensures
            meta.is_new(old(ids)@, "http"@, None, peer_ip, None, None),
            final(ids)@ == following_id(old(ids)@),
    {
        Self {
            connection_id: ids.next_connection_id(),
            transport: NacelleTransport::new("http"),
            listener: "direct".to_owned(),
            peer_addr: None,
            peer_ip,
            local_addr: None,
            local_path: None,
            tls: None,
        }
    }

    /// An HTTP connection on a socket.
    pub fn http_socket(
        ids: &mut ConnectionIds,
        peer_addr: Option<SocketAddr>,
        local_addr: Option<SocketAddr>,
    ) -> (meta: Self)
        ensures
            meta.is_new(old(ids)@, "http"@, peer_addr, ip_of(peer_addr), local_addr, None),
            final(ids)@ == following_id(old(ids)@),
    {
        Self {
            connection_id: ids.next_connection_id(),
            transport: NacelleTransport::new("http"),
            listener: "direct".to_owned(),
            peer_ip: address_ip(peer_addr),
            peer_addr,
            local_addr,
            local_path: None,
            tls: None,
        }
    }

    pub fn with_tls(self, tls: NacelleConnectionTlsMeta) -> (meta: Self)
        ensures
            meta == (NacelleConnectionMeta { tls: Some(tls), ..self }),
    {
        Self { tls: Some(tls), ..self }
    }

    pub fn with_listener(self, listener: &str) -> (meta: Self)
        ensures
            meta.listener@ == listener@,
            meta == (NacelleConnectionMeta { listener: meta.listener, ..self }),
    {
        Self { listener: listener.to_owned(), ..self }
    }

    /// The TLS implementation of the connection, or `none`.
    pub fn tls_label(&self) -> (label: &'static str)
        ensures
            label == match self.tls {
                Some(tls) => tls.provider,
                None => "none",
            },
    {
        match &self.tls {
            Some(tls) => tls.provider,
            None => "none",
        }
    }

    pub fn with_connection_id(self, connection_id: u64) -> (meta: Self)
        ensures
            meta == (NacelleConnectionMeta { connection_id, ..self }),
    {
        Self { connection_id, ..self }
    }
}

/// The id behind one is the next higher, and zero behind the highest.
pub proof fn law_ids_count_up(id: nat)
    ensures
        id < u64::MAX ==> following_id(id) == id + 1,
        id == u64::MAX ==> following_id(id) == 0,
{
}

/// A connection from an address has its IP, and one without an address has none.
pub proof fn law_connections_have_the_ip_of_their_peer(
    meta: NacelleConnectionMeta,
    ids: nat,
    transport: Seq<char>,
    peer_addr: Option<SocketAddr>,
    local_addr: Option<SocketAddr>,
)
    requires
        meta.is_new(ids, transport, peer_addr, ip_of(peer_addr), local_addr, None),
    ensures
        meta.connection_id == ids,
        meta.transport@ == transport,
        meta.peer_addr == peer_addr,
        peer_addr matches Some(addr) ==> meta.peer_ip == Some(addr.ip),
        peer_addr is None ==> meta.peer_ip is None,
        meta.local_addr == local_addr,
        meta.tls is None,
{
}

} // verus!
