use std::path::PathBuf;

use nacelle::address::{IpAddr, SocketAddr};
use nacelle::connection::{ConnectionIds, NacelleConnectionMeta, NacelleConnectionTlsMeta};
use nacelle::pipeline::ConnectionInfo;

const PEER: SocketAddr = SocketAddr {
    ip: IpAddr::V4(0xc000_020a),
    port: 1234,
    flow_info: 0,
    scope_id: 0,
};
const LOCAL: SocketAddr = SocketAddr {
    ip: IpAddr::V4(0xc000_0214),
    port: 4321,
    flow_info: 0,
    scope_id: 0,
};

#[test]
fn unix_socket_connection_meta_sets_transport_and_path() {
    let path = PathBuf::from("/tmp/nacelle.sock");
    let meta = NacelleConnectionMeta::unix_socket(&mut ConnectionIds::default(), Some(path.clone()));

    assert_ne!(meta.connection_id, 0);
    assert_eq!(meta.transport.as_str(), "unix_socket");
    assert_eq!(meta.local_path, Some(path));
    assert_eq!(meta.peer_addr, None);
    assert_eq!(meta.peer_ip, None);
    assert_eq!(meta.local_addr, None);
}

#[test]
fn connection_meta_assigns_stable_unique_ids() {
    let mut ids = ConnectionIds::default();
    let first = NacelleConnectionMeta::tcp(&mut ids, None, None);
    let second = NacelleConnectionMeta::tcp(&mut ids, None, None);
    let first_clone = first.clone();

    assert_ne!(first.connection_id, 0);
    assert_ne!(first.connection_id, second.connection_id);
    assert_eq!(first.connection_id, first_clone.connection_id);
}

#[test]
fn tls_meta_records_cipher_strength() {
    let meta = NacelleConnectionTlsMeta::new("openssl")
        .with_protocol("TLSv1.3")
        .with_cipher_suite("TLS_AES_256_GCM_SHA384")
        .with_cipher_bits(256)
        .with_cipher_algorithm_bits(256);

    assert_eq!(meta.provider, "openssl");
    assert_eq!(meta.protocol.as_deref(), Some("TLSv1.3"));
    assert_eq!(meta.cipher_suite.as_deref(), Some("TLS_AES_256_GCM_SHA384"));
    assert_eq!(meta.cipher_bits, Some(256));
    assert_eq!(meta.cipher_algorithm_bits, Some(256));
}

#[test]
fn connection_info_conversion_preserves_metadata() {
    let metadata = NacelleConnectionMeta::tcp(&mut ConnectionIds::default(), Some(PEER), Some(LOCAL))
        .with_connection_id(42)
        .with_listener("test-listener")
        .with_tls(NacelleConnectionTlsMeta::new("test-tls").with_protocol("test-protocol"));
    let info = ConnectionInfo::from(&metadata);

    assert_eq!(info.connection_id, 42);
    assert_eq!(info.connection_id, metadata.connection_id);
    assert_eq!(info.transport.as_str(), metadata.transport.as_str());
    assert_eq!(info.listener, metadata.listener);
    assert_eq!(info.listener, "test-listener");
    assert_eq!(info.peer_addr, metadata.peer_addr);
    assert_eq!(info.peer_ip, metadata.peer_ip);
    assert_eq!(info.peer_ip, Some(PEER.ip));
    assert_eq!(info.local_addr, metadata.local_addr);
    assert_eq!(info.local_path, metadata.local_path);
    let tls = info.tls.expect("tls metadata");
    assert_eq!(tls.provider, "test-tls");
    assert_eq!(tls.protocol.as_deref(), Some("test-protocol"));
}

#[test]
fn ids_are_handed_out_in_order() {
    let mut ids = ConnectionIds::default();
    assert_eq!(ids.next_connection_id(), 1);
    assert_eq!(ids.next_connection_id(), 2);
    assert_eq!(NacelleConnectionMeta::http(&mut ids, None).connection_id, 3);
    assert_eq!(ids.next_connection_id(), 4);
}

#[test]
fn http_connections_know_their_peer() {
    let mut ids = ConnectionIds::default();
    let meta = NacelleConnectionMeta::http_socket(&mut ids, Some(PEER), Some(LOCAL));
    assert_eq!(meta.transport.as_str(), "http");
    assert_eq!(meta.peer_ip, Some(PEER.ip));
    assert_eq!(meta.tls_label(), "none");
    assert_eq!(
        meta.with_tls(NacelleConnectionTlsMeta::new("rustls").with_server_name("example.org"))
            .tls_label(),
        "rustls"
    );
    let by_ip = NacelleConnectionMeta::http(&mut ids, Some(PEER.ip));
    assert_eq!(by_ip.peer_ip, Some(PEER.ip));
    assert_eq!(by_ip.peer_addr, None);
}

#[test]
fn addresses_differ_in_their_scope() {
    let link_local = IpAddr::V6(0xfe80_0000_0000_0000_0000_0000_0000_0001);
    let plain = SocketAddr::new(link_local, 80);
    let scoped = SocketAddr {
        scope_id: 2,
        ..plain
    };
    assert_eq!((plain.flow_info, plain.scope_id), (0, 0));
    assert_ne!(plain, scoped);
    let connection =
        NacelleConnectionMeta::http_socket(&mut ConnectionIds::default(), Some(scoped), Some(plain));
    assert_eq!(connection.peer_addr, Some(scoped));
    assert_eq!(connection.local_addr, Some(plain));
    assert_eq!(connection.peer_ip, Some(link_local));
}
