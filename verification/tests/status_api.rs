use horto_os_ui_shared::status_api::{
    auth_allows, bearer_authorized, is_local_desktop_origin, is_local_network_ip, listen_url,
    PeerIp,
};

#[test]
fn listen_url_loopback_and_lan() {
    let loopback = PeerIp::V4([127, 0, 0, 1]);
    assert_eq!(listen_url(loopback, 8787, "127.0.0.1:8787"), "http://localhost:8787");
    let any = PeerIp::V4([0, 0, 0, 0]);
    assert_eq!(
        listen_url(any, 8787, "0.0.0.0:8787"),
        "http://0.0.0.0:8787 (all interfaces)"
    );
    let lan = PeerIp::V4([192, 168, 1, 10]);
    assert_eq!(
        listen_url(lan, 8787, "192.168.1.10:8787"),
        "http://192.168.1.10:8787"
    );
}

#[test]
fn bearer_auth_helper() {
    assert!(bearer_authorized("sec", Some("Bearer sec")));
    assert!(!bearer_authorized("sec", Some("Bearer other")));
    assert!(!bearer_authorized("sec", Some("Basic sec")));
    assert!(!bearer_authorized("sec", None));
}

#[test]
fn local_origin_allowlist() {
    assert!(is_local_desktop_origin("http://tauri.localhost"));
    assert!(is_local_desktop_origin("http://localhost:4187"));
    assert!(!is_local_desktop_origin("https://evil.example"));
}

fn v6(head: [u8; 2], tail: [u8; 2]) -> PeerIp {
    let mut o = [0u8; 16];
    o[0] = head[0];
    o[1] = head[1];
    o[14] = tail[0];
    o[15] = tail[1];
    PeerIp::V6(o)
}

#[test]
fn local_network_ip_allowlist() {
    assert!(is_local_network_ip(PeerIp::V4([127, 0, 0, 1])));
    assert!(is_local_network_ip(PeerIp::V4([192, 168, 1, 50])));
    assert!(is_local_network_ip(PeerIp::V4([10, 0, 0, 2])));
    assert!(is_local_network_ip(PeerIp::V4([172, 16, 5, 1])));
    assert!(is_local_network_ip(PeerIp::V4([169, 254, 1, 1])));
    assert!(!is_local_network_ip(PeerIp::V4([8, 8, 8, 8])));
    assert!(!is_local_network_ip(PeerIp::V4([1, 1, 1, 1])));

    assert!(is_local_network_ip(v6([0, 0], [0, 1])));
    let ula = PeerIp::V6([0xfd, 0x12, 0x34, 0x56, 0x78, 0x9a, 0, 0, 0, 0, 0, 0, 0, 0, 0, 1]);
    assert!(is_local_network_ip(ula));
    assert!(is_local_network_ip(v6([0xfe, 0x80], [0, 1])));
    let global = PeerIp::V6([0x20, 0x01, 0x0d, 0xb8, 0, 0, 0, 0, 0, 0, 0, 0, 0, 0, 0, 1]);
    assert!(!is_local_network_ip(global));

    let mapped_private =
        PeerIp::V6([0, 0, 0, 0, 0, 0, 0, 0, 0, 0, 0xff, 0xff, 192, 168, 0, 1]);
    assert!(is_local_network_ip(mapped_private));
    let mapped_public = PeerIp::V6([0, 0, 0, 0, 0, 0, 0, 0, 0, 0, 0xff, 0xff, 8, 8, 8, 8]);
    assert!(!is_local_network_ip(mapped_public));
}

#[test]
fn health_is_open_and_other_paths_need_the_token() {
    assert!(auth_allows("/health", Some("sec"), None));
    assert!(!auth_allows("/v1/status", Some("sec"), None));
    assert!(auth_allows("/v1/status", Some("sec"), Some("Bearer sec")));
    assert!(auth_allows("/v1/status", None, None));
}

#[test]
fn ipv6_unspecified_and_loopback_listen_urls() {
    assert_eq!(
        listen_url(v6([0, 0], [0, 0]), 9000, "[::]:9000"),
        "http://0.0.0.0:9000 (all interfaces)"
    );
    assert_eq!(listen_url(v6([0, 0], [0, 1]), 9000, "[::1]:9000"), "http://localhost:9000");
}
