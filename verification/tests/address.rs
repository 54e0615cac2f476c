use gossip_node::address::{
    format_ipv4, format_ipv6, lookup_target, resolve_ipv4, resolve_ipv6, IpAddress,
};
use libp2p::Multiaddr;

/// The text that libp2p gives an address with these bytes, under this code.
fn multiaddr_text(code: u8, address: &[u8]) -> String {
    let mut bytes = vec![code];
    bytes.extend_from_slice(address);
    Multiaddr::try_from(bytes).unwrap().to_string()
}

fn v4(octets: [u8; 4]) -> IpAddress {
    IpAddress::V4 { octets }
}

fn v6(segments: [u16; 8]) -> IpAddress {
    IpAddress::V6 { segments }
}

#[test]
fn lookup_target_has_port_zero() {
    assert_eq!(lookup_target("bootstrap"), "bootstrap:0");
    assert_eq!(lookup_target(""), ":0");
}

#[test]
fn ipv4_is_dotted_decimal() {
    assert_eq!(format_ipv4(&[0, 0, 0, 0]), "0.0.0.0");
    assert_eq!(format_ipv4(&[127, 0, 0, 1]), "127.0.0.1");
    assert_eq!(format_ipv4(&[10, 9, 100, 99]), "10.9.100.99");
    assert_eq!(format_ipv4(&[255, 255, 255, 255]), "255.255.255.255");
}

#[test]
fn ipv4_texts_differ() {
    assert_ne!(format_ipv4(&[1, 11, 0, 0]), format_ipv4(&[11, 1, 0, 0]));
}

#[test]
fn ipv6_without_zeros_is_written_out() {
    assert_eq!(
        format_ipv6(&[0x2001, 0xdb8, 1, 2, 3, 4, 5, 0xffff]),
        "2001:db8:1:2:3:4:5:ffff"
    );
    assert_eq!(
        format_ipv6(&[0xabc, 0x10, 0xf, 9, 0xa, 0x1000, 0xbeef, 0xcafe]),
        "abc:10:f:9:a:1000:beef:cafe"
    );
}

#[test]
fn ipv6_zero_run_is_compressed() {
    assert_eq!(format_ipv6(&[0, 0, 0, 0, 0, 0, 0, 0]), "::");
    assert_eq!(format_ipv6(&[0, 0, 0, 0, 0, 0, 0, 1]), "::1");
    assert_eq!(format_ipv6(&[1, 0, 0, 0, 0, 0, 0, 0]), "1::");
    assert_eq!(format_ipv6(&[0x2001, 0xdb8, 0, 0, 0, 0, 0, 1]), "2001:db8::1");
    assert_eq!(format_ipv6(&[0xfe80, 0, 0, 0, 1, 2, 3, 4]), "fe80::1:2:3:4");
}

#[test]
fn ipv6_longest_run_wins() {
    assert_eq!(format_ipv6(&[1, 0, 0, 4, 0, 0, 0, 8]), "1:0:0:4::8");
    assert_eq!(format_ipv6(&[0, 0, 0, 4, 5, 0, 0, 8]), "::4:5:0:0:8");
}

#[test]
fn ipv6_first_of_equal_runs_wins() {
    assert_eq!(format_ipv6(&[0x2001, 0xdb8, 0, 0, 1, 0, 0, 1]), "2001:db8::1:0:0:1");
}

#[test]
fn ipv6_single_zero_stays() {
    assert_eq!(format_ipv6(&[1, 0, 3, 4, 5, 6, 7, 8]), "1:0:3:4:5:6:7:8");
    assert_eq!(format_ipv6(&[0, 2, 3, 4, 5, 6, 7, 0]), "0:2:3:4:5:6:7:0");
}

#[test]
fn ipv6_mapped_ends_in_ipv4() {
    assert_eq!(
        format_ipv6(&[0, 0, 0, 0, 0, 0xffff, 0xc00a, 0x02ff]),
        "::ffff:192.10.2.255"
    );
    assert_eq!(format_ipv6(&[0, 0, 0, 0, 0, 0, 0xc00a, 0x02ff]), "::c00a:2ff");
    assert_eq!(format_ipv6(&[0, 0, 0, 0, 1, 0xffff, 0xc00a, 0x02ff]), "::1:ffff:c00a:2ff");
}

#[test]
fn first_ipv4_is_chosen() {
    let found = vec![v6([0, 0, 0, 0, 0, 0, 0, 1]), v4([172, 18, 0, 2]), v4([10, 0, 0, 1])];
    assert_eq!(resolve_ipv4(Ok(found)).unwrap(), "172.18.0.2");
}

#[test]
fn first_ipv6_is_chosen() {
    let found = vec![
        v4([172, 18, 0, 2]),
        v6([0xfd00, 0, 0, 0, 0, 0, 0, 2]),
        v6([0, 0, 0, 0, 0, 0, 0, 1]),
    ];
    assert_eq!(resolve_ipv6(Ok(found)).unwrap(), "fd00::2");
}

#[test]
fn no_address_of_the_family() {
    let found = vec![v6([0, 0, 0, 0, 0, 0, 0, 1])];
    assert_eq!(resolve_ipv4(Ok(found)).unwrap_err().message(), "no IPv4 addresses found");
    let found = vec![v4([127, 0, 0, 1])];
    assert_eq!(resolve_ipv6(Ok(found)).unwrap_err().message(), "no IPv6 addresses found");
    assert!(resolve_ipv4(Ok(Vec::new())).is_err());
    assert!(resolve_ipv6(Ok(Vec::new())).is_err());
}

#[test]
fn failed_lookup_is_passed_on() {
    let reason = "failed to lookup address information".to_string();
    assert_eq!(resolve_ipv4(Err(reason.clone())).unwrap_err().message(), reason);
    assert_eq!(resolve_ipv6(Err(reason.clone())).unwrap_err().message(), reason);
}

#[test]
fn ipv4_texts_agree_with_libp2p() {
    for n in 0..=255u8 {
        let octets = [n, 255 - n, n / 2, n % 100];
        assert_eq!(format!("/ip4/{}", format_ipv4(&octets)), multiaddr_text(4, &octets));
    }
}

#[test]
fn ipv6_texts_agree_with_libp2p() {
    for pattern in 0..256u32 {
        for value in [1u16, 0x0a, 0x100, 0xffff] {
            let mut segments = [0u16; 8];
            let mut bytes = Vec::new();
            for i in 0..8 {
                if pattern & (1 << i) != 0 {
                    segments[i] = value;
                }
                bytes.extend_from_slice(&segments[i].to_be_bytes());
            }
            assert_eq!(format!("/ip6/{}", format_ipv6(&segments)), multiaddr_text(41, &bytes));
        }
    }
}

#[test]
fn resolving_again_gives_the_address_back() {
    let octets = [172, 18, 0, 2];
    let text = resolve_ipv4(Ok(vec![v6([0, 0, 0, 0, 0, 0, 0, 1]), v4(octets)])).unwrap();
    assert_eq!(text, format_ipv4(&octets));
    assert_eq!(resolve_ipv4(Ok(vec![v4(octets)])).unwrap(), text);
}
