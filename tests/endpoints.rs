use wg2nekoray::endpoint::{parse_endpoint, ParsedEndpoint, RejectReason};
use wg2nekoray::host::{HostKind, HostMatchers};

fn parse(token: &str) -> Result<ParsedEndpoint, RejectReason> {
    let m = HostMatchers::new().unwrap();
    parse_endpoint(token, &m)
}

fn ok(token: &str) -> (String, HostKind, u16) {
    let e = parse(token).unwrap();
    (e.host, e.kind, e.port)
}

#[test]
fn ipv4_with_port() {
    assert_eq!(ok("162.159.192.1:2408"), ("162.159.192.1".to_string(), HostKind::IPv4, 2408));
}

#[test]
fn bracketed_ipv6_with_port() {
    assert_eq!(ok("[2606:4700:d0::1]:2408"), ("2606:4700:d0::1".to_string(), HostKind::IPv6, 2408));
}

#[test]
fn domain_with_port() {
    assert_eq!(ok("example.com:443"), ("example.com".to_string(), HostKind::Domain, 443));
}

#[test]
fn whitespace_separated_pair() {
    assert_eq!(ok("162.159.192.1 2408"), ok("162.159.192.1:2408"));
    assert_eq!(ok("  162.159.192.1 \t 2408  "), ("162.159.192.1".to_string(), HostKind::IPv4, 2408));
}

#[test]
fn bad_host_and_out_of_range_port_never_parse() {
    assert!(parse("not_an_ip:99999").is_err());
    assert_eq!(parse("not_an_ip:99999").err(), Some(RejectReason::InvalidHost));
}

#[test]
fn port_out_of_range() {
    assert_eq!(parse("1.2.3.4:65536").err(), Some(RejectReason::InvalidPort));
    assert_eq!(parse("1.2.3.4:-1").err(), Some(RejectReason::InvalidPort));
    assert_eq!(parse("1.2.3.4:").err(), Some(RejectReason::InvalidPort));
    assert_eq!(ok("1.2.3.4:65535").2, 65535);
    assert_eq!(ok("1.2.3.4:0").2, 0);
}

#[test]
fn unrecognized_forms() {
    assert_eq!(parse("badtoken").err(), Some(RejectReason::UnrecognizedFormat));
    assert_eq!(parse("").err(), Some(RejectReason::UnrecognizedFormat));
    assert_eq!(parse("a.b c d").err(), Some(RejectReason::UnrecognizedFormat));
    assert_eq!(parse("[::1]").err(), Some(RejectReason::UnrecognizedFormat));
    assert_eq!(parse("[::1:80").err(), Some(RejectReason::UnrecognizedFormat));
}

#[test]
fn unbracketed_ipv6_is_refused() {
    assert!(parse("2606:4700:d0::1:2408").is_err());
}

#[test]
fn ipv4_with_leading_zero_is_invalid_host() {
    assert_eq!(parse("010.1.1.1:80").err(), Some(RejectReason::InvalidHost));
    assert_eq!(ok("10.0.0.0:80").1, HostKind::IPv4);
}

#[test]
fn out_of_range_octets_read_as_domain() {
    assert_eq!(ok("999.1.1.1:80").1, HostKind::Domain);
}

#[test]
fn ipv6_shapes() {
    assert_eq!(ok("[::]:1").1, HostKind::IPv6);
    assert_eq!(ok("[::1]:51820").1, HostKind::IPv6);
    assert_eq!(ok("[1:2:3:4:5:6:7:8]:1").1, HostKind::IPv6);
    assert_eq!(ok("[1:2:3:4:5:6:7::]:1").1, HostKind::IPv6);
    assert_eq!(parse("[1::2::3]:1").err(), Some(RejectReason::InvalidHost));
    assert_eq!(parse("[12345::1]:1").err(), Some(RejectReason::InvalidHost));
    assert_eq!(parse("[1:2:3:4:5:6:7:8:9]:1").err(), Some(RejectReason::InvalidHost));
}

#[test]
fn domain_needs_a_dot() {
    assert_eq!(parse("localhost:80").err(), Some(RejectReason::InvalidHost));
    assert_eq!(ok("a-b.c-d.e:80"), ("a-b.c-d.e".to_string(), HostKind::Domain, 80));
    assert_eq!(parse("a..b:80").err(), Some(RejectReason::InvalidHost));
}

#[test]
fn port_with_plus_and_leading_zeros() {
    assert_eq!(ok("1.1.1.1:+0080").2, 80);
}
