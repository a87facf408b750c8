use wg2nekoray::config::{read_wireguard_key_parameters, ConfigError, RequiredField};
use wg2nekoray::mtu::{parse_mtu, resolve_mtu, DEFAULT_MTU};

const SAMPLE: &str = "[Interface]\nPrivateKey = cPriv+Key/abc=\nAddress = 172.16.0.2/32\nDNS = 1.1.1.1\nMTU = 1280\n\n[Peer]\nPublicKey = bPub+Key/xyz=\nAllowedIPs = 0.0.0.0/0\nEndpoint = engage.cloudflareclient.com:2408\n";

#[test]
fn extracts_keys_address_and_mtu() {
    let c = read_wireguard_key_parameters(SAMPLE).unwrap();
    assert_eq!(c.private_key, "cPriv+Key/abc=");
    assert_eq!(c.public_key, "bPub+Key/xyz=");
    assert_eq!(c.addresses, vec!["172.16.0.2/32".to_string()]);
    assert_eq!(c.mtu, Some("1280".to_string()));
}

#[test]
fn addresses_accumulate_over_lines_and_commas() {
    let text = "PrivateKey=a\nPublicKey=b\nAddress = 172.16.0.2/32, 2606:4700:110::1/128\r\nAddress=10.0.0.1/8\n";
    let c = read_wireguard_key_parameters(text).unwrap();
    assert_eq!(
        c.addresses,
        vec![
            "172.16.0.2/32".to_string(),
            "2606:4700:110::1/128".to_string(),
            "10.0.0.1/8".to_string()
        ]
    );
    assert_eq!(c.mtu, None);
}

#[test]
fn all_whitespace_is_stripped_from_values() {
    let text = "PrivateKey =\tab cd \nPublicKey= x\u{a0}y\nAddress=1.2.3.4/32";
    let c = read_wireguard_key_parameters(text).unwrap();
    assert_eq!(c.private_key, "abcd");
    assert_eq!(c.public_key, "xy");
    assert_eq!(c.addresses, vec!["1.2.3.4/32".to_string()]);
}

#[test]
fn later_key_line_replaces_earlier() {
    let text = "PrivateKey=first\nPrivateKey=second\nPublicKey=p\nAddress=a";
    let c = read_wireguard_key_parameters(text).unwrap();
    assert_eq!(c.private_key, "second");
}

#[test]
fn keys_are_case_sensitive_and_indented_lines_ignored() {
    let text = "privatekey=a\n PrivateKey=b\nPublicKey=p\nAddress=x";
    assert_eq!(
        read_wireguard_key_parameters(text).err(),
        Some(ConfigError::MissingRequiredField(RequiredField::PrivateKey))
    );
}

#[test]
fn missing_private_key_is_an_error() {
    let text = "PublicKey=p\nAddress=x";
    assert_eq!(
        read_wireguard_key_parameters(text).err(),
        Some(ConfigError::MissingRequiredField(RequiredField::PrivateKey))
    );
}

#[test]
fn empty_public_key_is_an_error() {
    let text = "PrivateKey=k\nPublicKey =  \nAddress=x";
    assert_eq!(
        read_wireguard_key_parameters(text).err(),
        Some(ConfigError::MissingRequiredField(RequiredField::PublicKey))
    );
}

#[test]
fn missing_address_is_an_error() {
    let text = "PrivateKey=k\nPublicKey=p\n";
    assert_eq!(
        read_wireguard_key_parameters(text).err(),
        Some(ConfigError::MissingRequiredField(RequiredField::Address))
    );
}

#[test]
fn empty_text_lacks_private_key() {
    assert_eq!(
        read_wireguard_key_parameters("").err(),
        Some(ConfigError::MissingRequiredField(RequiredField::PrivateKey))
    );
}

#[test]
fn mtu_override_bounds() {
    assert_eq!(parse_mtu("1279"), None);
    assert_eq!(parse_mtu("1501"), None);
    assert_eq!(parse_mtu("1280"), Some(1280));
    assert_eq!(parse_mtu("1500"), Some(1500));
    assert_eq!(parse_mtu("+1400"), Some(1400));
    assert_eq!(parse_mtu("-1400"), None);
    assert_eq!(parse_mtu("14a0"), None);
    assert_eq!(parse_mtu(""), None);
    assert_eq!(parse_mtu("99999999999"), None);
}

#[test]
fn mtu_resolution_order() {
    assert_eq!(resolve_mtu(Some("1500"), Some("1300")), 1500);
    assert_eq!(resolve_mtu(Some("1280"), None), 1280);
    assert_eq!(resolve_mtu(Some("1279"), Some("1300")), 1300);
    assert_eq!(resolve_mtu(Some("1501"), None), 1408);
    assert_eq!(resolve_mtu(None, Some("1420")), 1420);
    assert_eq!(resolve_mtu(None, Some("9000")), 1408);
    assert_eq!(resolve_mtu(None, None), 1408);
    assert_eq!(DEFAULT_MTU, 1408);
}
