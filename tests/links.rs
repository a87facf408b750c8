use base64::Engine;
use wg2nekoray::batch::{generate_nekoray_node, ItemOutcome};
use wg2nekoray::endpoint::{parse_endpoint, RejectReason};
use wg2nekoray::host::HostMatchers;
use wg2nekoray::link::{display_name, payload, render_link, update_base_info, BaseInfo};

const ONE_ADDRESS: &str = "PrivateKey = PRIV\nPublicKey = PUB\nAddress = 172.16.0.2/32\nMTU = 1280\n";

fn base(text: &str, mtu: Option<&str>) -> BaseInfo {
    update_base_info(text, mtu).unwrap()
}

fn decode(uri: &str) -> String {
    let b64 = uri.strip_prefix("nekoray://custom#").unwrap();
    String::from_utf8(base64::engine::general_purpose::STANDARD.decode(b64).unwrap()).unwrap()
}

#[test]
fn single_address_payload_matches_template() {
    let b = base(ONE_ADDRESS, None);
    let m = HostMatchers::new().unwrap();
    let e = parse_endpoint("162.159.192.1:2408", &m).unwrap();
    let expected = r#"{"_v":0,"addr":"127.0.0.1","cmd":[""],"core":"internal","cs":"{\n  \"interface_name\": \"WARP\",\n  \"local_address\": \"172.16.0.2/32\",\n  \"mtu\": 1280,\n  \"peer_public_key\": \"PUB\",\n  \"private_key\": \"PRIV\",\n  \"server\": \"162.159.192.1\",\n  \"server_port\": 2408,\n  \"system_interface\": false,\n  \"tag\": \"proxy\",\n  \"type\": \"wireguard\"\n}","mapping_port":0,"name":"162.159.192.1:2408","port":1080,"socks_port":0}"#;
    assert_eq!(payload(&b.config, b.mtu, &e, ""), expected);
}

#[test]
fn several_addresses_render_as_array_in_order() {
    let text = "PrivateKey=PRIV\nPublicKey=PUB\nAddress=172.16.0.2/32,2606:4700:110:8a36::1/128\nAddress=10.0.0.2/32\n";
    let b = base(text, Some("1420"));
    let m = HostMatchers::new().unwrap();
    let e = parse_endpoint("[2606:4700:d0::1]:2408", &m).unwrap();
    let expected = r#"{"_v":0,"addr":"127.0.0.1","cmd":[""],"core":"internal","cs":"{\n  \"interface_name\": \"WARP\",\n  \"local_address\": [\n    \"172.16.0.2/32\",\n    \"2606:4700:110:8a36::1/128\",\n    \"10.0.0.2/32\"\n  ],\n  \"mtu\": 1420,\n  \"peer_public_key\": \"PUB\",\n  \"private_key\": \"PRIV\",\n  \"server\": \"2606:4700:d0::1\",\n  \"server_port\": 2408,\n  \"system_interface\": false,\n  \"tag\": \"proxy\",\n  \"type\": \"wireguard\"\n}","mapping_port":0,"name":"CN_[2606:4700:d0::1]:2408","port":1080,"socks_port":0}"#;
    assert_eq!(payload(&b.config, b.mtu, &e, "CN"), expected);
}

#[test]
fn special_characters_are_escaped() {
    let text = "PrivateKey=a\"b\\c\u{1}\nPublicKey=p\nAddress=x\n";
    let b = base(text, None);
    let m = HostMatchers::new().unwrap();
    let e = parse_endpoint("example.com:1", &m).unwrap();
    let p = payload(&b.config, b.mtu, &e, "q\"");
    assert!(p.contains(r#"\"private_key\": \"a\\\"b\\\\c\\u0001\""#));
    assert!(p.contains(r#""name":"q\"_example.com:1""#));
    assert!(p.contains(r#"\"mtu\": 1408"#));
}

#[test]
fn display_name_of_ipv6_with_and_without_prefix() {
    let m = HostMatchers::new().unwrap();
    let e = parse_endpoint("[2606:4700:d0::1]:2408", &m).unwrap();
    assert_eq!(display_name(&e, "CN"), "CN_[2606:4700:d0::1]:2408");
    assert_eq!(display_name(&e, ""), "[2606:4700:d0::1]:2408");
    let v4 = parse_endpoint("162.159.192.1 2408", &m).unwrap();
    assert_eq!(display_name(&v4, "US"), "US_162.159.192.1:2408");
}

#[test]
fn link_is_scheme_and_base64_of_payload() {
    let b = base(ONE_ADDRESS, Some("1500"));
    let m = HostMatchers::new().unwrap();
    let e = parse_endpoint("example.com:443", &m).unwrap();
    let rec = render_link(&b.config, b.mtu, &e, "");
    assert!(rec.uri.starts_with("nekoray://custom#"));
    assert!(!rec.uri.contains('\n'));
    let body = payload(&b.config, b.mtu, &e, "");
    assert_ne!(rec.uri, format!("nekoray://custom#{}", body));
    assert_eq!(decode(&rec.uri), body);
    assert_eq!(rec.display_name, "example.com:443");
}

#[test]
fn known_base64_of_short_payload() {
    let b = base(ONE_ADDRESS, None);
    let m = HostMatchers::new().unwrap();
    let e = parse_endpoint("1.1.1.1:1", &m).unwrap();
    let rec = render_link(&b.config, b.mtu, &e, "");
    assert!(rec.uri.starts_with("nekoray://custom#eyJfdiI6MCwiYWRkciI6IjEyNy4wLjAuMSIs"));
}

#[test]
fn batch_skips_bad_tokens_and_keeps_order() {
    let b = base(ONE_ADDRESS, None);
    let m = HostMatchers::new().unwrap();
    let tokens = vec![
        "good.example:1".to_string(),
        "badtoken".to_string(),
        "good2.example:2".to_string(),
    ];
    let r = generate_nekoray_node(&tokens, "", &b, &m);
    assert_eq!(r.links.len(), 2);
    assert_eq!(r.links[0].display_name, "good.example:1");
    assert_eq!(r.links[1].display_name, "good2.example:2");
    assert_eq!(r.outcomes.len(), 3);
    assert!(matches!(&r.outcomes[0], ItemOutcome::Generated(n) if n == "good.example:1"));
    assert!(matches!(&r.outcomes[1], ItemOutcome::Skipped(RejectReason::UnrecognizedFormat)));
    assert!(matches!(&r.outcomes[2], ItemOutcome::Generated(n) if n == "good2.example:2"));
}

#[test]
fn batch_of_nothing_is_empty() {
    let b = base(ONE_ADDRESS, None);
    let m = HostMatchers::new().unwrap();
    let r = generate_nekoray_node(&Vec::new(), "CN", &b, &m);
    assert!(r.links.is_empty());
    assert!(r.outcomes.is_empty());
}

#[test]
fn base_info_resolves_mtu() {
    assert_eq!(base(ONE_ADDRESS, None).mtu, 1280);
    assert_eq!(base(ONE_ADDRESS, Some("1501")).mtu, 1280);
    assert_eq!(base("PrivateKey=a\nPublicKey=b\nAddress=c", None).mtu, 1408);
    assert!(update_base_info("PublicKey=b\nAddress=c", None).is_err());
}

fn json_of(text: &str) -> serde_json::Value {
    serde_json::from_str(text).unwrap()
}

#[test]
fn decoded_payload_and_nested_document_are_json() {
    let text = "PrivateKey=k\"ey\\\nPublicKey=p\u{7}k\nAddress=a,b\nAddress=c\n";
    let b = base(text, None);
    let m = HostMatchers::new().unwrap();
    let e = parse_endpoint("[2606:4700:d0::1]:2408", &m).unwrap();
    let rec = render_link(&b.config, b.mtu, &e, "N\"x");
    let outer = json_of(&decode(&rec.uri));
    assert_eq!(outer["name"].as_str(), Some("N\"x_[2606:4700:d0::1]:2408"));
    assert_eq!(outer["port"].as_u64(), Some(1080));
    assert_eq!(outer["core"].as_str(), Some("internal"));
    let inner = json_of(outer["cs"].as_str().unwrap());
    assert_eq!(inner["private_key"].as_str(), Some("k\"ey\\"));
    assert_eq!(inner["peer_public_key"].as_str(), Some("p\u{7}k"));
    assert_eq!(inner["server"].as_str(), Some("2606:4700:d0::1"));
    assert_eq!(inner["server_port"].as_u64(), Some(2408));
    assert_eq!(inner["mtu"].as_u64(), Some(1408));
    assert_eq!(inner["system_interface"].as_bool(), Some(false));
    let addrs: Vec<&str> = inner["local_address"]
        .as_array()
        .unwrap()
        .iter()
        .map(|v| v.as_str().unwrap())
        .collect();
    assert_eq!(addrs, vec!["a", "b", "c"]);
}

#[test]
fn nested_document_is_pretty_printed_like_serde_json() {
    let b = base(ONE_ADDRESS, None);
    let m = HostMatchers::new().unwrap();
    let e = parse_endpoint("example.com:443", &m).unwrap();
    let outer = json_of(&payload(&b.config, b.mtu, &e, ""));
    let cs = outer["cs"].as_str().unwrap().to_string();
    let reprinted = serde_json::to_string_pretty(&json_of(&cs)).unwrap();
    assert_eq!(cs, reprinted);
    assert_eq!(serde_json::to_string(&outer).unwrap(), payload(&b.config, b.mtu, &e, ""));
}
