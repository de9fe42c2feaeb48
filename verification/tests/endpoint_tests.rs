use ook_bridge::endpoint::{connection_url, parse_port, resolve_host, resolve_port, Endpoint};

#[test]
fn parse_port_reads_plain_decimal() {
    assert_eq!(parse_port("8647"), Some(8647));
    assert_eq!(parse_port("0"), Some(0));
    assert_eq!(parse_port("65535"), Some(65535));
}

#[test]
fn parse_port_accepts_leading_plus() {
    assert_eq!(parse_port("+80"), Some(80));
}

#[test]
fn parse_port_rejects_empty_and_sign_only() {
    assert_eq!(parse_port(""), None);
    assert_eq!(parse_port("+"), None);
}

#[test]
fn parse_port_rejects_non_digits() {
    assert_eq!(parse_port("8o80"), None);
    assert_eq!(parse_port("-1"), None);
    assert_eq!(parse_port(" 80"), None);
    assert_eq!(parse_port("80 "), None);
}

#[test]
fn parse_port_rejects_values_over_sixteen_bits() {
    assert_eq!(parse_port("65536"), None);
    assert_eq!(parse_port("99999999999999999999"), None);
}

#[test]
fn resolve_port_takes_valid_override() {
    assert_eq!(resolve_port(Some(String::from("9001"))), 9001);
}

#[test]
fn resolve_port_falls_back_to_default() {
    assert_eq!(resolve_port(None), 8647);
    assert_eq!(resolve_port(Some(String::from("not-a-port"))), 8647);
}

#[test]
fn resolve_host_override_wins() {
    let r = resolve_host(Some(String::from("bridge.example")), Some(String::from("mybox")));
    assert_eq!(r, "bridge.example");
}

#[test]
fn resolve_host_derives_from_machine_name() {
    assert_eq!(resolve_host(None, Some(String::from("mybox"))), "lima-mybox-sandbox");
}

#[test]
fn resolve_host_falls_back_without_machine_name() {
    assert_eq!(resolve_host(None, None), "lima-localhost-sandbox");
}

#[test]
fn connection_url_splices_host_and_port() {
    let ep = Endpoint { host: String::from("bridge.example"), port: 8647 };
    assert_eq!(connection_url(&ep), "ws://bridge.example:8647");
}

#[test]
fn connection_url_smallest_and_largest_port() {
    let low = Endpoint { host: String::from("h"), port: 0 };
    assert_eq!(connection_url(&low), "ws://h:0");
    let high = Endpoint { host: String::from("h"), port: 65535 };
    assert_eq!(connection_url(&high), "ws://h:65535");
}
