use streamfwd::endpoint::Destination;
use streamfwd::resolver::{
    find_dest, parse_target, parse_to_socket_addr, select_source, Lookup, ResolutionError, Target,
};

fn v4(a: u8, b: u8, c: u8, d: u8, port: u16) -> Destination {
    Destination::V4 { octets: [a, b, c, d], port }
}

fn v6(segments: [u16; 8], port: u16) -> Destination {
    Destination::V6 { segments, port, flowinfo: 0, scope_id: 0 }
}

#[test]
fn test_valid_hostname_and_port() {
    let addr_str = "example.com:80";
    let lookup = Lookup::Found(vec![v4(93, 184, 216, 34, 80)]);
    assert!(parse_to_socket_addr(addr_str, &lookup).is_ok());
}

#[test]
fn test_invalid_hostname() {
    let addr_str = "invalid_hostname:80";
    assert!(parse_to_socket_addr(addr_str, &Lookup::Failed).is_err());
}

#[test]
fn test_invalid_port() {
    let addr_str = "example.com:99999";
    let lookup = Lookup::Found(vec![v4(93, 184, 216, 34, 0)]);
    assert!(parse_to_socket_addr(addr_str, &lookup).is_err());
}

#[test]
fn test_missing_port() {
    let addr_str = "example.com";
    let lookup = Lookup::Found(vec![v4(93, 184, 216, 34, 0)]);
    assert!(parse_to_socket_addr(addr_str, &lookup).is_err());
}

#[test]
fn test_empty_string() {
    let addr_str = "";
    let lookup = Lookup::Found(vec![v4(93, 184, 216, 34, 0)]);
    assert!(parse_to_socket_addr(addr_str, &lookup).is_err());
}

#[test]
fn test_valid_ip_and_port() {
    let addr_str = "93.184.216.34:80"; // example.com IP
    assert!(parse_to_socket_addr(addr_str, &Lookup::Failed).is_ok());
}

#[test]
fn test_ipv6_address_and_port() {
    let addr_str = "[2606:2800:220:1:248:1893:25c8:1946]:80"; // example.com IPv6
    assert!(parse_to_socket_addr(addr_str, &Lookup::Failed).is_ok());
}

#[test]
fn literal_address_resolves_to_itself_whatever_the_lookup() {
    let other = Lookup::Found(vec![v4(1, 1, 1, 1, 1)]);
    assert_eq!(parse_to_socket_addr("93.184.216.34:80", &other), Ok(v4(93, 184, 216, 34, 80)));
    assert_eq!(
        parse_to_socket_addr("[2606:2800:220:1:248:1893:25c8:1946]:80", &other),
        Ok(v6([0x2606, 0x2800, 0x220, 0x1, 0x248, 0x1893, 0x25c8, 0x1946], 80))
    );
}

#[test]
fn host_takes_first_candidate_with_the_port_of_the_text() {
    let lookup = Lookup::Found(vec![v4(93, 184, 216, 34, 0), v4(10, 0, 0, 1, 0)]);
    assert_eq!(parse_to_socket_addr("example.com:9999", &lookup), Ok(v4(93, 184, 216, 34, 9999)));
    let six = Destination::V6 { segments: [0xfe80, 0, 0, 0, 0, 0, 0, 1], port: 7, flowinfo: 3, scope_id: 2 };
    let lookup = Lookup::Found(vec![six, v4(10, 0, 0, 1, 0)]);
    assert_eq!(
        parse_to_socket_addr("printer.local:631", &lookup),
        Ok(Destination::V6 { segments: [0xfe80, 0, 0, 0, 0, 0, 0, 1], port: 631, flowinfo: 3, scope_id: 2 })
    );
}

#[test]
fn each_error_has_its_input() {
    let found = Lookup::Found(vec![v4(10, 0, 0, 1, 0)]);
    assert_eq!(parse_to_socket_addr("", &found), Err(ResolutionError::EmptyAddress));
    assert_eq!(parse_to_socket_addr("example.com", &found), Err(ResolutionError::MissingPort));
    assert_eq!(parse_to_socket_addr("example.com:", &found), Err(ResolutionError::InvalidPort));
    assert_eq!(parse_to_socket_addr("example.com:65536", &found), Err(ResolutionError::InvalidPort));
    assert_eq!(parse_to_socket_addr("example.com:-1", &found), Err(ResolutionError::InvalidPort));
    assert_eq!(parse_to_socket_addr("example.com:http", &found), Err(ResolutionError::InvalidPort));
    assert_eq!(parse_to_socket_addr("[::1]", &found), Err(ResolutionError::InvalidPort));
    assert_eq!(parse_to_socket_addr("example.com:80", &Lookup::Failed), Err(ResolutionError::LookupFailed));
    assert_eq!(
        parse_to_socket_addr("example.com:80", &Lookup::Found(Vec::new())),
        Err(ResolutionError::NoAddresses)
    );
}

#[test]
fn port_bounds() {
    let found = Lookup::Found(vec![v4(10, 0, 0, 1, 0)]);
    assert_eq!(parse_to_socket_addr("h:0", &found), Ok(v4(10, 0, 0, 1, 0)));
    assert_eq!(parse_to_socket_addr("h:65535", &found), Ok(v4(10, 0, 0, 1, 65535)));
    assert_eq!(parse_to_socket_addr("h:+443", &found), Ok(v4(10, 0, 0, 1, 443)));
    assert_eq!(parse_to_socket_addr("h:00080", &found), Ok(v4(10, 0, 0, 1, 80)));
    assert_eq!(parse_to_socket_addr("1.2.3.4:65535", &Lookup::Failed), Ok(v4(1, 2, 3, 4, 65535)));
    assert_eq!(parse_to_socket_addr("1.2.3.4:0080", &Lookup::Failed), Ok(v4(1, 2, 3, 4, 80)));
    assert_eq!(parse_to_socket_addr("1.2.3.4:65536", &Lookup::Failed), Err(ResolutionError::InvalidPort));
    assert_eq!(parse_to_socket_addr("1.2.3.4:4294967376", &Lookup::Failed), Err(ResolutionError::InvalidPort));
}

#[test]
fn target_names_the_host_to_look_up() {
    assert_eq!(
        parse_target("example.com:9999"),
        Ok(Target::Host { name: String::from("example.com"), port: 9999 })
    );
    assert_eq!(parse_target("::1:80"), Ok(Target::Host { name: String::from("::1"), port: 80 }));
    assert_eq!(parse_target(":80"), Ok(Target::Host { name: String::new(), port: 80 }));
    assert_eq!(
        parse_target("b\u{fc}cher.example:80"),
        Ok(Target::Host { name: String::from("b\u{fc}cher.example"), port: 80 })
    );
    assert_eq!(parse_target("1.2.3.4:+80"), Ok(Target::Host { name: String::from("1.2.3.4"), port: 80 }));
    assert_eq!(parse_target("256.1.1.1:80"), Ok(Target::Host { name: String::from("256.1.1.1"), port: 80 }));
    assert_eq!(parse_target("10.0.0.5:4444"), Ok(Target::Endpoint(v4(10, 0, 0, 5, 4444))));
}

#[test]
fn explicit_value_wins_over_environment() {
    assert_eq!(select_source(Some("a:1"), Some("b:2")), Some("a:1"));
    assert_eq!(select_source(None, Some("b:2")), Some("b:2"));
    assert_eq!(select_source(None, Some("")), None);
    assert_eq!(select_source(Some(""), Some("b:2")), Some(""));
    assert_eq!(select_source(None, None), None);
    let found = Lookup::Found(vec![v4(10, 0, 0, 1, 0)]);
    assert_eq!(find_dest(Some("1.2.3.4:1"), Some("5.6.7.8:2"), &found), Some(Ok(v4(1, 2, 3, 4, 1))));
    // a failing explicit value does not fall through to the environment
    assert_eq!(
        find_dest(Some("nonsense"), Some("5.6.7.8:2"), &found),
        Some(Err(ResolutionError::MissingPort))
    );
}

#[test]
fn environment_value_resolves_exactly() {
    assert_eq!(find_dest(None, Some("10.0.0.5:4444"), &Lookup::Failed), Some(Ok(v4(10, 0, 0, 5, 4444))));
}

#[test]
fn empty_configuration_value_is_an_error() {
    let found = Lookup::Found(vec![v4(10, 0, 0, 1, 0)]);
    let outcome = find_dest(Some(""), None, &found);
    assert_eq!(outcome, Some(Err(ResolutionError::EmptyAddress)));
    assert_eq!(ResolutionError::EmptyAddress.describe(""), "The address is empty: ");
}

#[test]
fn nothing_configured_is_no_error() {
    assert_eq!(find_dest(None, None, &Lookup::Failed), None);
    assert_eq!(find_dest(None, Some(""), &Lookup::Failed), None);
}

#[test]
fn errors_are_described_with_the_text() {
    assert_eq!(
        ResolutionError::LookupFailed.describe("nowhere.invalid:80"),
        "Could not resolve the address: nowhere.invalid:80"
    );
    assert_eq!(
        ResolutionError::NoAddresses.describe("example.com:80"),
        "No addresses found for example.com:80"
    );
    assert_eq!(
        ResolutionError::MissingPort.describe("example.com"),
        "The address names no port: example.com"
    );
    assert_eq!(
        ResolutionError::InvalidPort.describe("example.com:99999"),
        "The address names an invalid port: example.com:99999"
    );
}
