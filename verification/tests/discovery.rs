use govee::address::{parse_device_addr, parse_ipv4_text, AddrError};
use govee::discovery::{accept_device, discover_device, resolve_ip, DeviceInfo, ResolveError};

fn device(ip: &str, sku: &str) -> DeviceInfo {
    DeviceInfo {
        ip: ip.to_string(),
        sku: sku.to_string(),
        device: String::new(),
        wifi_version: String::new(),
        ble_version: String::new(),
    }
}

#[test]
fn ipv4_text_follows_std_rules() {
    assert_eq!(parse_ipv4_text("192.168.0.1"), Some((192, 168, 0, 1)));
    assert_eq!(parse_ipv4_text("0.0.0.0"), Some((0, 0, 0, 0)));
    assert_eq!(parse_ipv4_text("256.1.1.1"), None);
    assert_eq!(parse_ipv4_text("01.1.1.1"), None);
    assert_eq!(parse_ipv4_text("1.1.1"), None);
    assert_eq!(parse_ipv4_text("1.1.1.1."), None);
    assert_eq!(parse_ipv4_text(""), None);
    assert_eq!(parse_ipv4_text("10.0.0.7"), Some((10, 0, 0, 7)));
    assert_eq!(parse_ipv4_text("a.b.c.d"), None);
    assert_eq!(parse_ipv4_text("1..2.3"), None);
}

#[test]
fn device_addresses_must_be_unicast() {
    assert_eq!(parse_device_addr("192.168.1.20"), Ok((192, 168, 1, 20)));
    assert_eq!(parse_device_addr("nope"), Err(AddrError::InvalidIp));
    assert_eq!(parse_device_addr("255.255.255.255"), Err(AddrError::NotUnicast));
    assert_eq!(parse_device_addr("224.0.0.1"), Err(AddrError::NotUnicast));
    assert_eq!(parse_device_addr("0.0.0.0"), Err(AddrError::NotUnicast));
}

#[test]
fn scan_keeps_valid_distinct_addresses() {
    let mut devices = Vec::new();
    assert!(accept_device(&mut devices, device("192.168.1.5", "H6199")));
    assert!(!accept_device(&mut devices, device("192.168.1.5", "H6199")));
    assert!(!accept_device(&mut devices, device("", "H6199")));
    assert!(!accept_device(&mut devices, device("not-an-ip", "H6199")));
    assert!(accept_device(&mut devices, device("192.168.1.6", "H619A")));
    let ips: Vec<&str> = devices.iter().map(|d| d.ip.as_str()).collect();
    assert_eq!(ips, vec!["192.168.1.5", "192.168.1.6"]);
}

#[test]
fn first_device_is_discovered() {
    assert_eq!(discover_device(&[]), None);
    let devices = vec![device("10.0.0.2", "a"), device("10.0.0.3", "b")];
    assert_eq!(discover_device(&devices), Some("10.0.0.2".to_string()));
}

#[test]
fn given_address_wins_over_scan() {
    let devices = vec![device("10.0.0.2", "a")];
    assert_eq!(resolve_ip(Some("10.9.9.9"), &devices), Ok("10.9.9.9".to_string()));
    assert_eq!(resolve_ip(None, &devices), Ok("10.0.0.2".to_string()));
    assert_eq!(resolve_ip(None, &[]), Err(ResolveError::NoDevices));
    assert_eq!(ResolveError::NoDevices.message(), "No Govee devices found");
}
