use govee::address::AddrError;
use govee::protocol::{
    mode_switch_packet, mode_switch_payload, razer_activate, razer_deactivate, razer_message,
    segments_packet, segments_payload, send_brightness, send_color, send_color_temp,
    send_segments, send_turn, xor_checksum, CommandError, PacketError,
};

#[test]
fn checksum_is_xor_of_all_bytes() {
    assert_eq!(xor_checksum(&[]), 0);
    assert_eq!(xor_checksum(&[0xBB, 0x00, 0x01, 0xB1, 0x01]), 0x0A);
    assert_eq!(xor_checksum(&[0xFF, 0x0F]), 0xF0);
}

#[test]
fn sealed_packets_xor_to_zero() {
    let p = mode_switch_packet(true);
    assert_eq!(xor_checksum(&p), 0);
    let p = segments_packet(&[(1, 2, 3), (200, 100, 50)], true).unwrap();
    assert_eq!(xor_checksum(&p), 0);
}

#[test]
fn mode_switch_packets() {
    assert_eq!(mode_switch_packet(true), vec![0xBB, 0x00, 0x01, 0xB1, 0x01, 0x0A]);
    assert_eq!(mode_switch_packet(false), vec![0xBB, 0x00, 0x01, 0xB1, 0x00, 0x0B]);
}

#[test]
fn segment_packet_layout() {
    let p = segments_packet(&[(255, 0, 0)], false).unwrap();
    assert_eq!(p, vec![0xBB, 0x00, 0x05, 0xB0, 0x00, 0x01, 0xFF, 0x00, 0x00, 0xF0]);
    let many = vec![(1u8, 1u8, 1u8); 100];
    let p = segments_packet(&many, true).unwrap();
    assert_eq!(p.len(), 7 + 300);
    // 2 + 300 = 302 = 0x012E, big-endian.
    assert_eq!(&p[0..6], &[0xBB, 0x01, 0x2E, 0xB0, 0x01, 100]);
}

#[test]
fn too_many_segments_are_refused() {
    let many = vec![(0u8, 0u8, 0u8); 256];
    assert_eq!(segments_packet(&many, false), Err(PacketError::TooManySegments));
    assert_eq!(segments_payload(&many, false), Err(PacketError::TooManySegments));
    let max = vec![(0u8, 0u8, 0u8); 255];
    assert!(segments_packet(&max, false).is_ok());
    // The segment count is checked before the address.
    match send_segments("not an ip", &many, false) {
        Err(CommandError::Packet(PacketError::TooManySegments)) => {}
        other => panic!("unexpected {other:?}"),
    }
}

#[test]
fn payloads_are_base64() {
    assert_eq!(mode_switch_payload(true), "uwABsQEK");
    assert_eq!(mode_switch_payload(false), "uwABsQAL");
    assert_eq!(segments_payload(&[(255, 0, 0)], false).unwrap(), "uwAFsAAB/wAA8A==");
}

#[test]
fn razer_commands() {
    assert_eq!(razer_message("abc"), r#"{"msg":{"cmd":"razer","data":{"pt":"abc"}}}"#);
    let on = razer_activate("192.168.1.50").unwrap();
    assert_eq!(on.to, (192, 168, 1, 50));
    assert_eq!(on.message, r#"{"msg":{"cmd":"razer","data":{"pt":"uwABsQEK"}}}"#);
    let off = razer_deactivate("192.168.1.50").unwrap();
    assert_eq!(off.message, r#"{"msg":{"cmd":"razer","data":{"pt":"uwABsQAL"}}}"#);
    let seg = send_segments("192.168.1.50", &[(255, 0, 0)], false).unwrap();
    assert_eq!(seg.message, r#"{"msg":{"cmd":"razer","data":{"pt":"uwAFsAAB/wAA8A=="}}}"#);
}

#[test]
fn plain_commands() {
    let ip = "10.1.2.3";
    assert_eq!(send_turn(ip, true).unwrap().message, r#"{"msg":{"cmd":"turn","data":{"value":1}}}"#);
    assert_eq!(send_turn(ip, false).unwrap().message, r#"{"msg":{"cmd":"turn","data":{"value":0}}}"#);
    assert_eq!(
        send_brightness(ip, 100).unwrap().message,
        r#"{"msg":{"cmd":"brightness","data":{"value":100}}}"#
    );
    assert_eq!(
        send_color(ip, 255, 100, 0).unwrap().message,
        r#"{"msg":{"cmd":"colorwc","data":{"color":{"b":0,"g":100,"r":255},"colorTemInKelvin":0}}}"#
    );
    assert_eq!(
        send_color_temp(ip, 2700).unwrap().message,
        r#"{"msg":{"cmd":"colorwc","data":{"color":{"b":0,"g":0,"r":0},"colorTemInKelvin":2700}}}"#
    );
}

#[test]
fn commands_need_a_unicast_address() {
    match send_turn("192.168.1", true) {
        Err(CommandError::Addr(AddrError::InvalidIp)) => {}
        other => panic!("unexpected {other:?}"),
    }
    for ip in ["255.255.255.255", "239.255.255.250", "0.0.0.0"] {
        match razer_activate(ip) {
            Err(CommandError::Addr(AddrError::NotUnicast)) => {}
            other => panic!("unexpected {other:?}"),
        }
    }
}
