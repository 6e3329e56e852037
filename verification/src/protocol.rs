//! The Govee LAN protocol: ports, the DreamView (Razer) binary packets and
//! their base64 payloads, and the checks on a device's address.
//!
//! Standard commands are JSON over UDP unicast to the control port. DreamView
//! packets are binary: a `0xBB` start marker, a two-byte big-endian length of
//! the data that follows the command byte, the command byte, the data, and an
//! XOR checksum over everything before it. They travel base64-encoded inside
//! a JSON `razer` command.

use vstd::prelude::*;

use base64::Engine;

use crate::address::{parse_device_addr, parse_ipv4, is_unicast, AddrError, Octets};
use crate::dreamview::Rgb;
use crate::text::{dec_text, push_decimal, push_str};

verus! {

/// Multicast group for device discovery.
pub const MULTICAST_GROUP: &'static str = "239.255.255.250";

/// Port that scan requests are sent to.
pub const SCAN_PORT: u16 = 4001;

/// Port that scan responses and status replies arrive on.
pub const RESPONSE_PORT: u16 = 4002;

/// Port that commands are sent to.
pub const CONTROL_PORT: u16 = 4003;

/// Start marker of every DreamView packet.
pub const PACKET_START: u8 = 0xBB;

/// DreamView command byte: switch DreamView mode on or off.
pub const CMD_MODE: u8 = 0xB1;

/// DreamView command byte: per-segment colours.
pub const CMD_SEGMENTS: u8 = 0xB0;

/// Most segments one DreamView packet can carry.
pub const MAX_PACKET_SEGMENTS: usize = 255;

/// Why a packet could not be built.
#[derive(Debug, PartialEq, Eq, Clone, Copy)]
pub enum PacketError {
    /// More than 255 segments were given.
    TooManySegments,
}

// ── Checksum ────────────────────────────────────────────────────────────────

/// XOR of all bytes of `s` (0 for no bytes).
pub open spec fn xor_all(s: Seq<u8>) -> u8
    decreases s.len(),
{
    if s.len() == 0 {
        0
    } else {
        xor_all(s.drop_last()) ^ s.last()
    }
}

/// XOR of all bytes of `data`.
pub fn xor_checksum(data: &[u8]) -> (c: u8)
    ensures
        c == xor_all(data@),
{
    let mut acc: u8 = 0;
    let mut i: usize = 0;
    while i < data.len()
        invariant
            i <= data@.len(),
            acc == xor_all(data@.subrange(0, i as int)),
        decreases data@.len() - i,
    {
        assert(data@.subrange(0, i as int + 1).drop_last() =~= data@.subrange(0, i as int));
        acc = acc ^ data[i];
        i = i + 1;
    }
    assert(data@.subrange(0, data@.len() as int) =~= data@);
    acc
}

/// `s` followed by its checksum byte.
pub open spec fn sealed(s: Seq<u8>) -> Seq<u8> {
    s.push(xor_all(s))
}

// ── Packets ─────────────────────────────────────────────────────────────────

/// The DreamView mode-switch packet: enable (`true`) or disable.
pub open spec fn mode_packet(enable: bool) -> Seq<u8> {
    sealed(seq![PACKET_START, 0x00u8, 0x01u8, CMD_MODE, if enable { 1u8 } else { 0u8 }])
}

/// The colour bytes of `colors`, three per colour in R, G, B order.
pub open spec fn color_bytes(colors: Seq<Rgb>) -> Seq<u8>
    decreases colors.len(),
{
    if colors.len() == 0 {
        Seq::empty()
    } else {
        color_bytes(colors.drop_last()) + seq![colors.last().0, colors.last().1, colors.last().2]
    }
}

/// The data of a segment packet: gradient flag, segment count, colour bytes.
pub open spec fn segment_data(colors: Seq<Rgb>, gradient: bool) -> Seq<u8> {
    seq![if gradient { 1u8 } else { 0u8 }, colors.len() as u8] + color_bytes(colors)
}

/// The DreamView segment packet for at most 255 colours: start marker,
/// big-endian data length, segment command, data, checksum.
pub open spec fn segment_packet(colors: Seq<Rgb>, gradient: bool) -> Seq<u8> {
    let data = segment_data(colors, gradient);
    sealed(
        seq![PACKET_START, (data.len() / 256) as u8, (data.len() % 256) as u8, CMD_SEGMENTS]
            + data,
    )
}

proof fn lemma_color_bytes_len(colors: Seq<Rgb>)
    ensures
        color_bytes(colors).len() == 3 * colors.len(),
    decreases colors.len(),
{
    if colors.len() > 0 {
        lemma_color_bytes_len(colors.drop_last());
    }
}

/// Builds the DreamView mode-switch packet.
pub fn mode_switch_packet(enable: bool) -> (p: Vec<u8>)
    ensures
        p@ == mode_packet(enable),
{
    let mut p: Vec<u8> = Vec::new();
    p.push(PACKET_START);
    p.push(0x00);
    p.push(0x01);
    p.push(CMD_MODE);
    p.push(if enable { 1 } else { 0 });
    let ghost body = seq![PACKET_START, 0x00u8, 0x01u8, CMD_MODE, if enable { 1u8 } else { 0u8 }];
    assert(p@ =~= body);
    let c = xor_checksum(p.as_slice());
    p.push(c);
    assert(p@ =~= mode_packet(enable));
    p
}

/// Builds the DreamView segment packet for `colors`; fails when there are
/// more than 255 of them.
pub fn segments_packet(colors: &[Rgb], gradient: bool) -> (res: Result<Vec<u8>, PacketError>)
    ensures
        colors@.len() > MAX_PACKET_SEGMENTS <==> res is Err,
        res matches Err(e) ==> e == PacketError::TooManySegments,
        res matches Ok(p) ==> p@ == segment_packet(colors@, gradient),
{
    let n = colors.len();
    if n > MAX_PACKET_SEGMENTS {
        return Err(PacketError::TooManySegments);
    }
    let mut data: Vec<u8> = Vec::new();
    data.push(if gradient { 1 } else { 0 });
    data.push(n as u8);
    let ghost head = data@;
    let mut i: usize = 0;
    while i < n
        invariant
            i <= n,
            n == colors@.len(),
            n <= 255,
            head == seq![if gradient { 1u8 } else { 0u8 }, n as u8],
            data@ == head + color_bytes(colors@.subrange(0, i as int)),
        decreases n - i,
    {
        let (r, g, b) = colors[i];
        let ghost pre = colors@.subrange(0, i as int);
        assert(colors@.subrange(0, i as int + 1).drop_last() =~= pre);
        data.push(r);
        data.push(g);
        data.push(b);
        i = i + 1;
        assert(data@ =~= head + color_bytes(colors@.subrange(0, i as int)));
    }
    assert(colors@.subrange(0, n as int) =~= colors@);
    assert(data@ =~= segment_data(colors@, gradient));
    proof {
        lemma_color_bytes_len(colors@);
    }
    let data_len: usize = data.len();
    assert(data_len == 2 + 3 * n);
    let mut packet: Vec<u8> = Vec::new();
    packet.push(PACKET_START);
    packet.push((data_len / 256) as u8);
    packet.push((data_len % 256) as u8);
    packet.push(CMD_SEGMENTS);
    let mut k: usize = 0;
    let ghost hdr = packet@;
    while k < data_len
        invariant
            k <= data_len,
            data_len == data@.len(),
            hdr.len() == 4,
            packet@ == hdr + data@.subrange(0, k as int),
        decreases data_len - k,
    {
        packet.push(data[k]);
        k = k + 1;
        assert(packet@ =~= hdr + data@.subrange(0, k as int));
    }
    assert(data@.subrange(0, data_len as int) =~= data@);
    let ghost body = seq![PACKET_START, (data@.len() / 256) as u8, (data@.len() % 256) as u8, CMD_SEGMENTS] + data@;
    assert(hdr =~= seq![PACKET_START, (data@.len() / 256) as u8, (data@.len() % 256) as u8, CMD_SEGMENTS]);
    assert(packet@ =~= body);
    let c = xor_checksum(packet.as_slice());
    packet.push(c);
    assert(packet@ =~= segment_packet(colors@, gradient));
    Ok(packet)
}

// ── Base64 payloads ─────────────────────────────────────────────────────────

/// The character of the 6-bit value `v` in the standard base64 alphabet
/// `A-Z a-z 0-9 + /`.
pub open spec fn base64_char(v: int) -> char {
    if v < 26 {
        ((v + 'A' as int) as u32) as char
    } else if v < 52 {
        ((v - 26 + 'a' as int) as u32) as char
    } else if v < 62 {
        ((v - 52 + '0' as int) as u32) as char
    } else if v == 62 {
        '+'
    } else {
        '/'
    }
}

/// The standard (RFC 4648, padded) base64 text of `bytes`: each group of
/// three bytes becomes four characters of six bits each, and a final group
/// of one or two bytes is padded with `=` to four characters.
pub open spec fn base64_standard(bytes: Seq<u8>) -> Seq<char>
    decreases bytes.len(),
{
    if bytes.len() == 0 {
        Seq::empty()
    } else if bytes.len() == 1 {
        let b0 = bytes[0] as int;
        seq![base64_char(b0 / 4), base64_char((b0 % 4) * 16), '=', '=']
    } else if bytes.len() == 2 {
        let b0 = bytes[0] as int;
        let b1 = bytes[1] as int;
        seq![base64_char(b0 / 4), base64_char((b0 % 4) * 16 + b1 / 16), base64_char((b1 % 16) * 4), '=']
    } else {
        let b0 = bytes[0] as int;
        let b1 = bytes[1] as int;
        let b2 = bytes[2] as int;
        seq![
            base64_char(b0 / 4),
            base64_char((b0 % 4) * 16 + b1 / 16),
            base64_char((b1 % 16) * 4 + b2 / 64),
            base64_char(b2 % 64),
        ] + base64_standard(bytes.subrange(3, bytes.len() as int))
    }
}

/// Encodes bytes as standard padded base64 with
/// `base64::engine::general_purpose::STANDARD.encode`; the contract claims
/// that the text is exactly the RFC 4648 encoding `base64_standard`.
#[verifier::external_body]
fn base64_encode(bytes: &[u8]) -> (text: String)
    ensures
        text@ == base64_standard(bytes@),
{
    base64::engine::general_purpose::STANDARD.encode(bytes)
}

/// The `pt` payload of the `razer` command that switches DreamView on or off.
pub fn mode_switch_payload(enable: bool) -> (text: String)
    ensures
        text@ == base64_standard(mode_packet(enable)),
{
    let p = mode_switch_packet(enable);
    base64_encode(p.as_slice())
}

/// The `pt` payload of the `razer` command that sets per-segment colours;
/// fails when there are more than 255 colours.
pub fn segments_payload(colors: &[Rgb], gradient: bool) -> (res: Result<String, PacketError>)
    ensures
        colors@.len() > MAX_PACKET_SEGMENTS <==> res is Err,
        res matches Err(e) ==> e == PacketError::TooManySegments,
        res matches Ok(t) ==> t@ == base64_standard(segment_packet(colors@, gradient)),
{
    match segments_packet(colors, gradient) {
        Ok(p) => Ok(base64_encode(p.as_slice())),
        Err(e) => Err(e),
    }
}

// ── JSON command messages ───────────────────────────────────────────────────

/// The JSON envelope of a command: `{"msg":{"cmd":CMD,"data":DATA}}`, with
/// `data` already JSON text.
pub open spec fn envelope(cmd: Seq<char>, data: Seq<char>) -> Seq<char> {
    "{\"msg\":{\"cmd\":\""@ + cmd + "\",\"data\":"@ + data + "}}"@
}

/// The `razer` command carrying a base64 DreamView packet.
pub open spec fn razer_json(pt: Seq<char>) -> Seq<char> {
    envelope("razer"@, "{\"pt\":\""@ + pt + "\"}"@)
}

/// The `turn` command: value 1 switches the strip on, 0 off.
pub open spec fn turn_json(on: bool) -> Seq<char> {
    envelope("turn"@, "{\"value\":"@ + (if on { "1"@ } else { "0"@ }) + "}"@)
}

/// The `brightness` command.
pub open spec fn brightness_json(value: u8) -> Seq<char> {
    envelope("brightness"@, "{\"value\":"@ + dec_text(value as nat) + "}"@)
}

/// The `colorwc` command: an RGB colour and a colour temperature (0 for
/// none), keys in sorted order.
pub open spec fn colorwc_json(c: Rgb, kelvin: u16) -> Seq<char> {
    envelope(
        "colorwc"@,
        "{\"color\":{\"b\":"@ + dec_text(c.2 as nat) + ",\"g\":"@ + dec_text(c.1 as nat)
            + ",\"r\":"@ + dec_text(c.0 as nat) + "},\"colorTemInKelvin\":"@ + dec_text(
            kelvin as nat,
        ) + "}"@,
    )
}

fn envelope_text(cmd: &str, data: &str) -> (t: String)
    ensures
        t@ == envelope(cmd@, data@),
{
    let mut t = String::new();
    push_str(&mut t, "{\"msg\":{\"cmd\":\"");
    push_str(&mut t, cmd);
    push_str(&mut t, "\",\"data\":");
    push_str(&mut t, data);
    push_str(&mut t, "}}");
    assert(t@ =~= envelope(cmd@, data@));
    t
}

/// The JSON text of the `razer` command carrying `pt`.
pub fn razer_message(pt: &str) -> (t: String)
    ensures
        t@ == razer_json(pt@),
{
    let mut d = String::new();
    push_str(&mut d, "{\"pt\":\"");
    push_str(&mut d, pt);
    push_str(&mut d, "\"}");
    envelope_text("razer", d.as_str())
}

/// The JSON text of the `turn` command.
pub fn turn_message(on: bool) -> (t: String)
    ensures
        t@ == turn_json(on),
{
    let mut d = String::new();
    push_str(&mut d, "{\"value\":");
    push_str(&mut d, if on { "1" } else { "0" });
    push_str(&mut d, "}");
    envelope_text("turn", d.as_str())
}

/// The JSON text of the `brightness` command.
pub fn brightness_message(value: u8) -> (t: String)
    ensures
        t@ == brightness_json(value),
{
    let mut d = String::new();
    push_str(&mut d, "{\"value\":");
    push_decimal(&mut d, value as u64);
    push_str(&mut d, "}");
    assert(d@ =~= "{\"value\":"@ + dec_text(value as nat) + "}"@);
    envelope_text("brightness", d.as_str())
}

/// The JSON text of the `colorwc` command.
pub fn colorwc_message(c: Rgb, kelvin: u16) -> (t: String)
    ensures
        t@ == colorwc_json(c, kelvin),
{
    let mut d = String::new();
    push_str(&mut d, "{\"color\":{\"b\":");
    push_decimal(&mut d, c.2 as u64);
    push_str(&mut d, ",\"g\":");
    push_decimal(&mut d, c.1 as u64);
    push_str(&mut d, ",\"r\":");
    push_decimal(&mut d, c.0 as u64);
    push_str(&mut d, "},\"colorTemInKelvin\":");
    push_decimal(&mut d, kelvin as u64);
    push_str(&mut d, "}");
    assert(d@ =~= "{\"color\":{\"b\":"@ + dec_text(c.2 as nat) + ",\"g\":"@ + dec_text(
        c.1 as nat,
    ) + ",\"r\":"@ + dec_text(c.0 as nat) + "},\"colorTemInKelvin\":"@ + dec_text(
        kelvin as nat,
    ) + "}"@);
    envelope_text("colorwc", d.as_str())
}

// ── Commands to a device ────────────────────────────────────────────────────

/// A command ready to go out: the device address, and the JSON text that is
/// sent to it on the control port.
#[derive(Debug)]
pub struct Command {
    pub to: Octets,
    pub message: String,
}

/// Why a command could not be built.
#[derive(Debug, PartialEq, Eq, Clone, Copy)]
pub enum CommandError {
    /// The device address was refused.
    Addr(AddrError),
    /// The DreamView packet could not be built.
    Packet(PacketError),
}

/// The outcome of addressing `message` to `ip`: the command when `ip` is a
/// unicast IPv4 address, else the address error.
pub open spec fn addressed(ip: Seq<char>, message: Seq<char>, res: Result<Command, CommandError>) -> bool {
    match parse_ipv4(ip) {
        None => res == Err::<Command, CommandError>(CommandError::Addr(AddrError::InvalidIp)),
        Some(o) => if is_unicast(o) {
            res matches Ok(c) && c.to == o && c.message@ == message
        } else {
            res == Err::<Command, CommandError>(CommandError::Addr(AddrError::NotUnicast))
        },
    }
}

fn address(ip: &str, message: String) -> (res: Result<Command, CommandError>)
    ensures
        addressed(ip@, message@, res),
{
    match parse_device_addr(ip) {
        Ok(to) => Ok(Command { to, message }),
        Err(e) => Err(CommandError::Addr(e)),
    }
}

/// The command that switches DreamView mode on; it must precede segment
/// colours.
pub fn razer_activate(ip: &str) -> (res: Result<Command, CommandError>)
    ensures
        addressed(ip@, razer_json(base64_standard(mode_packet(true))), res),
{
    let pt = mode_switch_payload(true);
    address(ip, razer_message(pt.as_str()))
}

/// The command that switches DreamView mode off, returning the strip to
/// normal operation.
pub fn razer_deactivate(ip: &str) -> (res: Result<Command, CommandError>)
    ensures
        addressed(ip@, razer_json(base64_standard(mode_packet(false))), res),
{
    let pt = mode_switch_payload(false);
    address(ip, razer_message(pt.as_str()))
}

/// The command that sets per-segment colours through DreamView. More than
/// 255 colours are refused before the address is looked at.
pub fn send_segments(ip: &str, colors: &[Rgb], gradient: bool) -> (res: Result<Command, CommandError>)
    ensures
        colors@.len() > MAX_PACKET_SEGMENTS ==> res == Err::<Command, CommandError>(
            CommandError::Packet(PacketError::TooManySegments),
        ),
        colors@.len() <= MAX_PACKET_SEGMENTS ==> addressed(
            ip@,
            razer_json(base64_standard(segment_packet(colors@, gradient))),
            res,
        ),
{
    match segments_payload(colors, gradient) {
        Ok(pt) => address(ip, razer_message(pt.as_str())),
        Err(e) => Err(CommandError::Packet(e)),
    }
}

/// The command that switches the strip on or off.
pub fn send_turn(ip: &str, on: bool) -> (res: Result<Command, CommandError>)
    ensures
        addressed(ip@, turn_json(on), res),
{
    address(ip, turn_message(on))
}

/// The command that sets the brightness (1-100).
pub fn send_brightness(ip: &str, value: u8) -> (res: Result<Command, CommandError>)
    ensures
        addressed(ip@, brightness_json(value), res),
{
    address(ip, brightness_message(value))
}

/// The command that sets the whole strip to one RGB colour.
pub fn send_color(ip: &str, r: u8, g: u8, b: u8) -> (res: Result<Command, CommandError>)
    ensures
        addressed(ip@, colorwc_json((r, g, b), 0), res),
{
    address(ip, colorwc_message((r, g, b), 0))
}

/// The command that sets the strip to a white colour temperature in kelvin.
pub fn send_color_temp(ip: &str, kelvin: u16) -> (res: Result<Command, CommandError>)
    ensures
        addressed(ip@, colorwc_json((0, 0, 0), kelvin), res),
{
    address(ip, colorwc_message((0, 0, 0), kelvin))
}

// ── Laws ────────────────────────────────────────────────────────────────────

proof fn lemma_xor_push(s: Seq<u8>, b: u8)
    ensures
        xor_all(s.push(b)) == xor_all(s) ^ b,
{
    assert(s.push(b).drop_last() =~= s);
}

/// Every packet carries its own check: the XOR of all its bytes, the
/// checksum included, is zero.
pub proof fn lemma_sealed_xor_zero(s: Seq<u8>)
    ensures
        xor_all(sealed(s)) == 0,
{
    lemma_xor_push(s, xor_all(s));
    let x = xor_all(s);
    assert(x ^ x == 0) by (bit_vector);
}

/// A segment packet is framed as the protocol says: it starts with the start
/// marker, gives the data length big-endian, has the segment command, the
/// gradient flag and the colour count, and the colours at offset 6 + 3i;
/// it is 7 + 3n bytes long and its bytes XOR to zero.
pub proof fn lemma_segment_packet_layout(colors: Seq<Rgb>, gradient: bool)
    requires
        colors.len() <= MAX_PACKET_SEGMENTS,
    ensures
        ({
            let p = segment_packet(colors, gradient);
            &&& p.len() == 7 + 3 * colors.len()
            &&& p[0] == PACKET_START
            &&& p[1] as int * 256 + p[2] as int == 2 + 3 * colors.len()
            &&& p[3] == CMD_SEGMENTS
            &&& p[4] == (if gradient { 1u8 } else { 0u8 })
            &&& p[5] == colors.len()
            &&& forall|i: int|
                0 <= i < colors.len() ==> p[6 + 3 * i] == colors[i].0 && p[7 + 3 * i]
                    == colors[i].1 && p[8 + 3 * i] == colors[i].2
            &&& xor_all(p) == 0
        }),
{
    lemma_color_bytes_len(colors);
    lemma_color_bytes_at(colors);
    lemma_sealed_xor_zero(
        seq![PACKET_START, ((2 + 3 * colors.len()) / 256) as u8, ((2 + 3 * colors.len()) % 256) as u8, CMD_SEGMENTS]
            + segment_data(colors, gradient),
    );
}

proof fn lemma_color_bytes_at(colors: Seq<Rgb>)
    ensures
        forall|i: int|
            0 <= i < colors.len() ==> color_bytes(colors)[3 * i] == colors[i].0 && color_bytes(
                colors,
            )[3 * i + 1] == colors[i].1 && color_bytes(colors)[3 * i + 2] == colors[i].2,
    decreases colors.len(),
{
    if colors.len() > 0 {
        let init = colors.drop_last();
        lemma_color_bytes_at(init);
        lemma_color_bytes_len(init);
        let b = color_bytes(colors);
        let tail = seq![colors.last().0, colors.last().1, colors.last().2];
        assert(b == color_bytes(init) + tail);
        assert forall|i: int| 0 <= i < colors.len() implies b[3 * i] == colors[i].0 && b[3 * i
            + 1] == colors[i].1 && b[3 * i + 2] == colors[i].2 by {
            if i < init.len() {
                assert(colors[i] == init[i]);
            }
        }
    }
}

} // verus!
