//! Device discovery: which scan responses make it into the device list, and
//! how the target address of a command is chosen.
//!
//! The scan itself (a multicast request and a timed wait for replies) is I/O
//! and stays with the caller, which hands each decoded reply to
//! [`accept_device`] and the finished list to [`discover_device`] or
//! [`resolve_ip`].

use vstd::prelude::*;

use crate::address::{parse_ipv4, parse_ipv4_text};
use crate::text::str_eq;

verus! {

/// A discovered device with its address and model information.
#[derive(Debug, Clone)]
pub struct DeviceInfo {
    pub ip: String,
    pub sku: String,
    pub device: String,
    pub wifi_version: String,
    pub ble_version: String,
}

/// `a` and `b` describe the same device.
pub open spec fn same_device(a: DeviceInfo, b: DeviceInfo) -> bool {
    &&& a.ip@ == b.ip@
    &&& a.sku@ == b.sku@
    &&& a.device@ == b.device@
    &&& a.wifi_version@ == b.wifi_version@
    &&& a.ble_version@ == b.ble_version@
}

impl DeviceInfo {
    /// A copy of the device's description.
    pub fn duplicate(&self) -> (d: DeviceInfo)
        ensures
            same_device(d, *self),
    {
        DeviceInfo {
            ip: self.ip.clone(),
            sku: self.sku.clone(),
            device: self.device.clone(),
            wifi_version: self.wifi_version.clone(),
            ble_version: self.ble_version.clone(),
        }
    }
}

/// The addresses of a device list, in order.
pub open spec fn ips(devices: Seq<DeviceInfo>) -> Seq<Seq<char>> {
    devices.map_values(|d: DeviceInfo| d.ip@)
}

/// A device list as a scan builds it: every address is a non-empty dotted
/// quad, and no address occurs twice.
pub open spec fn well_formed_scan(devices: Seq<DeviceInfo>) -> bool {
    &&& forall|i: int| 0 <= i < devices.len() ==> parse_ipv4(#[trigger] devices[i].ip@) is Some
    &&& forall|i: int, j: int|
        0 <= i < j < devices.len() ==> #[trigger] devices[i].ip@ != #[trigger] devices[j].ip@
}

/// Whether a reply from `d` is added to `devices`: its address is a non-empty
/// dotted quad that no listed device has.
pub open spec fn accepts(devices: Seq<DeviceInfo>, d: DeviceInfo) -> bool {
    &&& d.ip@.len() > 0
    &&& parse_ipv4(d.ip@) is Some
    &&& forall|i: int| 0 <= i < devices.len() ==> #[trigger] devices[i].ip@ != d.ip@
}

/// Adds the device of one scan reply to the list, unless its address is
/// empty, not a dotted quad, or already listed. Returns whether it was added.
pub fn accept_device(devices: &mut Vec<DeviceInfo>, d: DeviceInfo) -> (added: bool)
    ensures
        added == accepts(old(devices)@, d),
        added ==> final(devices)@ == old(devices)@.push(d),
        !added ==> final(devices)@ == old(devices)@,
{
    if d.ip.unicode_len() == 0 {
        return false;
    }
    if parse_ipv4_text(d.ip.as_str()).is_none() {
        return false;
    }
    let mut i: usize = 0;
    while i < devices.len()
        invariant
            i <= devices@.len(),
            devices@ == old(devices)@,
            forall|k: int| 0 <= k < i ==> #[trigger] devices@[k].ip@ != d.ip@,
        decreases devices@.len() - i,
    {
        if str_eq(devices[i].ip.as_str(), d.ip.as_str()) {
            return false;
        }
        i = i + 1;
    }
    devices.push(d);
    true
}

/// Only the address decides whether a reply is added: a reply with a
/// non-empty, valid address that no listed device has is always added,
/// whatever its model, id or versions; one whose address is listed, empty
/// or invalid never is; and two replies with the same address fare alike,
/// against any two lists with the same addresses.
pub proof fn lemma_address_decides(
    devices: Seq<DeviceInfo>,
    others: Seq<DeviceInfo>,
    d: DeviceInfo,
    e: DeviceInfo,
)
    ensures
        d.ip@.len() > 0 && parse_ipv4(d.ip@) is Some && (forall|i: int|
            0 <= i < devices.len() ==> #[trigger] devices[i].ip@ != d.ip@) ==> accepts(devices, d),
        (exists|i: int| 0 <= i < devices.len() && #[trigger] devices[i].ip@ == d.ip@) ==> !accepts(
            devices,
            d,
        ),
        d.ip@.len() == 0 || parse_ipv4(d.ip@) is None ==> !accepts(devices, d),
        d.ip@ == e.ip@ && ips(devices) == ips(others) ==> accepts(devices, d) == accepts(others, e),
{
    if d.ip@ == e.ip@ && ips(devices) == ips(others) {
        assert(devices.len() == ips(devices).len());
        assert(others.len() == ips(others).len());
        assert forall|i: int| 0 <= i < devices.len() implies #[trigger] devices[i].ip@ == others[i].ip@ by {
            assert(ips(devices)[i] == devices[i].ip@);
            assert(ips(others)[i] == others[i].ip@);
        }
        if accepts(devices, d) {
            assert forall|i: int| 0 <= i < others.len() implies #[trigger] others[i].ip@ != e.ip@ by {
                assert(devices[i].ip@ == others[i].ip@);
            }
        }
        if accepts(others, e) {
            assert forall|i: int| 0 <= i < devices.len() implies #[trigger] devices[i].ip@ != d.ip@ by {
                assert(devices[i].ip@ == others[i].ip@);
            }
        }
    }
}

/// Accepting a reply keeps a scan's device list well formed: all addresses
/// valid, none twice.
pub proof fn lemma_accept_keeps_scan_well_formed(devices: Seq<DeviceInfo>, d: DeviceInfo)
    requires
        well_formed_scan(devices),
    ensures
        well_formed_scan(if accepts(devices, d) { devices.push(d) } else { devices }),
{
    if accepts(devices, d) {
        let n = devices.push(d);
        assert forall|i: int, j: int| 0 <= i < j < n.len() implies #[trigger] n[i].ip@
            != #[trigger] n[j].ip@ by {
            if j == devices.len() {
                assert(n[i] == devices[i]);
            }
        }
    }
}

/// The address of the first device that answered the scan, if any.
pub fn discover_device(devices: &[DeviceInfo]) -> (ip: Option<String>)
    ensures
        devices@.len() == 0 ==> ip is None,
        devices@.len() > 0 ==> (ip matches Some(s) && s@ == devices@[0].ip@),
{
    if devices.len() == 0 {
        None
    } else {
        Some(devices[0].ip.clone())
    }
}

/// Why no target address could be chosen.
#[derive(Debug, PartialEq, Eq, Clone, Copy)]
pub enum ResolveError {
    /// No address was given and the scan found no device.
    NoDevices,
}

impl ResolveError {
    /// The message shown for this error.
    pub fn message(&self) -> (s: &'static str)
        ensures
            s@ == "No Govee devices found"@,
    {
        "No Govee devices found"
    }
}

/// The address a command goes to: the given one if there is one, else the
/// first device of the scan (which the caller runs only when no address was
/// given), else an error.
pub fn resolve_ip(ip: Option<&str>, scanned: &[DeviceInfo]) -> (res: Result<String, ResolveError>)
    ensures
        ip matches Some(s) ==> (res matches Ok(r) && r@ == s@),
        ip is None && scanned@.len() > 0 ==> (res matches Ok(r) && r@ == scanned@[0].ip@),
        ip is None && scanned@.len() == 0 ==> res == Err::<String, ResolveError>(
            ResolveError::NoDevices,
        ),
{
    match ip {
        Some(s) => Ok(s.to_string()),
        None => match discover_device(scanned) {
            Some(found) => Ok(found),
            None => Err(ResolveError::NoDevices),
        },
    }
}

} // verus!
