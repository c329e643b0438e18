//! RTL-SDR dongle identification from USB descriptors, and what the IQ
//! reader does when its stream ends.
use crate::error::{RailError, RailErrorView};
use crate::text::{hex, push_padded, zero_pad};
use vstd::prelude::*;
use vstd::string::*;

verus! {

/// USB (vendor, product) identifiers of known RTL2832U-based dongles.
pub open spec fn known_rtlsdr_ids() -> Seq<(u16, u16)> {
    seq![
        (0x0bdau16, 0x2832u16),  // generic RTL2832U
        (0x0bdau16, 0x2838u16),  // generic RTL2832U / NESDR Smart
        (0x0bdau16, 0x2831u16),  // Realtek RTL2831U
        (0x0bdau16, 0x2834u16),  // Realtek variants
        (0x0ccdu16, 0x00a9u16),  // Terratec Cinergy T Stick Black
        (0x0ccdu16, 0x00b3u16),  // Terratec NOXON DAB/DAB+
        (0x185bu16, 0x0620u16),  // Compro Videomate U620F
        (0x1f4du16, 0xa803u16),  // SVEON STV20
        (0x1554u16, 0x5020u16),  // PixelView PV-DT235U
    ]
}

/// Whether `(vid, pid)` identifies a known RTL-SDR dongle.
pub fn is_rtlsdr(vid: u16, pid: u16) -> (r: bool)
    ensures
        r == known_rtlsdr_ids().contains((vid, pid)),
{
    let r = (vid == 0x0bda && (pid == 0x2832 || pid == 0x2838 || pid == 0x2831 || pid == 0x2834))
        || (vid == 0x0ccd && (pid == 0x00a9 || pid == 0x00b3)) || (vid == 0x185b && pid == 0x0620)
        || (vid == 0x1f4d && pid == 0xa803) || (vid == 0x1554 && pid == 0x5020);
    proof {
        let ids = known_rtlsdr_ids();
        if r {
            if vid == 0x0bda && pid == 0x2832 { assert(ids[0] == (vid, pid)); }
            if vid == 0x0bda && pid == 0x2838 { assert(ids[1] == (vid, pid)); }
            if vid == 0x0bda && pid == 0x2831 { assert(ids[2] == (vid, pid)); }
            if vid == 0x0bda && pid == 0x2834 { assert(ids[3] == (vid, pid)); }
            if vid == 0x0ccd && pid == 0x00a9 { assert(ids[4] == (vid, pid)); }
            if vid == 0x0ccd && pid == 0x00b3 { assert(ids[5] == (vid, pid)); }
            if vid == 0x185b && pid == 0x0620 { assert(ids[6] == (vid, pid)); }
            if vid == 0x1f4d && pid == 0xa803 { assert(ids[7] == (vid, pid)); }
            if vid == 0x1554 && pid == 0x5020 { assert(ids[8] == (vid, pid)); }
        }
    }
    r
}

/// Exactly nine dongles are recognised: the Realtek RTL2832U (`0bda:2832`,
/// `0bda:2838`), RTL2831U (`0bda:2831`) and variant (`0bda:2834`), the
/// Terratec Cinergy T Stick Black (`0ccd:00a9`) and NOXON DAB/DAB+
/// (`0ccd:00b3`), the Compro Videomate U620F (`185b:0620`), the SVEON STV20
/// (`1f4d:a803`) and the PixelView PV-DT235U (`1554:5020`); any other pair
/// is not.
pub proof fn lemma_known_dongles(vid: u16, pid: u16)
    ensures
        known_rtlsdr_ids().contains((vid, pid)) <==> ((vid == 0x0bda && pid == 0x2832) || (vid
            == 0x0bda && pid == 0x2838) || (vid == 0x0bda && pid == 0x2831) || (vid == 0x0bda
            && pid == 0x2834) || (vid == 0x0ccd && pid == 0x00a9) || (vid == 0x0ccd && pid
            == 0x00b3) || (vid == 0x185b && pid == 0x0620) || (vid == 0x1f4d && pid == 0xa803)
            || (vid == 0x1554 && pid == 0x5020)),
{
    let ids = known_rtlsdr_ids();
    assert(ids.len() == 9);
    if vid == 0x0bda && pid == 0x2832 { assert(ids[0] == (vid, pid)); }
    if vid == 0x0bda && pid == 0x2838 { assert(ids[1] == (vid, pid)); }
    if vid == 0x0bda && pid == 0x2831 { assert(ids[2] == (vid, pid)); }
    if vid == 0x0bda && pid == 0x2834 { assert(ids[3] == (vid, pid)); }
    if vid == 0x0ccd && pid == 0x00a9 { assert(ids[4] == (vid, pid)); }
    if vid == 0x0ccd && pid == 0x00b3 { assert(ids[5] == (vid, pid)); }
    if vid == 0x185b && pid == 0x0620 { assert(ids[6] == (vid, pid)); }
    if vid == 0x1f4d && pid == 0xa803 { assert(ids[7] == (vid, pid)); }
    if vid == 0x1554 && pid == 0x5020 { assert(ids[8] == (vid, pid)); }
    if ids.contains((vid, pid)) {
        let i = choose|i: int| 0 <= i < ids.len() && ids[i] == (vid, pid);
        assert(0 <= i < 9);
    }
}

/// Display name of a dongle: its product string when it has a non-empty
/// one, else a name for the common identifiers, else the identifiers.
pub open spec fn dongle_name(vid: u16, pid: u16, product: Option<Seq<char>>) -> Seq<char> {
    if product matches Some(p) && p.len() > 0 {
        product.unwrap()
    } else if vid == 0x0bda && pid == 0x2838 {
        "Generic RTL2832U / NESDR"@
    } else if vid == 0x0bda && pid == 0x2832 {
        "Generic RTL2832U"@
    } else {
        "RTL-SDR compatible ("@ + zero_pad(hex(vid as nat), 4) + ":"@ + zero_pad(hex(pid as nat), 4)
            + ")"@
    }
}

/// The name shown for a dongle (see [`dongle_name`]).
pub fn friendly_name(vid: u16, pid: u16, product: Option<&str>) -> (r: String)
    ensures
        r@ == dongle_name(vid, pid, match product { Some(p) => Some(p@), None => None }),
{
    if let Some(p) = product {
        if !p.is_empty() {
            return String::from_str(p);
        }
    }
    if vid == 0x0bda && pid == 0x2838 {
        proof { reveal_strlit("Generic RTL2832U / NESDR"); }
        String::from_str("Generic RTL2832U / NESDR")
    } else if vid == 0x0bda && pid == 0x2832 {
        proof { reveal_strlit("Generic RTL2832U"); }
        String::from_str("Generic RTL2832U")
    } else {
        let mut out = String::from_str("RTL-SDR compatible (");
        push_padded(&mut out, vid as u128, 16, 4);
        out.append(":");
        push_padded(&mut out, pid as u128, 16, 4);
        out.append(")");
        out
    }
}

/// One attached USB device, as enumerated by the host.
pub struct UsbDeviceDesc {
    pub vendor_id: u16,
    pub product_id: u16,
    pub product: Option<String>,
}

/// A detected RTL-SDR: its position in the USB enumeration and its name.
#[derive(Debug, Clone)]
pub struct DeviceInfo {
    pub index: u32,
    pub name: String,
}

/// The product string of an enumerated device, as characters.
pub open spec fn product_text(d: UsbDeviceDesc) -> Option<Seq<char>> {
    match d.product {
        Some(p) => Some(p@),
        None => None,
    }
}

/// Picks the first enumerated device that is a known RTL-SDR; fails with
/// `DeviceNotFound` when there is none. The device is not opened.
pub fn first_rtlsdr(devices: &Vec<UsbDeviceDesc>) -> (r: Result<DeviceInfo, RailError>)
    ensures
        r is Err <==> forall|i: int|
            0 <= i < devices@.len() ==> !known_rtlsdr_ids().contains(
                (#[trigger] devices@[i].vendor_id, devices@[i].product_id),
            ),
        r matches Err(e) ==> e@ == RailErrorView::DeviceNotFound,
        r matches Ok(info) ==> exists|i: int|
            0 <= i < devices@.len() && known_rtlsdr_ids().contains(
                (#[trigger] devices@[i].vendor_id, devices@[i].product_id),
            ) && (forall|j: int|
                0 <= j < i ==> !known_rtlsdr_ids().contains(
                    (#[trigger] devices@[j].vendor_id, devices@[j].product_id),
                )) && info.index == i as u32 && info.name@ == dongle_name(
                devices@[i].vendor_id,
                devices@[i].product_id,
                product_text(devices@[i]),
            ),
{
    let mut idx: usize = 0;
    while idx < devices.len()
        invariant
            idx <= devices.len(),
            forall|j: int|
                0 <= j < idx ==> !known_rtlsdr_ids().contains(
                    (#[trigger] devices@[j].vendor_id, devices@[j].product_id),
                ),
        decreases devices.len() - idx,
    {
        let dev = &devices[idx];
        if is_rtlsdr(dev.vendor_id, dev.product_id) {
            let product: Option<&str> = match &dev.product {
                Some(p) => Some(p.as_str()),
                None => None,
            };
            let name = friendly_name(dev.vendor_id, dev.product_id, product);
            return Ok(DeviceInfo { index: idx as u32, name });
        }
        idx = idx + 1;
    }
    Err(RailError::DeviceNotFound)
}

/// What the IQ reader does with the dongle once its async read returns.
#[derive(Debug)]
pub enum ReaderExit {
    /// The stop was asked for: close the device.
    CloseDevice,
    /// The read ended on its own (the dongle went away): keep the handle
    /// open, since closing a vanished device can crash the driver, and
    /// report the disconnect with this reason.
    Disconnected(String),
}

/// The reader's decision after the async read returned: `cancel_requested`
/// tells whether a stop was asked for, `error_text` is the read's error
/// message when it failed.
pub fn reader_exit(cancel_requested: bool, error_text: Option<String>) -> (r: ReaderExit)
    ensures
        cancel_requested ==> r is CloseDevice,
        !cancel_requested ==> (r matches ReaderExit::Disconnected(msg) && msg@ == match error_text {
            Some(t) => t@,
            None => "device stream stopped unexpectedly"@,
        }),
{
    if cancel_requested {
        return ReaderExit::CloseDevice;
    }
    let msg = match error_text {
        Some(t) => t,
        None => {
            proof {
                reveal_strlit("device stream stopped unexpectedly");
            }
            String::from_str("device stream stopped unexpectedly")
        },
    };
    ReaderExit::Disconnected(msg)
}

} // verus!
