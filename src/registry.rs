use vstd::prelude::*;

use crate::error::HSLinkError;

verus! {

/// USB vendor id of HSLink probes.
pub const HSLINK_VID: u16 = 0x0D28;

/// USB product id of HSLink probes.
pub const HSLINK_PID: u16 = 0x0204;

/// One entry of the host's HID device list, as far as selection needs it.
pub struct DeviceRecord {
    pub vendor_id: u16,
    pub product_id: u16,
    pub serial_number: Option<String>,
}

/// The entry is an HSLink probe.
pub open spec fn is_hslink(d: DeviceRecord) -> bool {
    d.vendor_id == HSLINK_VID && d.product_id == HSLINK_PID
}

/// The entry is an HSLink probe with serial number `serial`.
pub open spec fn has_serial(d: DeviceRecord, serial: Seq<char>) -> bool {
    is_hslink(d) && match d.serial_number {
        Some(s) => s@ == serial,
        None => false,
    }
}

/// The serial numbers of the HSLink probes in `devices`, in list order;
/// probes without a serial number are left out.
pub open spec fn listed_serials(devices: Seq<DeviceRecord>) -> Seq<Seq<char>>
    decreases devices.len(),
{
    if devices.len() == 0 {
        Seq::empty()
    } else {
        let rest = listed_serials(devices.drop_last());
        let d = devices.last();
        if is_hslink(d) && d.serial_number is Some {
            rest.push(d.serial_number->Some_0@)
        } else {
            rest
        }
    }
}

/// The texts of a sequence of strings.
pub open spec fn texts(v: Seq<String>) -> Seq<Seq<char>> {
    v.map_values(|s: String| s@)
}

/// Lists the serial numbers of the HSLink probes among `devices`.
pub fn hslink_list_device(devices: &Vec<DeviceRecord>) -> (r: Vec<String>)
    ensures
        texts(r@) == listed_serials(devices@),
{
    let mut serials: Vec<String> = Vec::new();
    let mut i: usize = 0;
    while i < devices.len()
        invariant
            i <= devices@.len(),
            texts(serials@) == listed_serials(devices@.subrange(0, i as int)),
        decreases devices.len() - i,
    {
        let d = &devices[i];
        proof {
            assert(devices@.subrange(0, i + 1).drop_last() =~= devices@.subrange(0, i as int));
        }
        if d.vendor_id == HSLINK_VID && d.product_id == HSLINK_PID {
            match &d.serial_number {
                Some(s) => {
                    serials.push(s.clone());
                    assert(texts(serials@) =~= listed_serials(devices@.subrange(0, i + 1)));
                },
                None => {},
            }
        }
        i = i + 1;
    }
    assert(devices@.subrange(0, i as int) =~= devices@);
    serials
}

/// Picks the device to open for `serial`: the first HSLink probe in
/// `devices` with that serial number, or `DeviceNotFound` where there is none.
pub fn find_device(devices: &Vec<DeviceRecord>, serial: &String) -> (r: Result<usize, HSLinkError>)
    ensures
        match r {
            Ok(i) => i < devices@.len() && has_serial(devices@[i as int], serial@) && forall|
                k: int,
            |
                0 <= k < i ==> !has_serial(#[trigger] devices@[k], serial@),
            Err(e) => e == HSLinkError::DeviceNotFound && forall|k: int|
                0 <= k < devices@.len() ==> !has_serial(#[trigger] devices@[k], serial@),
        },
{
    let mut i: usize = 0;
    while i < devices.len()
        invariant
            i <= devices@.len(),
            forall|k: int| 0 <= k < i ==> !has_serial(#[trigger] devices@[k], serial@),
        decreases devices.len() - i,
    {
        let d = &devices[i];
        if d.vendor_id == HSLINK_VID && d.product_id == HSLINK_PID {
            match &d.serial_number {
                Some(s) => {
                    if s.eq(serial) {
                        return Ok(i);
                    }
                },
                None => {},
            }
        }
        i = i + 1;
    }
    Err(HSLinkError::DeviceNotFound)
}

} // verus!
