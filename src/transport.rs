//! Choosing the one HID interface of a controller that answers feature reports.
//!
//! A controller may expose several interfaces under one vendor and product id;
//! only one of them accepts feature reports. Candidates are tried in
//! enumeration order: each is opened and sent a two-byte probe report, and the
//! first that opens and accepts the probe carries the session.
use crate::error::DeviceError;
use vstd::prelude::*;

verus! {

/// USB vendor id of the supported controllers.
pub const RAZER_VID: u16 = 0x1532;

/// The liveness probe: a two-byte feature report, report id first.
pub const PROBE_REPORT: [u8; 2] = [0, 0];

/// Delay before a request is written, in microseconds: the controller is not
/// ready at once after a session opens or after an earlier exchange.
pub const PRE_WRITE_SETTLE_MICROS: u64 = 1000;

/// Delay between writing a request and reading its response, in
/// microseconds: the controller computes the answer in the meantime.
pub const POST_WRITE_PROCESS_MICROS: u64 = 2000;

/// The identifiers of one HID interface the host exposes.
#[derive(Clone, Copy, Debug, PartialEq, Eq, Structural)]
pub struct InterfaceInfo {
    pub vendor_id: u16,
    pub product_id: u16,
}

/// What to do next while opening a session.
#[derive(Clone, Copy, Debug, PartialEq, Eq, Structural)]
pub enum OpenStep {
    /// Open the candidate at this position and send it the probe.
    Probe(usize),
    /// No candidate is left: opening fails with this error.
    Fail(DeviceError),
}

pub open spec fn is_target(c: InterfaceInfo, vendor_id: u16, product_id: u16) -> bool {
    c.vendor_id == vendor_id && c.product_id == product_id
}

/// Some interface carries `vendor_id`.
pub open spec fn has_vendor(cands: Seq<InterfaceInfo>, vendor_id: u16) -> bool {
    exists|j: int| 0 <= j < cands.len() && (#[trigger] cands[j]).vendor_id == vendor_id
}

/// The error of an open that found no usable candidate: `SessionOpenFailed`
/// when interfaces with the target vendor and product id exist, and
/// `VendorDeviceAbsent` when there is none to try.
pub open spec fn open_error(cands: Seq<InterfaceInfo>, vendor_id: u16, product_id: u16) -> DeviceError {
    if pid_seen(cands, vendor_id, product_id) {
        DeviceError::SessionOpenFailed
    } else {
        DeviceError::VendorDeviceAbsent
    }
}

/// Some interface carries `vendor_id` and `product_id`.
pub open spec fn pid_seen(cands: Seq<InterfaceInfo>, vendor_id: u16, product_id: u16) -> bool {
    exists|j: int| 0 <= j < cands.len() && #[trigger] is_target(cands[j], vendor_id, product_id)
}

/// `pids` lists, once each, the product ids of the interfaces under `vendor_id`.
pub open spec fn lists_product_ids(pids: Seq<u16>, cands: Seq<InterfaceInfo>, vendor_id: u16) -> bool {
    &&& pids.no_duplicates()
    &&& forall|k: int| 0 <= k < pids.len() ==> pid_seen(cands, vendor_id, #[trigger] pids[k])
    &&& forall|j: int|
        0 <= j < cands.len() && (#[trigger] cands[j]).vendor_id == vendor_id ==> pids.contains(
            cands[j].product_id,
        )
}

fn has_target_interface(cands: &[InterfaceInfo], vendor_id: u16, product_id: u16) -> (r: bool)
    ensures
        r == pid_seen(cands@, vendor_id, product_id),
{
    let mut i: usize = 0;
    while i < cands.len()
        invariant
            i <= cands@.len(),
            forall|j: int| 0 <= j < i ==> !is_target(#[trigger] cands@[j], vendor_id, product_id),
        decreases cands@.len() - i,
    {
        if cands[i].vendor_id == vendor_id && cands[i].product_id == product_id {
            assert(is_target(cands@[i as int], vendor_id, product_id));
            return true;
        }
        i = i + 1;
    }
    false
}

/// The next candidate to probe, at or after position `from`: the first
/// interface there with the target vendor and product id. When none is left,
/// the error tells "no interface with these ids at all" apart from "none of
/// them could be used".
pub fn next_candidate(cands: &[InterfaceInfo], vendor_id: u16, product_id: u16, from: usize) -> (r:
    OpenStep)
    ensures
        r matches OpenStep::Probe(i) ==> from <= i < cands@.len() && is_target(
            cands@[i as int],
            vendor_id,
            product_id,
        ) && forall|j: int|
            from <= j < i ==> !is_target(#[trigger] cands@[j], vendor_id, product_id),
        r matches OpenStep::Fail(e) ==> e == open_error(cands@, vendor_id, product_id) && forall|j: int|
            from <= j < cands@.len() ==> !is_target(#[trigger] cands@[j], vendor_id, product_id),
{
    let mut i: usize = from;
    while i < cands.len()
        invariant
            from <= i || cands@.len() <= i,
            forall|j: int|
                from <= j < i && j < cands@.len() ==> !is_target(
                    #[trigger] cands@[j],
                    vendor_id,
                    product_id,
                ),
        decreases cands@.len() - i,
    {
        if cands[i].vendor_id == vendor_id && cands[i].product_id == product_id {
            return OpenStep::Probe(i);
        }
        i = i + 1;
    }
    if has_target_interface(cands, vendor_id, product_id) {
        OpenStep::Fail(DeviceError::SessionOpenFailed)
    } else {
        OpenStep::Fail(DeviceError::VendorDeviceAbsent)
    }
}

/// The interface a session is opened on, given whether each candidate opens
/// and accepts the probe (`live`): the first live one, in enumeration order,
/// with the target vendor and product id. A dead candidate is never chosen.
pub fn select_interface(
    cands: &[InterfaceInfo],
    vendor_id: u16,
    product_id: u16,
    live: &[bool],
) -> (r: Result<usize, DeviceError>)
    requires
        live@.len() == cands@.len(),
    ensures
        r matches Ok(i) ==> i < cands@.len() && is_target(cands@[i as int], vendor_id, product_id)
            && live@[i as int] && forall|j: int|
            0 <= j < i ==> !(is_target(#[trigger] cands@[j], vendor_id, product_id) && live@[j]),
        r matches Err(e) ==> e == open_error(cands@, vendor_id, product_id) && forall|j: int|
            0 <= j < cands@.len() ==> !(is_target(#[trigger] cands@[j], vendor_id, product_id)
                && live@[j]),
        !pid_seen(cands@, vendor_id, product_id) ==> r == Err::<usize, DeviceError>(
            DeviceError::VendorDeviceAbsent,
        ),
        pid_seen(cands@, vendor_id, product_id) && (forall|j: int|
            0 <= j < cands@.len() && #[trigger] is_target(cands@[j], vendor_id, product_id)
                ==> !live@[j]) ==> r == Err::<usize, DeviceError>(DeviceError::SessionOpenFailed),
{
    let mut from: usize = 0;
    while from <= cands.len()
        invariant
            from <= cands@.len(),
            live@.len() == cands@.len(),
            forall|j: int|
                0 <= j < from && j < cands@.len() ==> !(is_target(
                    #[trigger] cands@[j],
                    vendor_id,
                    product_id,
                ) && live@[j]),
        decreases cands@.len() + 1 - from,
    {
        match next_candidate(cands, vendor_id, product_id, from) {
            OpenStep::Probe(i) => {
                if live[i] {
                    return Ok(i);
                }
                from = i + 1;
            },
            OpenStep::Fail(e) => {
                return Err(e);
            },
        }
    }
    Err(DeviceError::SessionOpenFailed)
}

fn contains_pid(pids: &Vec<u16>, pid: u16) -> (r: bool)
    ensures
        r == pids@.contains(pid),
{
    let mut i: usize = 0;
    while i < pids.len()
        invariant
            i <= pids@.len(),
            forall|j: int| 0 <= j < i ==> pids@[j] != pid,
        decreases pids@.len() - i,
    {
        if pids[i] == pid {
            return true;
        }
        i = i + 1;
    }
    false
}

/// The distinct product ids of the interfaces under `vendor_id`.
pub fn product_ids(cands: &[InterfaceInfo], vendor_id: u16) -> (r: Vec<u16>)
    ensures
        lists_product_ids(r@, cands@, vendor_id),
{
    let mut pids: Vec<u16> = Vec::new();
    let ghost mut seen_at: Seq<int> = Seq::empty();
    let mut i: usize = 0;
    while i < cands.len()
        invariant
            i <= cands@.len(),
            pids@.no_duplicates(),
            seen_at.len() == pids@.len(),
            forall|k: int|
                0 <= k < pids@.len() ==> 0 <= #[trigger] seen_at[k] < i && is_target(
                    cands@[seen_at[k]],
                    vendor_id,
                    pids@[k],
                ),
            forall|j: int|
                0 <= j < i && (#[trigger] cands@[j]).vendor_id == vendor_id ==> pids@.contains(
                    cands@[j].product_id,
                ),
        decreases cands@.len() - i,
    {
        let c = cands[i];
        if c.vendor_id == vendor_id && !contains_pid(&pids, c.product_id) {
            let ghost before = pids@;
            pids.push(c.product_id);
            proof {
                seen_at = seen_at.push(i as int);
            }
            assert forall|j: int|
                0 <= j < i + 1 && (#[trigger] cands@[j]).vendor_id == vendor_id implies pids@.contains(
                cands@[j].product_id,
            ) by {
                if j < i {
                    assert(before.contains(cands@[j].product_id));
                    let k = choose|k: int| 0 <= k < before.len() && before[k] == cands@[j].product_id;
                    assert(pids@[k] == before[k]);
                } else {
                    assert(pids@[before.len() as int] == cands@[j].product_id);
                }
            }
        }
        i = i + 1;
    }
    assert forall|k: int| 0 <= k < pids@.len() implies pid_seen(
        cands@,
        vendor_id,
        #[trigger] pids@[k],
    ) by {
        assert(is_target(cands@[seen_at[k]], vendor_id, pids@[k]));
    }
    pids
}

/// Opening where no interface carries the target vendor and product id,
/// in particular on a host that shows none at all, fails with
/// `VendorDeviceAbsent`; where such interfaces exist but none of them opens
/// and accepts the probe, it fails with `SessionOpenFailed`.
pub proof fn lemma_open_failure_kinds(cands: Seq<InterfaceInfo>, vendor_id: u16, product_id: u16)
    ensures
        cands.len() == 0 ==> open_error(cands, vendor_id, product_id)
            == DeviceError::VendorDeviceAbsent,
        !pid_seen(cands, vendor_id, product_id) ==> open_error(cands, vendor_id, product_id)
            == DeviceError::VendorDeviceAbsent,
        pid_seen(cands, vendor_id, product_id) ==> open_error(cands, vendor_id, product_id)
            == DeviceError::SessionOpenFailed,
{
}

} // verus!
