//! Recognising the machine: its model identifier, the product ids present,
//! and the matching descriptor.
use crate::descriptor::{find, is_first_match, is_prefix, no_match, starts_with, Descriptor};
use crate::error::DeviceError;
use crate::transport::{has_vendor, lists_product_ids, product_ids, InterfaceInfo, RAZER_VID};
use vstd::prelude::*;

verus! {

/// Every model identifier of the vendor starts with this.
pub open spec fn vendor_sku_prefix() -> Seq<char> {
    seq!['R', 'Z']
}

/// Every model identifier of the vendor's laptops starts with this.
pub open spec fn laptop_prefix() -> Seq<char> {
    seq!['R', 'Z', '0', '9', '-']
}

/// What `str::trim` makes of a string.
pub uninterp spec fn trimmed(s: Seq<char>) -> Seq<char>;

/// Relies on `str::trim`: the string without leading and trailing white
/// space, which depends on the characters alone.
#[verifier::external_body]
fn trim(s: &str) -> (r: &str)
    ensures
        r@ == trimmed(s@),
{
    s.trim()
}

/// Accepts an already trimmed product SKU as a model identifier when it
/// carries the vendor's prefix. An empty SKU is `ModelUnreadable`; one of
/// another vendor is `ModelNotRecognized`.
pub fn accept_sku(sku: &str) -> (r: Result<String, DeviceError>)
    ensures
        sku@.len() == 0 ==> r == Err::<String, DeviceError>(DeviceError::ModelUnreadable),
        is_prefix(vendor_sku_prefix(), sku@) ==> r is Ok && r->Ok_0@ == sku@,
        sku@.len() != 0 && !is_prefix(vendor_sku_prefix(), sku@) ==> r == Err::<
            String,
            DeviceError,
        >(DeviceError::ModelNotRecognized),
{
    if sku.is_empty() {
        return Err(DeviceError::ModelUnreadable);
    }
    let p = "RZ";
    proof {
        reveal_strlit("RZ");
    }
    assert(p@ == vendor_sku_prefix());
    if starts_with(sku, p) {
        Ok(sku.to_owned())
    } else {
        Err(DeviceError::ModelNotRecognized)
    }
}

/// The model identifier held in `raw`, the product SKU text as the firmware
/// reports it: the text without surrounding white space, which must carry
/// the vendor's prefix. Nothing but white space is `ModelUnreadable`; text of
/// another vendor is `ModelNotRecognized`.
pub fn read_device_model(raw: &str) -> (r: Result<String, DeviceError>)
    ensures
        trimmed(raw@).len() == 0 ==> r == Err::<String, DeviceError>(
            DeviceError::ModelUnreadable,
        ),
        is_prefix(vendor_sku_prefix(), trimmed(raw@)) ==> r is Ok && r->Ok_0@ == trimmed(raw@),
        trimmed(raw@).len() != 0 && !is_prefix(vendor_sku_prefix(), trimmed(raw@)) ==> r == Err::<
            String,
            DeviceError,
        >(DeviceError::ModelNotRecognized),
{
    accept_sku(trim(raw))
}

/// Why enumeration fails, if it does: no interface of the vendor, no model
/// identifier, or one that is not a laptop's.
pub open spec fn enumerate_error(cands: Seq<InterfaceInfo>, model: Result<String, DeviceError>) -> Option<
    DeviceError,
> {
    if !has_vendor(cands, RAZER_VID) {
        Some(DeviceError::VendorDeviceAbsent)
    } else if model is Err {
        Some(model->Err_0)
    } else if !is_prefix(laptop_prefix(), model->Ok_0@) {
        Some(DeviceError::ModelNotRecognized)
    } else {
        None
    }
}

/// The product ids present under the vendor id and the machine's model
/// identifier, given the host's interfaces and the outcome of reading the
/// identifier. Nothing here needs the model to be in a descriptor table.
pub fn enumerate(cands: &[InterfaceInfo], model: Result<String, DeviceError>) -> (r: Result<
    (Vec<u16>, String),
    DeviceError,
>)
    ensures
        enumerate_error(cands@, model) matches Some(e) ==> r == Err::<(Vec<u16>, String), DeviceError>(
            e,
        ),
        enumerate_error(cands@, model) is None ==> r is Ok && r->Ok_0.1@ == model->Ok_0@
            && lists_product_ids(r->Ok_0.0@, cands@, RAZER_VID),
{
    let pids = product_ids(cands, RAZER_VID);
    if pids.len() == 0 {
        assert(!has_vendor(cands@, RAZER_VID)) by {
            if has_vendor(cands@, RAZER_VID) {
                let j = choose|j: int| 0 <= j < cands@.len() && (#[trigger] cands@[j]).vendor_id == RAZER_VID;
                assert(pids@.contains(cands@[j].product_id));
            }
        }
        return Err(DeviceError::VendorDeviceAbsent);
    }
    assert(has_vendor(cands@, RAZER_VID)) by {
        assert(crate::transport::pid_seen(cands@, RAZER_VID, pids@[0]));
        let j = choose|j: int| 0 <= j < cands@.len() && #[trigger] crate::transport::is_target(cands@[j], RAZER_VID, pids@[0]);
        assert(cands@[j].vendor_id == RAZER_VID);
    }
    let m = match model {
        Ok(m) => m,
        Err(e) => {
            return Err(e);
        },
    };
    let p = "RZ09-";
    proof {
        reveal_strlit("RZ09-");
    }
    assert(p@ == laptop_prefix());
    if !starts_with(m.as_str(), p) {
        return Err(DeviceError::ModelNotRecognized);
    }
    Ok((pids, m))
}

/// The descriptor of the machine, chosen from `table` by its model
/// identifier: enumeration must succeed, and the first descriptor whose
/// prefix starts the identifier is taken. No match is `ModelNotRecognized`.
pub fn detect<'a>(
    table: &'a [Descriptor],
    cands: &[InterfaceInfo],
    model: Result<String, DeviceError>,
) -> (r: Result<&'a Descriptor, DeviceError>)
    ensures
        enumerate_error(cands@, model) matches Some(e) ==> r == Err::<&Descriptor, DeviceError>(
            e,
        ),
        enumerate_error(cands@, model) is None && no_match(table@, model->Ok_0@) ==> r == Err::<
            &Descriptor,
            DeviceError,
        >(DeviceError::ModelNotRecognized),
        enumerate_error(cands@, model) is None && !no_match(table@, model->Ok_0@) ==> r is Ok
            && exists|i: int| is_first_match(table@, model->Ok_0@, i) && *r->Ok_0 == table@[i],
{
    let (_pids, id) = enumerate(cands, model)?;
    match find(table, id.as_str()) {
        Some(d) => Ok(d),
        None => Err(DeviceError::ModelNotRecognized),
    }
}

} // verus!
