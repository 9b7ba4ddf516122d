use librazer::descriptor::{find, find_index, Descriptor};
use librazer::error::DeviceError;
use librazer::identify::{accept_sku, detect, enumerate, read_device_model};
use librazer::transport::InterfaceInfo;

fn desc(prefix: &str, name: &str, pid: u16) -> Descriptor {
    Descriptor {
        model_number_prefix: prefix.to_string(),
        name: name.to_string(),
        pid,
        features: vec!["fan".to_string(), "perf".to_string()],
    }
}

fn razer(pid: u16) -> InterfaceInfo {
    InterfaceInfo { vendor_id: 0x1532, product_id: pid }
}

#[test]
fn find_takes_the_first_matching_prefix() {
    let table = vec![desc("RZ09-04", "short", 1), desc("RZ09-041", "long", 2)];
    assert_eq!(find_index(&table, "RZ09-0410"), Some(0));
    assert_eq!(find(&table, "RZ09-0410").map(|d| d.pid), Some(1));
    let reversed = vec![desc("RZ09-041", "long", 2), desc("RZ09-04", "short", 1)];
    assert_eq!(find_index(&reversed, "RZ09-0410"), Some(0));
    assert_eq!(find_index(&reversed, "RZ09-0420"), Some(1));
}

#[test]
fn find_without_match_is_none() {
    let table = vec![desc("RZ09-04", "a", 1), desc("RZ09-05", "b", 2)];
    assert!(find(&table, "RZ09-06").is_none());
    assert!(find(&table, "RZ09-0").is_none());
    assert!(find(&[], "RZ09-0410").is_none());
}

#[test]
fn manual_descriptor_is_unknown() {
    let d = Descriptor::manual(0xabcd, vec!["fan".to_string()]);
    assert_eq!(d.model_number_prefix, "Unknown");
    assert_eq!(d.name, "Unknown");
    assert_eq!(d.pid, 0xabcd);
    assert_eq!(d.features, vec!["fan".to_string()]);
}

#[test]
fn detect_selects_the_matching_descriptor() {
    let table = vec![desc("RZ09-03", "older", 0x0270), desc("RZ09-04", "blade", 0x029f)];
    let cands = vec![razer(0x029f)];
    let d = detect(&table, &cands, Ok("RZ09-0410".to_string())).unwrap();
    assert_eq!(d.name, "blade");
    assert_eq!(d.pid, 0x029f);
}

#[test]
fn detect_rejects_other_models() {
    let table = vec![desc("RZ09-04", "blade", 0x029f)];
    let cands = vec![razer(0x029f)];
    assert_eq!(
        detect(&table, &cands, Ok("RZ08-0001".to_string())).map(|d| d.pid),
        Err(DeviceError::ModelNotRecognized)
    );
    assert_eq!(
        detect(&table, &cands, Ok("RZ09-0510".to_string())).map(|d| d.pid),
        Err(DeviceError::ModelNotRecognized)
    );
}

#[test]
fn detect_passes_enumeration_errors_on() {
    let table = vec![desc("RZ09-04", "blade", 0x029f)];
    assert_eq!(
        detect(&table, &[], Ok("RZ09-0410".to_string())).map(|d| d.pid),
        Err(DeviceError::VendorDeviceAbsent)
    );
    assert_eq!(
        detect(&table, &[razer(1)], Err(DeviceError::PlatformUnsupported)).map(|d| d.pid),
        Err(DeviceError::PlatformUnsupported)
    );
}

#[test]
fn enumerate_lists_product_ids_and_model() {
    let cands = vec![razer(0x029f), InterfaceInfo { vendor_id: 0x046d, product_id: 5 }, razer(0x029f)];
    assert_eq!(
        enumerate(&cands, Ok("RZ09-0410".to_string())),
        Ok((vec![0x029f], "RZ09-0410".to_string()))
    );
}

#[test]
fn enumerate_errors() {
    assert_eq!(enumerate(&[], Ok("RZ09-0410".to_string())), Err(DeviceError::VendorDeviceAbsent));
    let other = vec![InterfaceInfo { vendor_id: 0x046d, product_id: 5 }];
    assert_eq!(enumerate(&other, Ok("RZ09-0410".to_string())), Err(DeviceError::VendorDeviceAbsent));
    assert_eq!(enumerate(&[razer(1)], Err(DeviceError::ModelUnreadable)), Err(DeviceError::ModelUnreadable));
    assert_eq!(enumerate(&[razer(1)], Ok("RZ08-0001".to_string())), Err(DeviceError::ModelNotRecognized));
}

#[test]
fn read_device_model_trims_and_checks_prefix() {
    assert_eq!(read_device_model("  RZ09-0410\n"), Ok("RZ09-0410".to_string()));
    assert_eq!(read_device_model("RZ09-0410"), Ok("RZ09-0410".to_string()));
    assert_eq!(read_device_model("Default string\n"), Err(DeviceError::ModelNotRecognized));
    assert_eq!(read_device_model("\n"), Err(DeviceError::ModelUnreadable));
}

#[test]
fn accept_sku_checks_prefix() {
    assert_eq!(accept_sku("RZ01"), Ok("RZ01".to_string()));
    assert_eq!(accept_sku(" RZ01"), Err(DeviceError::ModelNotRecognized));
    assert_eq!(accept_sku("R"), Err(DeviceError::ModelNotRecognized));
    assert_eq!(accept_sku(""), Err(DeviceError::ModelUnreadable));
}
