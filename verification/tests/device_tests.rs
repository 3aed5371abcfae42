use switch_bridge::device::{
    device_matches, find_switch_device, select_endpoints, ConnectError, DeviceIdentity,
    EndpointDesc, EndpointDirection, EndpointPair, TransferKind, SWITCH_PRODUCT_ID,
    SWITCH_VENDOR_ID,
};

fn ep(address: u8, kind: TransferKind, direction: EndpointDirection) -> EndpointDesc {
    EndpointDesc { address, kind, direction }
}

#[test]
fn identity_match_is_exact() {
    assert!(device_matches(DeviceIdentity {
        vendor_id: SWITCH_VENDOR_ID,
        product_id: SWITCH_PRODUCT_ID,
    }));
    assert!(!device_matches(DeviceIdentity { vendor_id: 0x057E, product_id: 0x2000 }));
    assert!(!device_matches(DeviceIdentity { vendor_id: 0x1234, product_id: 0x3000 }));
}

#[test]
fn no_matching_device_in_enumeration() {
    // other devices present must not disturb the result: the lookup reports
    // nothing found, which the caller surfaces as DeviceNotFound
    let devices = vec![
        DeviceIdentity { vendor_id: 0x046D, product_id: 0xC52B },
        DeviceIdentity { vendor_id: 0x8087, product_id: 0x0024 },
    ];
    assert_eq!(find_switch_device(&devices), None);
    assert_eq!(find_switch_device(&Vec::new()), None);
}

#[test]
fn first_matching_device_wins() {
    let target = DeviceIdentity { vendor_id: SWITCH_VENDOR_ID, product_id: SWITCH_PRODUCT_ID };
    let other = DeviceIdentity { vendor_id: 0x046D, product_id: 0xC52B };
    assert_eq!(find_switch_device(&vec![other, target, target]), Some(1));
    assert_eq!(find_switch_device(&vec![target, other]), Some(0));
}

#[test]
fn both_bulk_endpoints_found() {
    let eps = vec![
        ep(0x01, TransferKind::Interrupt, EndpointDirection::In),
        ep(0x81, TransferKind::Bulk, EndpointDirection::In),
        ep(0x02, TransferKind::Bulk, EndpointDirection::Out),
    ];
    assert_eq!(
        select_endpoints(&eps),
        Ok(EndpointPair { endpoint_in: 0x81, endpoint_out: 0x02 })
    );
}

#[test]
fn first_bulk_endpoint_of_each_direction_wins() {
    let eps = vec![
        ep(0x81, TransferKind::Bulk, EndpointDirection::In),
        ep(0x82, TransferKind::Bulk, EndpointDirection::In),
        ep(0x01, TransferKind::Bulk, EndpointDirection::Out),
        ep(0x02, TransferKind::Bulk, EndpointDirection::Out),
    ];
    assert_eq!(
        select_endpoints(&eps),
        Ok(EndpointPair { endpoint_in: 0x81, endpoint_out: 0x01 })
    );
}

#[test]
fn non_bulk_endpoints_are_ignored() {
    let eps = vec![
        ep(0x81, TransferKind::Control, EndpointDirection::In),
        ep(0x82, TransferKind::Isochronous, EndpointDirection::In),
        ep(0x01, TransferKind::Interrupt, EndpointDirection::Out),
    ];
    assert_eq!(select_endpoints(&eps), Err(ConnectError::NoInEndpoint));
}

#[test]
fn missing_bulk_in_is_distinguished() {
    let eps = vec![ep(0x01, TransferKind::Bulk, EndpointDirection::Out)];
    assert_eq!(select_endpoints(&eps), Err(ConnectError::NoInEndpoint));
}

#[test]
fn missing_bulk_out_is_distinguished() {
    let eps = vec![ep(0x81, TransferKind::Bulk, EndpointDirection::In)];
    assert_eq!(select_endpoints(&eps), Err(ConnectError::NoOutEndpoint));
}

#[test]
fn empty_descriptor_list_misses_the_in_direction_first() {
    assert_eq!(select_endpoints(&Vec::new()), Err(ConnectError::NoInEndpoint));
}
