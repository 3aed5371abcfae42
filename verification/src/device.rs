//! Device acquisition: matching the fixed vendor/product identity among the
//! attached devices and discovering the bulk endpoints of the matching one.
//!
//! The raw enumeration comes from the USB stack; the decisions made over it
//! live here. A device descriptor is reduced to its identity pair, an
//! endpoint descriptor to its address, transfer kind and direction.

use vstd::prelude::*;

verus! {

/// Vendor identity of the device this bridge drives.
pub const SWITCH_VENDOR_ID: u16 = 0x057E;

/// Product identity of the device this bridge drives.
pub const SWITCH_PRODUCT_ID: u16 = 0x3000;

/// The (vendor, product) identity pair of one attached device.
#[derive(Clone, Copy, Debug, PartialEq, Eq, Structural)]
pub struct DeviceIdentity {
    pub vendor_id: u16,
    pub product_id: u16,
}

/// The transfer kind an endpoint descriptor announces.
#[derive(Clone, Copy, Debug, PartialEq, Eq, Structural)]
pub enum TransferKind {
    Control,
    Isochronous,
    Bulk,
    Interrupt,
}

/// The direction an endpoint descriptor announces.
#[derive(Clone, Copy, Debug, PartialEq, Eq, Structural)]
pub enum EndpointDirection {
    In,
    Out,
}

/// One endpoint descriptor, reduced to what endpoint discovery reads.
#[derive(Clone, Copy, Debug, PartialEq, Eq, Structural)]
pub struct EndpointDesc {
    pub address: u8,
    pub kind: TransferKind,
    pub direction: EndpointDirection,
}

/// The two discovered endpoint addresses of a connection.
#[derive(Clone, Copy, Debug, PartialEq, Eq, Structural)]
pub struct EndpointPair {
    pub endpoint_in: u8,
    pub endpoint_out: u8,
}

/// Why a connection attempt failed. All of these are fatal to the attempt
/// and surfaced to the outer retry loop, never to a remote peer.
#[derive(Clone, Copy, Debug, PartialEq, Eq, Structural)]
pub enum ConnectError {
    DeviceNotFound,
    NoInterface,
    NoInterfaceDescriptor,
    NoInEndpoint,
    NoOutEndpoint,
    Transport,
}

/// Whether an endpoint is a bulk endpoint of the given direction.
pub open spec fn spec_is_bulk(e: EndpointDesc, dir: EndpointDirection) -> bool {
    e.kind == TransferKind::Bulk && e.direction == dir
}

/// The address of the first bulk endpoint of the given direction, scanning
/// the descriptors in order; `None` when there is none.
pub open spec fn spec_first_bulk(s: Seq<EndpointDesc>, dir: EndpointDirection) -> Option<u8>
    decreases s.len(),
{
    if s.len() == 0 {
        None
    } else if spec_is_bulk(s[0], dir) {
        Some(s[0].address)
    } else {
        spec_first_bulk(s.skip(1), dir)
    }
}

/// Appending a descriptor changes the first bulk address only when none was
/// found before it.
proof fn lemma_first_bulk_push(s: Seq<EndpointDesc>, e: EndpointDesc, dir: EndpointDirection)
    ensures
        spec_first_bulk(s.push(e), dir) == (if spec_first_bulk(s, dir) is Some {
            spec_first_bulk(s, dir)
        } else if spec_is_bulk(e, dir) {
            Some(e.address)
        } else {
            None
        }),
    decreases s.len(),
{
    let t = s.push(e);
    if s.len() == 0 {
        assert(t[0] == e);
        assert(t.skip(1) =~= Seq::<EndpointDesc>::empty());
        if !spec_is_bulk(e, dir) {
            assert(spec_first_bulk(t, dir) == spec_first_bulk(t.skip(1), dir));
            assert(spec_first_bulk(Seq::<EndpointDesc>::empty(), dir) == None::<u8>);
        }
        assert(spec_first_bulk(s, dir) == None::<u8>);
    } else {
        assert(t[0] == s[0]);
        assert(t.skip(1) =~= s.skip(1).push(e));
        lemma_first_bulk_push(s.skip(1), e, dir);
        if !spec_is_bulk(s[0], dir) {
            assert(spec_first_bulk(t, dir) == spec_first_bulk(s.skip(1).push(e), dir));
            assert(spec_first_bulk(s, dir) == spec_first_bulk(s.skip(1), dir));
        }
    }
}

/// Once a prefix of the scan has found a bulk endpoint of a direction, the
/// whole scan finds the same one: discovery may stop early.
proof fn lemma_first_bulk_prefix(s: Seq<EndpointDesc>, i: int, dir: EndpointDirection)
    requires
        0 <= i <= s.len(),
        spec_first_bulk(s.take(i), dir) is Some,
    ensures
        spec_first_bulk(s, dir) == spec_first_bulk(s.take(i), dir),
    decreases s.len(),
{
    assert(i != 0) by {
        assert(s.take(0) =~= Seq::<EndpointDesc>::empty());
    }
    assert(s.take(i)[0] == s[0]);
    if spec_is_bulk(s[0], dir) {
    } else {
        assert(s.take(i).skip(1) =~= s.skip(1).take(i - 1));
        lemma_first_bulk_prefix(s.skip(1), i - 1, dir);
    }
}

/// True exactly when a device's identity matches the fixed vendor/product
/// pair the bridge looks for.
pub fn device_matches(id: DeviceIdentity) -> (r: bool)
    ensures
        r == (id.vendor_id == SWITCH_VENDOR_ID && id.product_id == SWITCH_PRODUCT_ID),
{
    id.vendor_id == SWITCH_VENDOR_ID && id.product_id == SWITCH_PRODUCT_ID
}

/// Finds the first attached device whose identity matches the fixed pair,
/// returning its position in the enumeration; `None` when no attached device
/// matches, which the caller reports as `ConnectError::DeviceNotFound`.
pub fn find_switch_device(devices: &Vec<DeviceIdentity>) -> (r: Option<usize>)
    ensures
        match r {
            Some(i) => {
                &&& i < devices@.len()
                &&& devices@[i as int].vendor_id == SWITCH_VENDOR_ID
                &&& devices@[i as int].product_id == SWITCH_PRODUCT_ID
                &&& forall|j: int|
                    0 <= j < i ==> !(devices@[j].vendor_id == SWITCH_VENDOR_ID && devices@[j].product_id
                        == SWITCH_PRODUCT_ID)
            },
            None => forall|j: int|
                0 <= j < devices@.len() ==> !(devices@[j].vendor_id == SWITCH_VENDOR_ID
                    && devices@[j].product_id == SWITCH_PRODUCT_ID),
        },
{
    let mut i: usize = 0;
    while i < devices.len()
        invariant
            i <= devices@.len(),
            forall|j: int|
                0 <= j < i ==> !(devices@[j].vendor_id == SWITCH_VENDOR_ID && devices@[j].product_id
                    == SWITCH_PRODUCT_ID),
        decreases devices@.len() - i,
    {
        if device_matches(devices[i]) {
            return Some(i);
        }
        i = i + 1;
    }
    None
}

/// Scans an interface descriptor's endpoint descriptors in order, recording
/// the first bulk endpoint seen in each direction, and stops as soon as both
/// directions are found. Fails naming the missing direction, the missing IN
/// endpoint taking precedence, exactly when the scan finds no bulk endpoint
/// of that direction.
pub fn select_endpoints(endpoints: &Vec<EndpointDesc>) -> (r: Result<EndpointPair, ConnectError>)
    ensures
        match r {
            Ok(p) => {
                &&& spec_first_bulk(endpoints@, EndpointDirection::In) == Some(p.endpoint_in)
                &&& spec_first_bulk(endpoints@, EndpointDirection::Out) == Some(p.endpoint_out)
            },
            Err(e) => {
                ||| (e == ConnectError::NoInEndpoint && spec_first_bulk(
                    endpoints@,
                    EndpointDirection::In,
                ) is None)
                ||| (e == ConnectError::NoOutEndpoint && spec_first_bulk(
                    endpoints@,
                    EndpointDirection::In,
                ) is Some && spec_first_bulk(endpoints@, EndpointDirection::Out) is None)
            },
        },
{
    let mut endpoint_in: Option<u8> = None;
    let mut endpoint_out: Option<u8> = None;
    let mut i: usize = 0;
    while i < endpoints.len()
        invariant
            i <= endpoints@.len(),
            endpoint_in == spec_first_bulk(endpoints@.take(i as int), EndpointDirection::In),
            endpoint_out == spec_first_bulk(endpoints@.take(i as int), EndpointDirection::Out),
            endpoint_in is None || endpoint_out is None,
        decreases endpoints@.len() - i,
    {
        let e = endpoints[i];
        proof {
            assert(endpoints@.take(i + 1) =~= endpoints@.take(i as int).push(endpoints@[i as int]));
            lemma_first_bulk_push(endpoints@.take(i as int), endpoints@[i as int], EndpointDirection::In);
            lemma_first_bulk_push(endpoints@.take(i as int), endpoints@[i as int], EndpointDirection::Out);
        }
        if matches!(e.kind, TransferKind::Bulk) {
            match e.direction {
                EndpointDirection::In => {
                    if endpoint_in.is_none() {
                        endpoint_in = Some(e.address);
                    }
                },
                EndpointDirection::Out => {
                    if endpoint_out.is_none() {
                        endpoint_out = Some(e.address);
                    }
                },
            }
        }
        i = i + 1;
        if endpoint_in.is_some() && endpoint_out.is_some() {
            proof {
                lemma_first_bulk_prefix(endpoints@, i as int, EndpointDirection::In);
                lemma_first_bulk_prefix(endpoints@, i as int, EndpointDirection::Out);
            }
            return Ok(
                EndpointPair {
                    endpoint_in: endpoint_in.unwrap(),
                    endpoint_out: endpoint_out.unwrap(),
                },
            );
        }
    }
    proof {
        assert(endpoints@.take(endpoints@.len() as int) =~= endpoints@);
    }
    if endpoint_in.is_none() {
        Err(ConnectError::NoInEndpoint)
    } else {
        Err(ConnectError::NoOutEndpoint)
    }
}

} // verus!
