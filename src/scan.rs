//! Collection of discovery responses into a list of distinct devices.
use crate::codec::{decode_spec, parse_tlv_response, DeviceView, DiscoveredDevice};
use vstd::prelude::*;

verus! {

/// One datagram received during a scan, with the address it came from.
pub struct Datagram {
    pub data: Vec<u8>,
    pub source: String,
}

impl View for Datagram {
    type V = (Seq<u8>, Seq<char>);

    open spec fn view(&self) -> (Seq<u8>, Seq<char>) {
        (self.data@, self.source@)
    }
}

/// The records of a list of devices.
pub open spec fn views(devices: Seq<DiscoveredDevice>) -> Seq<DeviceView> {
    devices.map_values(|d: DiscoveredDevice| d@)
}

/// Whether some record of `devs` has the hardware address `mac`.
pub open spec fn has_mac(devs: Seq<DeviceView>, mac: Seq<char>) -> bool {
    exists|i: int| 0 <= i < devs.len() && devs[i].mac == mac
}

/// `devs` with `d` added at the end, unless a record with its address is there.
pub open spec fn add_unique_spec(devs: Seq<DeviceView>, d: DeviceView) -> Seq<DeviceView> {
    if has_mac(devs, d.mac) {
        devs
    } else {
        devs.push(d)
    }
}

/// The devices that a scan receiving `responses`, in order, reports.
pub open spec fn scan_result(responses: Seq<(Seq<u8>, Seq<char>)>) -> Seq<DeviceView>
    decreases responses.len(),
{
    if responses.len() == 0 {
        seq![]
    } else {
        let prev = scan_result(responses.drop_last());
        let last = responses.last();
        match decode_spec(last.0, last.1) {
            Some(d) => add_unique_spec(prev, d),
            None => prev,
        }
    }
}

/// Whether no two records of `devs` share a hardware address.
pub open spec fn distinct_macs(devs: Seq<DeviceView>) -> bool {
    forall|i: int, j: int| 0 <= i < j < devs.len() ==> devs[i].mac != devs[j].mac
}

/// Adds `device` to `devices` unless a device with the same hardware address
/// is already there; the first one seen is kept. Returns whether it was added.
pub fn add_unique(devices: &mut Vec<DiscoveredDevice>, device: DiscoveredDevice) -> (added: bool)
    ensures
        added == !has_mac(views(old(devices)@), device@.mac),
        views(final(devices)@) == add_unique_spec(views(old(devices)@), device@),
{
    let mut i: usize = 0;
    while i < devices.len()
        invariant
            i <= devices@.len(),
            forall|k: int| 0 <= k < i ==> devices@[k].mac@ != device.mac@,
        decreases devices@.len() - i,
    {
        if devices[i].mac == device.mac {
            assert(views(devices@)[i as int].mac == device@.mac);
            return false;
        }
        i = i + 1;
    }
    let ghost before = devices@;
    devices.push(device);
    assert(views(devices@) =~= views(before).push(device@));
    true
}

/// Decodes the datagrams of a scan, in the order received, and keeps one
/// device per hardware address: the first that answered. Datagrams that
/// name no hardware address are dropped.
pub fn collect_devices(responses: &[Datagram]) -> (r: Vec<DiscoveredDevice>)
    ensures
        views(r@) == scan_result(responses@.map_values(|g: Datagram| g@)),
{
    let ghost all = responses@.map_values(|g: Datagram| g@);
    let mut devices: Vec<DiscoveredDevice> = Vec::new();
    let mut i: usize = 0;
    assert(views(devices@) =~= scan_result(all.take(0)));
    while i < responses.len()
        invariant
            i <= responses@.len(),
            all == responses@.map_values(|g: Datagram| g@),
            views(devices@) == scan_result(all.take(i as int)),
        decreases responses@.len() - i,
    {
        let g = &responses[i];
        assert(all.take(i as int + 1).drop_last() =~= all.take(i as int));
        match parse_tlv_response(g.data.as_slice(), g.source.as_str()) {
            Some(dev) => {
                add_unique(&mut devices, dev);
            },
            None => {},
        }
        i = i + 1;
    }
    assert(all.take(responses@.len() as int) =~= all);
    devices
}

/// A scan never reports two devices with the same hardware address.
pub proof fn lemma_scan_macs_distinct(responses: Seq<(Seq<u8>, Seq<char>)>)
    ensures
        distinct_macs(scan_result(responses)),
    decreases responses.len(),
{
    if responses.len() > 0 {
        lemma_scan_macs_distinct(responses.drop_last());
    }
}

/// Every device a scan reports is the decode of one of the answers received,
/// and its reachable address is the source that answer came from, never an
/// address the answer reports of itself.
pub proof fn lemma_scan_devices_from_sources(responses: Seq<(Seq<u8>, Seq<char>)>, i: int)
    requires
        0 <= i < scan_result(responses).len(),
    ensures
        exists|j: int|
            0 <= j < responses.len() && decode_spec(responses[j].0, responses[j].1) == Some(
                scan_result(responses)[i],
            ) && scan_result(responses)[i].ip == responses[j].1,
    decreases responses.len(),
{
    let prev = responses.drop_last();
    let last = responses.last();
    let r = scan_result(responses);
    if i < scan_result(prev).len() {
        assert(r[i] == scan_result(prev)[i]);
        lemma_scan_devices_from_sources(prev, i);
        let j = choose|j: int|
            0 <= j < prev.len() && decode_spec(prev[j].0, prev[j].1) == Some(scan_result(prev)[i])
                && scan_result(prev)[i].ip == prev[j].1;
        assert(responses[j] == prev[j]);
    } else {
        let j = responses.len() - 1;
        assert(decode_spec(last.0, last.1) == Some(r[i]));
        crate::codec::lemma_decoded_ip(last.0, last.1);
        assert(responses[j] == last);
    }
}

/// Two answers with the same hardware address, from two sources, give one
/// device: the first answer's, with the first source as its reachable address.
pub proof fn lemma_duplicate_answer_keeps_first(
    first: (Seq<u8>, Seq<char>),
    second: (Seq<u8>, Seq<char>),
)
    requires
        decode_spec(first.0, first.1) is Some,
        decode_spec(second.0, second.1) is Some,
        decode_spec(first.0, first.1)->0.mac == decode_spec(second.0, second.1)->0.mac,
    ensures
        scan_result(seq![first, second]) == seq![decode_spec(first.0, first.1)->0],
        scan_result(seq![first, second])[0].ip == first.1,
{
    let both = seq![first, second];
    assert(both.drop_last() =~= seq![first]);
    assert(seq![first].drop_last() =~= Seq::<(Seq<u8>, Seq<char>)>::empty());
    let d = decode_spec(first.0, first.1)->0;
    let none = Seq::<(Seq<u8>, Seq<char>)>::empty();
    assert(scan_result(none) == Seq::<DeviceView>::empty());
    assert(seq![first].last() == first);
    assert(!has_mac(Seq::<DeviceView>::empty(), d.mac));
    assert(Seq::<DeviceView>::empty().push(d) =~= seq![d]);
    assert(scan_result(seq![first]) =~= seq![d]);
    assert(seq![d][0].mac == decode_spec(second.0, second.1)->0.mac);
    assert(has_mac(seq![d], decode_spec(second.0, second.1)->0.mac));
    assert(both.last() == second);
    crate::codec::lemma_decoded_ip(first.0, first.1);
}

} // verus!
