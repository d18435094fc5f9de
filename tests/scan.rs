use ap_onboard::codec::parse_tlv_response;
use ap_onboard::scan::{add_unique, collect_devices, Datagram};

fn answer(mac_last: u8, model: &[u8], source: &str) -> Datagram {
    let mut data = vec![1, 0, 0, 0, 0x01, 0x00, 0x06, 0xAA, 0xBB, 0xCC, 0xDD, 0xEE, mac_last];
    data.extend_from_slice(&[0x14, 0x00, model.len() as u8]);
    data.extend_from_slice(model);
    Datagram { data, source: source.to_string() }
}

#[test]
fn duplicate_answer_keeps_the_first_source() {
    let r = collect_devices(&[answer(0xFF, b"AP1", "192.168.1.20"), answer(0xFF, b"AP2", "10.0.0.1")]);
    assert_eq!(r.len(), 1);
    assert_eq!(r[0].ip, "192.168.1.20");
    assert_eq!(r[0].model, "AP1");
}

#[test]
fn distinct_devices_are_kept_in_order() {
    let noise = Datagram { data: vec![1, 0, 0, 0, 0x14, 0, 1, b'x'], source: "1.1.1.1".to_string() };
    let r = collect_devices(&[
        answer(0x02, b"B", "10.0.0.2"),
        noise,
        answer(0x01, b"A", "10.0.0.1"),
        answer(0x02, b"C", "10.0.0.3"),
    ]);
    assert_eq!(r.len(), 2);
    assert_eq!(r[0].mac, "AA:BB:CC:DD:EE:02");
    assert_eq!(r[0].model, "B");
    assert_eq!(r[1].mac, "AA:BB:CC:DD:EE:01");
}

#[test]
fn empty_scan_has_no_devices() {
    assert!(collect_devices(&[]).is_empty());
}

#[test]
fn add_unique_reports_whether_it_added() {
    let a = answer(0x05, b"A", "10.0.0.1");
    let b = answer(0x05, b"B", "10.0.0.2");
    let mut devices = Vec::new();
    assert!(add_unique(&mut devices, parse_tlv_response(&a.data, &a.source).unwrap()));
    assert!(!add_unique(&mut devices, parse_tlv_response(&b.data, &b.source).unwrap()));
    assert_eq!(devices.len(), 1);
    assert_eq!(devices[0].ip, "10.0.0.1");
}
