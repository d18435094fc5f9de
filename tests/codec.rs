use ap_onboard::codec::{encode_probe, format_ipv4, format_mac, is_probe, parse_tlv_response};

fn mac_record(mac: [u8; 6]) -> Vec<u8> {
    let mut v = vec![0x01, 0x00, 0x06];
    v.extend_from_slice(&mac);
    v
}

fn frame(records: &[Vec<u8>]) -> Vec<u8> {
    let mut v = vec![0x01, 0x00, 0x00, 0x00];
    for r in records {
        v.extend_from_slice(r);
    }
    v
}

#[test]
fn probe_is_the_four_fixed_bytes() {
    let p = encode_probe();
    assert_eq!(p, vec![0x01, 0x00, 0x00, 0x00]);
    assert!(is_probe(&p));
}

#[test]
fn other_bytes_are_not_the_probe() {
    assert!(!is_probe(&[0x01, 0x00, 0x00]));
    assert!(!is_probe(&[0x02, 0x00, 0x00, 0x00]));
    assert!(!is_probe(&[0x01, 0x00, 0x00, 0x00, 0x00]));
}

#[test]
fn decodes_mac_and_model_with_source_as_reported_address() {
    let data = vec![
        0, 0, 0, 0, 0x01, 0x00, 0x06, 0xAA, 0xBB, 0xCC, 0xDD, 0xEE, 0xFF, 0x14, 0x00, 0x03, b'A',
        b'P', b'1',
    ];
    let d = parse_tlv_response(&data, "192.168.1.20").unwrap();
    assert_eq!(d.mac, "AA:BB:CC:DD:EE:FF");
    assert_eq!(d.model, "AP1");
    assert_eq!(d.ip, "192.168.1.20");
    assert_eq!(d.reported_ip, "192.168.1.20");
    assert_eq!(d.firmware, "");
    assert_eq!(d.hostname, "");
    assert!(!d.is_managed);
}

#[test]
fn ip_info_sets_only_the_reported_address() {
    let ip = vec![0x02, 0x00, 0x0A, 0xAA, 0xBB, 0xCC, 0xDD, 0xEE, 0xFF, 203, 0, 113, 7];
    let data = frame(&[mac_record([1, 2, 3, 4, 5, 6]), ip]);
    let d = parse_tlv_response(&data, "10.0.0.5").unwrap();
    assert_eq!(d.mac, "01:02:03:04:05:06");
    assert_eq!(d.ip, "10.0.0.5");
    assert_eq!(d.reported_ip, "170.187.204.221");
}

#[test]
fn text_fields_and_managed_flag() {
    let data = frame(&[
        vec![0x03, 0x00, 0x05, b'4', b'.', b'3', b'.', b'2'],
        vec![0x0B, 0x00, 0x04, b'u', b'a', b'p', b'1'],
        vec![0x06, 0x00, 0x02, b'x', b'y'],
        mac_record([0x0a, 0xb0, 0, 0xff, 0x10, 0x01]),
    ]);
    let d = parse_tlv_response(&data, "10.0.0.9").unwrap();
    assert_eq!(d.firmware, "4.3.2");
    assert_eq!(d.hostname, "uap1");
    assert!(d.is_managed);
    assert_eq!(d.mac, "0A:B0:00:FF:10:01");
}

#[test]
fn invalid_utf8_text_is_replaced() {
    let data = frame(&[mac_record([1, 1, 1, 1, 1, 1]), vec![0x14, 0x00, 0x02, b'A', 0xFF]]);
    let d = parse_tlv_response(&data, "h").unwrap();
    assert_eq!(d.model, "A\u{FFFD}");
}

#[test]
fn unknown_records_are_skipped() {
    let data = frame(&[
        vec![0x7F, 0x00, 0x03, 0x01, 0x00, 0x06],
        mac_record([9, 8, 7, 6, 5, 4]),
        vec![0x33, 0x00, 0x00],
    ]);
    let d = parse_tlv_response(&data, "s").unwrap();
    assert_eq!(d.mac, "09:08:07:06:05:04");
    assert!(!d.is_managed);
}

#[test]
fn empty_record_at_the_very_end_is_read() {
    let data = frame(&[mac_record([1, 2, 3, 4, 5, 6]), vec![0x06, 0x00, 0x00]]);
    let d = parse_tlv_response(&data, "s").unwrap();
    assert!(d.is_managed);
}

#[test]
fn frame_without_mac_is_none() {
    let data = frame(&[vec![0x14, 0x00, 0x03, b'A', b'P', b'1']]);
    assert!(parse_tlv_response(&data, "s").is_none());
}

#[test]
fn mac_of_wrong_length_is_ignored() {
    let data = frame(&[vec![0x01, 0x00, 0x05, 1, 2, 3, 4, 5]]);
    assert!(parse_tlv_response(&data, "s").is_none());
}

#[test]
fn short_and_empty_frames_are_none() {
    assert!(parse_tlv_response(&[], "s").is_none());
    assert!(parse_tlv_response(&[1, 0, 0], "s").is_none());
    assert!(parse_tlv_response(&[1, 0, 0, 0], "s").is_none());
}

#[test]
fn record_running_past_the_end_stops_the_parse() {
    let data = frame(&[mac_record([1, 2, 3, 4, 5, 6]), vec![0x14, 0x00, 0x09, b'A', b'P']]);
    let d = parse_tlv_response(&data, "s").unwrap();
    assert_eq!(d.mac, "01:02:03:04:05:06");
    assert_eq!(d.model, "");
}

#[test]
fn every_truncation_keeps_only_whole_records() {
    let data = frame(&[
        vec![0x14, 0x00, 0x03, b'A', b'P', b'1'],
        mac_record([0xAA, 0xBB, 0xCC, 0xDD, 0xEE, 0xFF]),
        vec![0x0B, 0x00, 0x02, b'h', b'n'],
    ]);
    for k in 0..=data.len() {
        let r = parse_tlv_response(&data[..k], "s");
        if k < 19 {
            assert!(r.is_none(), "cut at {}", k);
        } else {
            let d = r.unwrap();
            assert_eq!(d.mac, "AA:BB:CC:DD:EE:FF");
            assert_eq!(d.model, "AP1");
            if k < data.len() {
                assert_eq!(d.hostname, "");
            } else {
                assert_eq!(d.hostname, "hn");
            }
        }
    }
}

#[test]
fn distinct_macs_give_distinct_texts() {
    let a = parse_tlv_response(&frame(&[mac_record([0x0A, 0, 0, 0, 0, 0])]), "s").unwrap();
    let b = parse_tlv_response(&frame(&[mac_record([0xA0, 0, 0, 0, 0, 0])]), "s").unwrap();
    let c = parse_tlv_response(&frame(&[mac_record([0x0A, 0, 0, 0, 0, 0])]), "t").unwrap();
    assert_ne!(a.mac, b.mac);
    assert_eq!(a.mac, c.mac);
}

#[test]
fn formats_addresses() {
    assert_eq!(format_mac(&[0, 0x1f, 0xa2, 0xff, 0x09, 0x90]), "00:1F:A2:FF:09:90");
    assert_eq!(format_ipv4(&[0, 9, 10, 255]), "0.9.10.255");
    assert_eq!(format_ipv4(&[100, 99, 1, 200, 5]), "100.99.1.200");
}
