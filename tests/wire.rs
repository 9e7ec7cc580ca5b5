use oping::wire::{c_string, read_i32, read_text, read_u32, read_u64, write_i32, write_u64};
use oping::item::push_record;
use oping::{AddrFamily, ByteOrder, FamilyCodes, Field, PingItem, PingOption};

#[test]
fn reads_numbers_in_both_orders() {
    let b = vec![0x01u8, 0x02, 0x03, 0x04];
    assert_eq!(read_u32(&b, ByteOrder::Little), 0x0403_0201);
    assert_eq!(read_u32(&b, ByteOrder::Big), 0x0102_0304);
    let m = vec![0xffu8, 0xff, 0xff, 0xff];
    assert_eq!(read_i32(&m, ByteOrder::Little), -1);
    let n = vec![0x00u8, 0x00, 0x00, 0x80];
    assert_eq!(read_i32(&n, ByteOrder::Little), i32::MIN);
    let w = vec![1u8, 0, 0, 0, 0, 0, 0, 0x80];
    assert_eq!(read_u64(&w, ByteOrder::Little), 0x8000_0000_0000_0001);
    assert_eq!(read_u64(&w, ByteOrder::Big), 0x0100_0000_0000_0080);
}

#[test]
fn writes_numbers_in_both_orders() {
    assert_eq!(write_i32(-2, ByteOrder::Little), vec![0xfe, 0xff, 0xff, 0xff]);
    assert_eq!(write_i32(42, ByteOrder::Big), vec![0, 0, 0, 42]);
    assert_eq!(write_u64(5.0f64.to_bits(), ByteOrder::Little), 5.0f64.to_bits().to_le_bytes().to_vec());
    assert_eq!(write_u64(5.0f64.to_bits(), ByteOrder::Big), 5.0f64.to_bits().to_be_bytes().to_vec());
}

#[test]
fn native_order_matches_the_machine() {
    let expected = if 1u16.to_ne_bytes()[0] == 1 { ByteOrder::Little } else { ByteOrder::Big };
    assert_eq!(ByteOrder::native(), expected);
}

#[test]
fn text_stops_at_nul() {
    let mut b = b"localhost".to_vec();
    b.extend_from_slice(&[0, b'x', b'y']);
    assert_eq!(read_text(&b), Some(String::from("localhost")));
    assert_eq!(read_text(&b"no terminator".to_vec()), Some(String::from("no terminator")));
    assert_eq!(read_text(&vec![0u8, b'a']), Some(String::new()));
    assert_eq!(read_text(&vec![0xffu8, 0xfe, 0]), None);
}

#[test]
fn host_names_get_a_terminator() {
    assert_eq!(c_string("::1"), Some(vec![b':', b':', b'1', 0]));
    assert_eq!(c_string(""), Some(vec![0]));
    assert_eq!(c_string("a\0b"), None);
}

#[test]
fn family_codes_come_from_the_platform() {
    let c = FamilyCodes::native();
    assert_eq!(c.inet, libc::AF_INET);
    assert_eq!(c.inet6, libc::AF_INET6);
    assert_eq!(c.family_of(c.code_of(AddrFamily::IPV6)), AddrFamily::IPV6);
    assert_eq!(c.family_of(c.code_of(AddrFamily::IPV4)), AddrFamily::IPV4);
    assert_eq!(c.family_of(12345), AddrFamily::IPV4);
    assert_eq!(AddrFamily::default(), AddrFamily::IPV4);
}

#[test]
fn tags_match_the_engine() {
    assert_eq!(PingOption::Timeout.code(), 1);
    assert_eq!(PingOption::Af.code(), 4);
    assert_eq!(PingOption::Qos.code(), 64);
    assert_eq!(Field::Dropped.code(), 9);
    assert_eq!(Field::RecvQos.code(), 11);
}

fn record() -> Vec<Vec<u8>> {
    vec![
        b"example.org\0".to_vec(),
        b"93.184.216.34\0".to_vec(),
        vec![10, 0, 0, 0],
        1.5f64.to_bits().to_le_bytes().to_vec(),
        vec![0, 0, 0, 0],
        vec![7, 0, 0, 0],
        vec![0xff, 0xff, 0xff, 0xff],
        vec![0x2e],
    ]
}

#[test]
fn record_from_fields() {
    let codes = FamilyCodes { inet: 2, inet6: 10 };
    let item = PingItem::from_fields(&record(), &codes, ByteOrder::Little).unwrap();
    assert_eq!(item.hostname, "example.org");
    assert_eq!(item.address, "93.184.216.34");
    assert_eq!(item.family, AddrFamily::IPV6);
    assert_eq!(f64::from_bits(item.latency_bits), 1.5);
    assert_eq!(item.dropped, 0);
    assert_eq!(item.seq, 7);
    assert_eq!(item.recv_ttl, -1);
    assert_eq!(item.recv_qos, 0x2e);
}

#[test]
fn short_or_missing_fields_give_no_record() {
    let codes = FamilyCodes { inet: 2, inet6: 10 };
    let mut short = record();
    short[3] = vec![0, 0, 0, 0];
    assert!(PingItem::from_fields(&short, &codes, ByteOrder::Little).is_none());
    let mut missing = record();
    missing.pop();
    assert!(PingItem::from_fields(&missing, &codes, ByteOrder::Little).is_none());
    let mut bad_text = record();
    bad_text[0] = vec![0xc3, 0x28, 0];
    assert!(PingItem::from_fields(&bad_text, &codes, ByteOrder::Little).is_none());
}

#[test]
fn push_record_keeps_only_readable_records_under_the_limit() {
    let codes = FamilyCodes { inet: 2, inet6: 10 };
    let mut results: Vec<PingItem> = Vec::new();
    assert!(push_record(&mut results, Some(record()), &codes, ByteOrder::Little, 2));
    assert_eq!(results.len(), 1);
    assert_eq!(results[0].hostname, "example.org");
    assert!(!push_record(&mut results, None, &codes, ByteOrder::Little, 2));
    let mut short = record();
    short[7] = Vec::new();
    assert!(!push_record(&mut results, Some(short), &codes, ByteOrder::Little, 2));
    assert_eq!(results.len(), 1);
    assert!(push_record(&mut results, Some(record()), &codes, ByteOrder::Little, 2));
    assert!(!push_record(&mut results, Some(record()), &codes, ByteOrder::Little, 2));
    assert_eq!(results.len(), 2);
}
