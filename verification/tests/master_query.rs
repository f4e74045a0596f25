use vquery::master::{addr_text, paginate_step, Addr, Filter, Region, Reply, ServerQuery};
use vquery::Error;

fn addr(a: u8, b: u8, c: u8, d: u8, port: u16) -> Addr {
    Addr { a, b, c, d, port }
}

fn reply_datagram(addrs: &[Addr]) -> Vec<u8> {
    let mut v = vec![0xFFu8, 0xFF, 0xFF, 0xFF, 0x66, 0x0A];
    for x in addrs {
        v.extend_from_slice(&[x.a, x.b, x.c, x.d]);
        v.extend_from_slice(&x.port.to_be_bytes());
    }
    v
}

#[test]
fn region_codes_match_wire_values() {
    assert_eq!(Region::UsEastCost.code(), 0x00);
    assert_eq!(Region::UsWestCost.code(), 0x01);
    assert_eq!(Region::SouthAmerica.code(), 0x02);
    assert_eq!(Region::Europe.code(), 0x03);
    assert_eq!(Region::Asia.code(), 0x04);
    assert_eq!(Region::Australia.code(), 0x05);
    assert_eq!(Region::MiddleEast.code(), 0x06);
    assert_eq!(Region::Africa.code(), 0x07);
    assert_eq!(Region::All.code(), 0xFF);
}

#[test]
fn addr_text_renders_decimal() {
    assert_eq!(addr_text(&addr(0, 0, 0, 0, 0)), b"0.0.0.0:0".to_vec());
    assert_eq!(addr_text(&addr(1, 2, 3, 4, 27015)), b"1.2.3.4:27015".to_vec());
    assert_eq!(addr_text(&addr(255, 255, 255, 255, 65535)), b"255.255.255.255:65535".to_vec());
}

#[test]
fn packet_data_layout() {
    let data = ServerQuery::packet_data(0x03, b"\\dedicated\\1", b"0.0.0.0:0");
    let mut expected = vec![0x31u8, 0x03];
    expected.extend_from_slice(b"0.0.0.0:0");
    expected.push(0);
    expected.extend_from_slice(b"\\dedicated\\1");
    expected.push(0);
    assert_eq!(data, expected);
}

#[test]
fn filters_serialize_to_query_string() {
    let filters = vec![Filter::Dedicated, Filter::MapName(b"de_dust".to_vec())];
    let query = ServerQuery::new(Region::Europe, &filters);
    assert_eq!(query.region_code, 0x03);
    assert_eq!(query.filter, b"\\dedicated\\1\\map\\de_dust".to_vec());
}

#[test]
fn composite_filter_inlines_child_count() {
    let filters = vec![Filter::Nor(vec![
        Filter::Secure,
        Filter::GameDir(b"cstrike".to_vec()),
    ])];
    let query = ServerQuery::new(Region::All, &filters);
    assert_eq!(query.region_code, 0xFF);
    assert_eq!(query.filter, b"\\nor\\2\\secure\\1\\gamedir\\cstrike".to_vec());
}

#[test]
fn more_filter_atoms_serialize() {
    let filters = vec![
        Filter::NoPassword,
        Filter::NotEmpty,
        Filter::NotFull,
        Filter::Appid(b"440".to_vec()),
        Filter::GameAddr(addr(1, 2, 3, 4, 27015)),
    ];
    let query = ServerQuery::new(Region::Asia, &filters);
    assert_eq!(
        query.filter,
        b"\\password\\0\\empty\\1\\full\\1\\appid\\440\\gameaddr\\1.2.3.4:27015".to_vec()
    );
}

#[test]
fn request_bytes_carry_seed_text() {
    let query = ServerQuery::new(Region::Europe, &Vec::new());
    let data = query.request_bytes(&addr(1, 2, 3, 4, 27015));
    let mut expected = vec![0x31u8, 0x03];
    expected.extend_from_slice(b"1.2.3.4:27015");
    expected.push(0);
    expected.push(0);
    assert_eq!(data, expected);
}

#[test]
fn reply_parses_addresses() {
    let addrs = [addr(1, 2, 3, 4, 27015), addr(10, 20, 30, 40, 443)];
    let reply = Reply::parse(&reply_datagram(&addrs)).unwrap();
    assert_eq!(reply.addresses, addrs.to_vec());
}

#[test]
fn reply_big_endian_port() {
    let data = reply_datagram(&[addr(9, 8, 7, 6, 0x1234)]);
    assert_eq!(&data[10..12], &[0x12, 0x34]);
    let reply = Reply::parse(&data).unwrap();
    assert_eq!(reply.addresses[0].port, 0x1234);
}

#[test]
fn reply_without_magic_is_refused() {
    let data = [0xFFu8, 0xFF, 0xFF, 0xFF, 0x66, 0x0B, 1, 2, 3, 4, 0, 0];
    match Reply::parse(&data) {
        Err(Error::Parse(_)) => {}
        other => panic!("expected a parse error, got {:?}", other),
    }
}

#[test]
fn pagination_two_pages_scenario() {
    // First page ends with a real address: the pagination continues,
    // seeded with that address.
    let page1 = vec![addr(5, 5, 5, 5, 1111), addr(1, 2, 3, 4, 27015)];
    let (yielded1, next1) = paginate_step(&page1);
    assert_eq!(yielded1, page1);
    assert_eq!(next1, Some(addr(1, 2, 3, 4, 27015)));

    // Second page ends with the sentinel: the caller sees its addresses
    // without the sentinel, and the sequence ends.
    let page2 = vec![addr(6, 6, 6, 6, 2222), addr(0, 0, 0, 0, 0)];
    let (yielded2, next2) = paginate_step(&page2);
    assert_eq!(yielded2, vec![addr(6, 6, 6, 6, 2222)]);
    assert_eq!(next2, None);
}

#[test]
fn pagination_empty_reply_terminates() {
    let (yielded, next) = paginate_step(&Vec::new());
    assert!(yielded.is_empty());
    assert_eq!(next, None);
}

#[test]
fn pagination_sentinel_in_the_middle_is_dropped() {
    let page = vec![addr(0, 0, 0, 0, 0), addr(9, 9, 9, 9, 999)];
    let (yielded, next) = paginate_step(&page);
    assert_eq!(yielded, vec![addr(9, 9, 9, 9, 999)]);
    assert_eq!(next, Some(addr(9, 9, 9, 9, 999)));
}

#[test]
fn sentinel_address_is_nul() {
    assert!(Addr::sentinel().is_nul());
    assert!(!addr(0, 0, 0, 0, 1).is_nul());
}

#[test]
fn reply_ignores_trailing_spare_bytes() {
    let mut data = reply_datagram(&[addr(1, 2, 3, 4, 27015)]);
    data.extend_from_slice(&[0x01, 0x02, 0x03]); // less than one endpoint
    let reply = Reply::parse(&data).unwrap();
    assert_eq!(reply.addresses, vec![addr(1, 2, 3, 4, 27015)]);
}
