use std::io::Read;
use vquery::packet::{GoldsrcParser, SourceParser, QueryDecoder, SplitVariant, DEFAULT_PACKET_SIZE};
use vquery::Error;

fn goldsrc_fragment(uid: u32, index: u8, total: u8, payload: &[u8]) -> Vec<u8> {
    let mut v = Vec::new();
    v.extend_from_slice(&(-2i32).to_le_bytes());
    v.extend_from_slice(&uid.to_le_bytes());
    v.push((index << 4) | total);
    v.extend_from_slice(payload);
    v
}

fn source_fragment(uid: u32, total: u8, index: u8, split_size: u16, payload: &[u8]) -> Vec<u8> {
    let mut v = Vec::new();
    v.extend_from_slice(&(-2i32).to_le_bytes());
    v.extend_from_slice(&uid.to_le_bytes());
    v.push(total);
    v.push(index);
    v.extend_from_slice(&split_size.to_le_bytes());
    v.extend_from_slice(payload);
    v
}

#[test]
fn test_goldsrc_single_packet() {
    let mut frame = Vec::with_capacity(DEFAULT_PACKET_SIZE);
    frame.extend_from_slice(&(-1i32).to_le_bytes());
    frame.extend_from_slice(&[0x11; DEFAULT_PACKET_SIZE - 4]);
    let mut decoder = QueryDecoder::new(SplitVariant::Goldsrc);
    let payload = decoder.decode(&frame).unwrap().unwrap();
    assert_eq!(payload, vec![0x11u8; DEFAULT_PACKET_SIZE - 4]);
}

#[test]
fn single_packet_short_payload() {
    let mut frame = Vec::new();
    frame.extend_from_slice(&(-1i32).to_le_bytes());
    frame.extend_from_slice(b"hello");
    let mut decoder = QueryDecoder::new(SplitVariant::Goldsrc);
    let payload = decoder.decode(&frame).unwrap().unwrap();
    assert_eq!(payload, b"hello".to_vec());
}

#[test]
fn goldsrc_three_fragments_out_of_order() {
    // Fragments 0, 1, 2 of one response, delivered in order 1, 0, 2.
    let parts: [&[u8]; 3] = [b"AAAA", b"BBB", b"CC"];
    let frags: Vec<Vec<u8>> = (0..3).map(|i| goldsrc_fragment(20, i, 3, parts[i as usize])).collect();
    let mut decoder = QueryDecoder::new(SplitVariant::Goldsrc);
    assert_eq!(decoder.decode(&frags[1]).unwrap(), None);
    assert_eq!(decoder.next_recv_size(), DEFAULT_PACKET_SIZE);
    assert_eq!(decoder.decode(&frags[0]).unwrap(), None);
    let payload = decoder.decode(&frags[2]).unwrap().unwrap();
    assert_eq!(payload, b"AAAABBBCC".to_vec());
}

#[test]
fn goldsrc_every_arrival_order_gives_same_payload() {
    let parts: [&[u8]; 3] = [b"first-", b"second-", b"third"];
    let orders: [[usize; 3]; 6] =
        [[0, 1, 2], [0, 2, 1], [1, 0, 2], [1, 2, 0], [2, 0, 1], [2, 1, 0]];
    for order in orders {
        let mut decoder = QueryDecoder::new(SplitVariant::Goldsrc);
        let mut result = None;
        for &i in order.iter() {
            let frag = goldsrc_fragment(7, i as u8, 3, parts[i]);
            if let Some(payload) = decoder.decode(&frag).unwrap() {
                result = Some(payload);
            }
        }
        assert_eq!(result.unwrap(), b"first-second-third".to_vec());
    }
}

#[test]
fn source_split_switches_recv_size() {
    let frag0 = source_fragment(99, 2, 0, 512, b"left");
    let frag1 = source_fragment(99, 2, 1, 512, b"right");
    let mut decoder = QueryDecoder::new(SplitVariant::Source);
    assert_eq!(decoder.next_recv_size(), DEFAULT_PACKET_SIZE);
    assert_eq!(decoder.decode(&frag0).unwrap(), None);
    assert_eq!(decoder.next_recv_size(), 512);
    let payload = decoder.decode(&frag1).unwrap().unwrap();
    assert_eq!(payload, b"leftright".to_vec());
}

#[test]
fn wrong_envelope_header_is_refused() {
    let mut frame = Vec::new();
    frame.extend_from_slice(&42i32.to_le_bytes());
    frame.extend_from_slice(b"junk");
    let mut decoder = QueryDecoder::new(SplitVariant::Goldsrc);
    assert_eq!(decoder.decode(&frame).unwrap_err(), Error::WrongHeader(42));
}

#[test]
fn mismatched_fragment_interrupts_reassembly() {
    let frag0 = goldsrc_fragment(20, 0, 2, b"AA");
    let stray = goldsrc_fragment(21, 1, 2, b"BB");
    let mut decoder = QueryDecoder::new(SplitVariant::Goldsrc);
    assert_eq!(decoder.decode(&frag0).unwrap(), None);
    match decoder.decode(&stray).unwrap_err() {
        Error::Interrupted { base, wrong } => {
            assert_eq!(base.uid, 20);
            assert_eq!(base.total, 2);
            assert_eq!(wrong.uid, 21);
            assert_eq!(wrong.total, 2);
        }
        other => panic!("expected an interruption, got {:?}", other),
    }
}

#[test]
fn duplicate_fragment_is_benign() {
    let frag0 = goldsrc_fragment(20, 0, 2, b"AA");
    let frag1 = goldsrc_fragment(20, 1, 2, b"BB");
    let mut decoder = QueryDecoder::new(SplitVariant::Goldsrc);
    assert_eq!(decoder.decode(&frag0).unwrap(), None);
    assert_eq!(decoder.decode(&frag0).unwrap(), None);
    let payload = decoder.decode(&frag1).unwrap().unwrap();
    assert_eq!(payload, b"AABB".to_vec());
}

#[test]
fn zero_total_is_malformed() {
    let frag = goldsrc_fragment(20, 0, 0, b"AA");
    let mut decoder = QueryDecoder::new(SplitVariant::Goldsrc);
    match decoder.decode(&frag).unwrap_err() {
        Error::Parse(_) => {}
        other => panic!("expected a parse error, got {:?}", other),
    }
}

#[test]
fn tiny_switch_size_is_refused() {
    let frag = source_fragment(99, 2, 0, 3, b"x");
    let mut decoder = QueryDecoder::new(SplitVariant::Source);
    assert_eq!(decoder.decode(&frag).unwrap_err(), Error::WrongHeader(3));
}

#[test]
fn truncated_split_header_is_malformed() {
    let mut frame = Vec::new();
    frame.extend_from_slice(&(-2i32).to_le_bytes());
    frame.extend_from_slice(&[0x01, 0x02]); // too short for any split header
    let mut decoder = QueryDecoder::new(SplitVariant::Source);
    match decoder.decode(&frame).unwrap_err() {
        Error::Parse(_) => {}
        other => panic!("expected a parse error, got {:?}", other),
    }
}

#[test]
fn goldsrc_parser_reads_nibbles() {
    // index in the high nibble, total in the low nibble.
    let body = [0x14u8, 0x00, 0x00, 0x00, 0x23, 0xAB, 0xCD];
    let packet = GoldsrcParser::parse(&body).unwrap();
    assert_eq!(packet.uid, 0x14);
    assert_eq!(packet.index, 2);
    assert_eq!(packet.total, 3);
    assert_eq!(packet.switch_size, DEFAULT_PACKET_SIZE);
    assert!(packet.decompress_info.is_none());
    assert_eq!(packet.payload, vec![0xAB, 0xCD]);
}

#[test]
fn source_parser_reads_compression_metadata() {
    let mut body = Vec::new();
    body.extend_from_slice(&0x8000_0001u32.to_le_bytes());
    body.push(2); // total
    body.push(1); // index
    body.extend_from_slice(&1248u16.to_le_bytes());
    body.extend_from_slice(&100u32.to_le_bytes()); // decompressed size
    body.extend_from_slice(&0xDEADBEEFu32.to_le_bytes()); // crc32
    body.extend_from_slice(b"zz");
    let packet = SourceParser::parse(&body).unwrap();
    assert_eq!(packet.uid, 0x8000_0001);
    assert_eq!(packet.total, 2);
    assert_eq!(packet.index, 1);
    assert_eq!(packet.switch_size, 1248);
    let info = packet.decompress_info.unwrap();
    assert_eq!(info.decompressed_size, 100);
    assert_eq!(info.crc32_sum, 0xDEADBEEF);
    assert_eq!(packet.payload, b"zz".to_vec());
}

fn bzip2_compress(data: &[u8]) -> Vec<u8> {
    let mut encoder = bzip2::read::BzEncoder::new(data, bzip2::Compression::new(9));
    let mut out = Vec::new();
    encoder.read_to_end(&mut out).unwrap();
    out
}

fn crc32_ieee(data: &[u8]) -> u32 {
    crc::Crc::<u32>::new(&crc::CRC_32_ISO_HDLC).checksum(data)
}

#[test]
fn compressed_source_split_scenario() {
    let original: Vec<u8> = (0u16..600).map(|i| (i % 251) as u8).collect();
    let compressed = bzip2_compress(&original);
    let checksum = crc32_ieee(&original);
    let mid = compressed.len() / 2;

    let build = |crc: u32| -> [Vec<u8>; 2] {
        let make = |index: u8, part: &[u8]| -> Vec<u8> {
            let mut v = Vec::new();
            v.extend_from_slice(&(-2i32).to_le_bytes());
            v.extend_from_slice(&0x8000_0042u32.to_le_bytes());
            v.push(2);
            v.push(index);
            v.extend_from_slice(&1400u16.to_le_bytes());
            v.extend_from_slice(&(original.len() as u32).to_le_bytes());
            v.extend_from_slice(&crc.to_le_bytes());
            v.extend_from_slice(part);
            v
        };
        [make(0, &compressed[..mid]), make(1, &compressed[mid..])]
    };

    let frags = build(checksum);
    let mut decoder = QueryDecoder::new(SplitVariant::Source);
    assert_eq!(decoder.decode(&frags[0]).unwrap(), None);
    let payload = decoder.decode(&frags[1]).unwrap().unwrap();
    assert_eq!(payload, original);

    // Toggling a byte of the advertised checksum must fail the integrity check.
    let bad = build(checksum ^ 0xFF);
    let mut decoder = QueryDecoder::new(SplitVariant::Source);
    assert_eq!(decoder.decode(&bad[0]).unwrap(), None);
    match decoder.decode(&bad[1]).unwrap_err() {
        Error::Crc32(expected, actual) => {
            assert_eq!(expected, checksum ^ 0xFF);
            assert_eq!(actual, checksum);
        }
        other => panic!("expected a checksum failure, got {:?}", other),
    }
}

#[test]
fn garbage_compressed_stream_reports_decompress() {
    let mut frag = Vec::new();
    frag.extend_from_slice(&(-2i32).to_le_bytes());
    frag.extend_from_slice(&0x8000_0042u32.to_le_bytes());
    frag.push(1); // a single fragment completes at once
    frag.push(0);
    frag.extend_from_slice(&1400u16.to_le_bytes());
    frag.extend_from_slice(&64u32.to_le_bytes());
    frag.extend_from_slice(&0u32.to_le_bytes());
    frag.extend_from_slice(b"this is not a bzip2 stream");
    let mut decoder = QueryDecoder::new(SplitVariant::Source);
    assert_eq!(decoder.decode(&frag).unwrap_err(), Error::Decompress);
}
