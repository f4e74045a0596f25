use vquery::a2s::{
    info_request, parse_challenge_response, parse_info_response, parse_players_response,
    parse_rules_response, player_challenge_request, players_request, rules_challenge_request,
    rules_request, Info,
};
use vquery::packet::{QueryDecoder, SplitVariant};
use vquery::types::{encode_extra_data, encode_info_new, parse_extra_data, ExtraData, InfoNew};
use vquery::Error;

fn info_old_datagram_body() -> Vec<u8> {
    let mut v = Vec::new();
    v.push(0x6d); // 'm'
    v.extend_from_slice(b"1.2.3.4:27015\0Server\0de_dust\0hl\0Half-Life\0");
    v.extend_from_slice(&[0x01, 0x10, 0x30, 0x64, 0x6c, 0x00, 0x00, 0x01, 0x00]);
    v
}

#[test]
fn single_info_old_scenario() {
    // The whole datagram: a single-packet envelope around the 'm' response.
    let mut datagram = vec![0xFFu8, 0xFF, 0xFF, 0xFF];
    datagram.extend_from_slice(&info_old_datagram_body());
    let mut decoder = QueryDecoder::new(SplitVariant::Goldsrc);
    let payload = decoder.decode(&datagram).unwrap().unwrap();
    let info = match parse_info_response(&payload).unwrap() {
        Info::Old(i) => i,
        Info::New(_) => panic!("expected the old info format"),
    };
    assert_eq!(info.address, b"1.2.3.4:27015".to_vec());
    assert_eq!(info.name, b"Server".to_vec());
    assert_eq!(info.map, b"de_dust".to_vec());
    assert_eq!(info.folder, b"hl".to_vec());
    assert_eq!(info.game, b"Half-Life".to_vec());
    assert_eq!(info.players, 1);
    assert_eq!(info.max_players, 16);
    assert_eq!(info.protocol, 48);
    assert_eq!(info.server_type, b'd');
    assert_eq!(info.enviroment, b'l');
    assert!(info.is_private);
    assert!(info.mod_data.is_none());
    assert!(info.vac_secured);
    assert_eq!(info.bots_num, 0);
}

#[test]
fn request_bytes_match_wire_format() {
    assert_eq!(info_request(), b"\xFF\xFF\xFF\xFFTSource Engine Query\x00".to_vec());
    assert_eq!(player_challenge_request(), b"\xFF\xFF\xFF\xFFU\xFF\xFF\xFF\xFF".to_vec());
    assert_eq!(rules_challenge_request(), b"\xFF\xFF\xFF\xFFV\xFF\xFF\xFF\xFF".to_vec());
    assert_eq!(players_request(0x44332211), b"\xFF\xFF\xFF\xFFU\x11\x22\x33\x44".to_vec());
    assert_eq!(rules_request(0x44332211), b"\xFF\xFF\xFF\xFFV\x11\x22\x33\x44".to_vec());
}

#[test]
fn challenge_dance_scenario() {
    // The sentinel-challenge request is answered with 'A' and a nonce.
    assert_eq!(players_request(0xFFFFFFFF), b"\xFF\xFF\xFF\xFFU\xFF\xFF\xFF\xFF".to_vec());
    let challenge_payload = [0x41u8, 0x11, 0x22, 0x33, 0x44];
    let challenge = parse_challenge_response(&challenge_payload).unwrap();
    assert_eq!(challenge, 0x44332211);
    // The follow-up request carries the nonce; the server answers with 'D'.
    assert_eq!(players_request(challenge), b"\xFF\xFF\xFF\xFFU\x11\x22\x33\x44".to_vec());
    let mut payload = vec![0x44u8, 0x02];
    payload.extend_from_slice(b"\x01Alice\x00\x05\x00\x00\x00\x00\x00\x00\x00");
    payload.extend_from_slice(b"\x02Bob\x00\x03\x00\x00\x00\x00\x00\x80\x42");
    let list = parse_players_response(&payload).unwrap();
    assert_eq!(list.players_num, 2);
    assert_eq!(list.players.len(), 2);
    assert_eq!(list.players[0].index, 1);
    assert_eq!(list.players[0].name, b"Alice".to_vec());
    assert_eq!(list.players[0].score, 5);
    assert_eq!(list.players[1].index, 2);
    assert_eq!(list.players[1].name, b"Bob".to_vec());
    assert_eq!(list.players[1].score, 3);
    assert_eq!(list.players[1].duration_bits, 0x42800000); // 64.0 seconds
}

#[test]
fn challenge_wrong_kind_reports_unknown_header() {
    let payload = [0x44u8, 0x11, 0x22, 0x33, 0x44];
    assert_eq!(parse_challenge_response(&payload), Err(Error::UnknownHeader(0x44, 0x41)));
}

#[test]
fn players_when_challenge_arrives_reports_unknown_header() {
    // Got 'A' where 'D' was expected: the caller's cue to retry.
    let payload = [0x41u8, 0x11, 0x22, 0x33, 0x44];
    assert_eq!(parse_players_response(&payload).unwrap_err(), Error::UnknownHeader(0x41, 0x44));
}

#[test]
fn rules_with_ff_prefix_quirk() {
    let payload = b"\xFF\xFF\xFF\xFF\x45\x02\x00k1\x00v1\x00k2\x00v2\x00";
    let list = parse_rules_response(payload).unwrap();
    assert_eq!(list.rules_num, 2);
    assert_eq!(list.rules.len(), 2);
    assert_eq!(list.rules[0].key, b"k1".to_vec());
    assert_eq!(list.rules[0].value, b"v1".to_vec());
    assert_eq!(list.rules[1].key, b"k2".to_vec());
    assert_eq!(list.rules[1].value, b"v2".to_vec());
}

#[test]
fn rules_without_prefix_also_accepted() {
    let payload = b"\x45\x02\x00k1\x00v1\x00k2\x00v2\x00";
    let list = parse_rules_response(payload).unwrap();
    assert_eq!(list.rules.len(), 2);
}

#[test]
fn rule_count_is_advisory() {
    // The count claims five pairs; the buffer holds two and a half.
    let payload = b"\x45\x05\x00k1\x00v1\x00k2\x00v2\x00half";
    let list = parse_rules_response(payload).unwrap();
    assert_eq!(list.rules_num, 5);
    assert_eq!(list.rules.len(), 2);
}

#[test]
fn player_count_is_advisory() {
    // The count claims nine players; the buffer holds one.
    let mut payload = vec![0x44u8, 0x09];
    payload.extend_from_slice(b"\x01Solo\x00\x02\x00\x00\x00\x00\x00\x00\x00");
    let list = parse_players_response(&payload).unwrap();
    assert_eq!(list.players_num, 9);
    assert_eq!(list.players.len(), 1);
}

#[test]
fn truncated_info_reports_parse_error() {
    // The name string never terminates.
    let payload = b"\x6d1.2.3.4:27015\x00Server";
    match parse_info_response(payload) {
        Err(Error::Parse(_)) => {}
        other => panic!("expected a parse error, got {:?}", other),
    }
}

#[test]
fn info_unknown_kind_reports_unknown_header() {
    let payload = [0x58u8, 0x00];
    assert_eq!(parse_info_response(&payload).unwrap_err(), Error::UnknownHeader(0x58, 0x49));
}

fn sample_extra_data(edf: u8) -> ExtraData {
    ExtraData {
        edf,
        port: if edf & 0x80 != 0 { Some(27015) } else { None },
        server_steamid: if edf & 0x10 != 0 { Some(90071992547409919) } else { None },
        port_source_tv: if edf & 0x40 != 0 { Some(-27016) } else { None },
        name_source_tv: if edf & 0x40 != 0 { Some(b"SourceTV".to_vec()) } else { None },
        keywords: if edf & 0x20 != 0 { Some(b"pvp,fast".to_vec()) } else { None },
        gameid: if edf & 0x01 != 0 { Some(440) } else { None },
    }
}

#[test]
fn extra_data_round_trip_all_edf_combinations() {
    let bits = [0x80u8, 0x10, 0x40, 0x20, 0x01];
    for mask in 0u32..32 {
        let mut edf = 0u8;
        for (i, bit) in bits.iter().enumerate() {
            if mask & (1 << i) != 0 {
                edf |= bit;
            }
        }
        let original = sample_extra_data(edf);
        let encoded = encode_extra_data(&original);
        let (decoded, consumed) = parse_extra_data(&encoded, 0).unwrap();
        assert_eq!(decoded, original);
        assert_eq!(consumed, encoded.len());
    }
}

#[test]
fn info_new_round_trip_all_edf_combinations() {
    let bits = [0x80u8, 0x10, 0x40, 0x20, 0x01];
    for mask in 0u32..32 {
        let mut edf = 0u8;
        for (i, bit) in bits.iter().enumerate() {
            if mask & (1 << i) != 0 {
                edf |= bit;
            }
        }
        let original = InfoNew {
            protocol: 17,
            name: b"A Server".to_vec(),
            map: b"de_dust2".to_vec(),
            folder: b"csgo".to_vec(),
            game: b"Counter-Strike".to_vec(),
            steamid: -2,
            players: 12,
            max_players: 64,
            bots: 3,
            server_type: b'd',
            enviroment: b'l',
            is_visible: mask % 2 == 0,
            vac_secured: mask % 3 == 0,
            version: b"1.38.7.9".to_vec(),
            extra_data: sample_extra_data(edf),
        };
        let mut payload = vec![0x49u8];
        payload.extend_from_slice(&encode_info_new(&original));
        let decoded = match parse_info_response(&payload).unwrap() {
            Info::New(i) => i,
            Info::Old(_) => panic!("expected the new info format"),
        };
        assert_eq!(decoded, original);
    }
}

#[test]
fn extra_data_absent_bits_leave_fields_absent() {
    // edf = 0: nothing after the bitmask is consumed.
    let payload = [0x00u8, 0xAA, 0xBB];
    let (decoded, consumed) = parse_extra_data(&payload, 0).unwrap();
    assert_eq!(consumed, 1);
    assert_eq!(decoded.port, None);
    assert_eq!(decoded.server_steamid, None);
    assert_eq!(decoded.port_source_tv, None);
    assert_eq!(decoded.name_source_tv, None);
    assert_eq!(decoded.keywords, None);
    assert_eq!(decoded.gameid, None);
}

#[test]
fn info_old_with_mod_data() {
    let mut payload = vec![0x6du8];
    payload.extend_from_slice(b"addr\0name\0map\0folder\0game\0");
    payload.extend_from_slice(&[2, 8, 47, b'l', b'w', 1]); // visibility byte 1: not private
    payload.push(1); // mod block follows
    payload.extend_from_slice(b"link\0dl\0");
    payload.push(0); // reserved
    payload.extend_from_slice(&[5, 0, 0, 0]); // version = 5
    payload.extend_from_slice(&[0, 1, 0, 0]); // size = 256
    payload.extend_from_slice(&[1, 1]); // mp_only, custom_dll
    payload.extend_from_slice(&[0, 7]); // vac off, 7 bots
    let info = match parse_info_response(&payload).unwrap() {
        Info::Old(i) => i,
        Info::New(_) => panic!("expected the old info format"),
    };
    assert!(!info.is_private);
    let mod_data = info.mod_data.expect("mod block present");
    assert_eq!(mod_data.link, b"link".to_vec());
    assert_eq!(mod_data.download_link, b"dl".to_vec());
    assert_eq!(mod_data.version, 5);
    assert_eq!(mod_data.size, 256);
    assert!(mod_data.mp_only);
    assert!(mod_data.custom_dll);
    assert!(!info.vac_secured);
    assert_eq!(info.bots_num, 7);
}

#[test]
fn info_new_parses_hand_built_bytes() {
    let mut payload = vec![0x49u8, 17];
    payload.extend_from_slice(b"A Server\0de_dust2\0csgo\0Counter-Strike\0");
    payload.extend_from_slice(&[0xFE, 0xFF]); // steamid = -2
    payload.extend_from_slice(&[12, 64, 3, b'd', b'l', 1, 1]);
    payload.extend_from_slice(b"1.38.7.9\0");
    payload.push(0x81); // edf: port and gameid
    payload.extend_from_slice(&27015u16.to_le_bytes());
    payload.extend_from_slice(&440u64.to_le_bytes());
    let info = match parse_info_response(&payload).unwrap() {
        Info::New(i) => i,
        Info::Old(_) => panic!("expected the new info format"),
    };
    assert_eq!(info.protocol, 17);
    assert_eq!(info.name, b"A Server".to_vec());
    assert_eq!(info.map, b"de_dust2".to_vec());
    assert_eq!(info.folder, b"csgo".to_vec());
    assert_eq!(info.game, b"Counter-Strike".to_vec());
    assert_eq!(info.steamid, -2);
    assert_eq!(info.players, 12);
    assert_eq!(info.max_players, 64);
    assert_eq!(info.bots, 3);
    assert_eq!(info.server_type, b'd');
    assert_eq!(info.enviroment, b'l');
    assert!(info.is_visible);
    assert!(info.vac_secured);
    assert_eq!(info.version, b"1.38.7.9".to_vec());
    assert_eq!(info.extra_data.edf, 0x81);
    assert_eq!(info.extra_data.port, Some(27015));
    assert_eq!(info.extra_data.gameid, Some(440));
    assert_eq!(info.extra_data.server_steamid, None);
    assert_eq!(info.extra_data.port_source_tv, None);
    assert_eq!(info.extra_data.name_source_tv, None);
    assert_eq!(info.extra_data.keywords, None);
}
