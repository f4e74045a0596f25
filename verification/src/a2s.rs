//! The pure half of the A2S protocol driver: the request bytes of each
//! operation, and the dispatch of a whole response payload on its one-byte
//! kind into the record codecs. The caller owns the transport: it sends
//! the request bytes, reads one whole payload through the framing engine,
//! and hands the payload here.

use vstd::prelude::*;
use crate::cursor::le32_at;
use crate::error::Error;
use crate::types::{
    InfoOld, InfoNew, PlayersList, RulesList, parse_info_old, parse_info_new, parse_players,
    parse_rules, spec_parse_info_old, spec_parse_info_new, sp_u8, sp_u16, players_view,
    rules_view, spec_parse_players_greedy, spec_parse_rules_greedy,
};

verus! {

broadcast use vstd::slice::axiom_spec_len;

/// An info response is one of two variants: the old GoldSrc format
/// (`'m'`) or the new Source format (`'I'`).
#[derive(Debug, Clone, PartialEq, Eq)]
pub enum Info {
    Old(InfoOld),
    New(InfoNew),
}

/// The info request: `FF FF FF FF 'T' "Source Engine Query" NUL`.
pub open spec fn spec_info_request() -> Seq<u8> {
    seq![
        0xffu8, 0xff, 0xff, 0xff, 0x54, 0x53, 0x6f, 0x75, 0x72, 0x63, 0x65, 0x20, 0x45, 0x6e,
        0x67, 0x69, 0x6e, 0x65, 0x20, 0x51, 0x75, 0x65, 0x72, 0x79, 0x00,
    ]
}

/// The player-challenge request: `FF FF FF FF 'U' FF FF FF FF`.
pub open spec fn spec_player_challenge_request() -> Seq<u8> {
    seq![0xffu8, 0xff, 0xff, 0xff, 0x55, 0xff, 0xff, 0xff, 0xff]
}

/// The rules-challenge request: `FF FF FF FF 'V' FF FF FF FF`.
pub open spec fn spec_rules_challenge_request() -> Seq<u8> {
    seq![0xffu8, 0xff, 0xff, 0xff, 0x56, 0xff, 0xff, 0xff, 0xff]
}

/// The four little-endian bytes of a 32-bit value.
pub open spec fn le_bytes32(v: int) -> Seq<u8> {
    seq![
        (v % 0x100) as u8,
        ((v / 0x100) % 0x100) as u8,
        ((v / 0x10000) % 0x100) as u8,
        ((v / 0x1000000) % 0x100) as u8,
    ]
}

/// The players request with a challenge: `FF FF FF FF 'U'` + challenge.
pub open spec fn spec_players_request(challenge: int) -> Seq<u8> {
    seq![0xffu8, 0xff, 0xff, 0xff, 0x55] + le_bytes32(challenge)
}

/// The rules request with a challenge: `FF FF FF FF 'V'` + challenge.
pub open spec fn spec_rules_request(challenge: int) -> Seq<u8> {
    seq![0xffu8, 0xff, 0xff, 0xff, 0x56] + le_bytes32(challenge)
}

/// Builds the info request bytes.
pub fn info_request() -> (r: Vec<u8>)
    ensures
        r@ == spec_info_request(),
{
    let r: Vec<u8> = vec![
        0xffu8, 0xff, 0xff, 0xff, 0x54, 0x53, 0x6f, 0x75, 0x72, 0x63, 0x65, 0x20, 0x45, 0x6e,
        0x67, 0x69, 0x6e, 0x65, 0x20, 0x51, 0x75, 0x65, 0x72, 0x79, 0x00,
    ];
    proof {
        assert(r@ =~= spec_info_request());
    }
    r
}

/// Builds the player-challenge request bytes (the sentinel challenge).
pub fn player_challenge_request() -> (r: Vec<u8>)
    ensures
        r@ == spec_player_challenge_request(),
{
    let r: Vec<u8> = vec![0xffu8, 0xff, 0xff, 0xff, 0x55, 0xff, 0xff, 0xff, 0xff];
    proof {
        assert(r@ =~= spec_player_challenge_request());
    }
    r
}

/// Builds the rules-challenge request bytes (the sentinel challenge).
pub fn rules_challenge_request() -> (r: Vec<u8>)
    ensures
        r@ == spec_rules_challenge_request(),
{
    let r: Vec<u8> = vec![0xffu8, 0xff, 0xff, 0xff, 0x56, 0xff, 0xff, 0xff, 0xff];
    proof {
        assert(r@ =~= spec_rules_challenge_request());
    }
    r
}

/// Splits a 32-bit value into its four little-endian bytes.
fn u32_le_bytes(v: u32) -> (r: (u8, u8, u8, u8))
    ensures
        seq![r.0, r.1, r.2, r.3] == le_bytes32(v as int),
{
    let b0 = (v % 0x100) as u8;
    let b1 = ((v / 0x100) % 0x100) as u8;
    let b2 = ((v / 0x10000) % 0x100) as u8;
    let b3 = ((v / 0x1000000) % 0x100) as u8;
    proof {
        assert(seq![b0, b1, b2, b3] =~= le_bytes32(v as int));
    }
    (b0, b1, b2, b3)
}

/// Builds the players request carrying `challenge`.
pub fn players_request(challenge: u32) -> (r: Vec<u8>)
    ensures
        r@ == spec_players_request(challenge as int),
{
    let (b0, b1, b2, b3) = u32_le_bytes(challenge);
    let r: Vec<u8> = vec![0xffu8, 0xff, 0xff, 0xff, 0x55, b0, b1, b2, b3];
    proof {
        assert(r@ =~= spec_players_request(challenge as int));
    }
    r
}

/// Builds the rules request carrying `challenge`.
pub fn rules_request(challenge: u32) -> (r: Vec<u8>)
    ensures
        r@ == spec_rules_request(challenge as int),
{
    let (b0, b1, b2, b3) = u32_le_bytes(challenge);
    let r: Vec<u8> = vec![0xffu8, 0xff, 0xff, 0xff, 0x56, b0, b1, b2, b3];
    proof {
        assert(r@ =~= spec_rules_request(challenge as int));
    }
    r
}

/// What a challenge (`'A'`) response payload decodes to: the 32-bit nonce
/// after the kind byte.
pub open spec fn spec_challenge_response(s: Seq<u8>) -> Result<int, Error> {
    if s.len() < 1 {
        Err(Error::Parse(0))
    } else if s[0] != 0x41 {
        Err(Error::UnknownHeader(s[0], 0x41))
    } else if s.len() < 5 {
        Err(Error::Parse(1))
    } else {
        Ok(le32_at(s, 1))
    }
}

/// Decodes a challenge response payload: the `'A'` kind byte, then the
/// nonce to echo on the follow-up request.
pub fn parse_challenge_response(payload: &[u8]) -> (r: Result<u32, Error>)
    ensures
        match spec_challenge_response(payload@) {
            Ok(v) => r matches Ok(c) && c == v,
            Err(e) => r matches Err(e2) && e2 == e,
        },
{
    let n = payload.len();
    if n < 1 {
        return Err(Error::Parse(0));
    }
    let kind = payload[0];
    if kind != 0x41 {
        return Err(Error::UnknownHeader(kind, 0x41));
    }
    if n < 5 {
        return Err(Error::Parse(1));
    }
    Ok(crate::cursor::read_u32_at(payload, 1))
}

/// Decodes an info response payload on its kind byte: `'m'` is the old
/// format, `'I'` the new; any other kind is refused with the new kind as
/// the expected one.
pub fn parse_info_response(payload: &[u8]) -> (r: Result<Info, Error>)
    ensures
        payload@.len() == 0 ==> r matches Err(Error::Parse(_)),
        payload@.len() > 0 && payload@[0] == 0x6d ==> match spec_parse_info_old(
            payload@.skip(1),
        ) {
            Some(t) => r matches Ok(i) && i matches Info::Old(info) && info@ == t.0,
            None => r matches Err(Error::Parse(_)),
        },
        payload@.len() > 0 && payload@[0] == 0x49 ==> match spec_parse_info_new(
            payload@.skip(1),
        ) {
            Some(t) => r matches Ok(i) && i matches Info::New(info) && info@ == t.0,
            None => r matches Err(Error::Parse(_)),
        },
        payload@.len() > 0 && payload@[0] != 0x6d && payload@[0] != 0x49 ==> (r matches Err(e)
            && e == (Error::UnknownHeader(payload@[0], 0x49))),
{
    let n = payload.len();
    if n < 1 {
        return Err(Error::Parse(0));
    }
    let kind = payload[0];
    if kind == 0x6d {
        let (info, _) = parse_info_old(payload, 1)?;
        Ok(Info::Old(info))
    } else if kind == 0x49 {
        let (info, _) = parse_info_new(payload, 1)?;
        Ok(Info::New(info))
    } else {
        Err(Error::UnknownHeader(kind, 0x49))
    }
}

/// Decodes a player-list response payload: the `'D'` kind byte, the
/// advisory count, then as many whole player records as the payload
/// holds.
pub fn parse_players_response(payload: &[u8]) -> (r: Result<PlayersList, Error>)
    ensures
        payload@.len() == 0 ==> r matches Err(Error::Parse(_)),
        payload@.len() > 0 && payload@[0] != 0x44 ==> (r matches Err(e) && e == (
        Error::UnknownHeader(payload@[0], 0x44))),
        payload@.len() > 0 && payload@[0] == 0x44 ==> match sp_u8(payload@.skip(1)) {
            Some(t) => r matches Ok(list) && list.players_num == t.0 && players_view(
                list.players@,
            ) == spec_parse_players_greedy(t.1),
            None => r matches Err(Error::Parse(_)),
        },
{
    let n = payload.len();
    if n < 1 {
        return Err(Error::Parse(0));
    }
    let kind = payload[0];
    if kind != 0x44 {
        return Err(Error::UnknownHeader(kind, 0x44));
    }
    parse_players(payload, 1)
}

/// Where the rules payload really starts: some servers prepend one more
/// `FF FF FF FF` marker before the `'E'` kind byte; it is skipped when
/// present.
pub open spec fn spec_rules_start(s: Seq<u8>) -> int {
    if s.len() >= 4 && s[0] == 0xff && s[1] == 0xff && s[2] == 0xff && s[3] == 0xff {
        4
    } else {
        0
    }
}

/// Decodes a rules response payload: an optional extra `FF FF FF FF`
/// marker, the `'E'` kind byte, the advisory count, then as many whole
/// key/value pairs as the payload holds.
pub fn parse_rules_response(payload: &[u8]) -> (r: Result<RulesList, Error>)
    ensures
        ({
            let k = spec_rules_start(payload@);
            &&& (payload@.len() == k ==> r matches Err(Error::Parse(_)))
            &&& (payload@.len() > k && payload@[k] != 0x45 ==> (r matches Err(e) && e == (
            Error::UnknownHeader(payload@[k], 0x45))))
            &&& (payload@.len() > k && payload@[k] == 0x45 ==> match sp_u16(
                payload@.skip(k + 1),
            ) {
                Some(t) => r matches Ok(list) && list.rules_num == t.0 && rules_view(list.rules@)
                    == spec_parse_rules_greedy(t.1),
                None => r matches Err(Error::Parse(_)),
            })
        }),
{
    let n = payload.len();
    let start: usize = if n >= 4 && payload[0] == 0xff && payload[1] == 0xff && payload[2] == 0xff
        && payload[3] == 0xff {
        4
    } else {
        0
    };
    if n == start {
        return Err(Error::Parse(start));
    }
    let kind = payload[start];
    if kind != 0x45 {
        return Err(Error::UnknownHeader(kind, 0x45));
    }
    parse_rules(payload, start + 1)
}

} // verus!
