//! The typed records of the A2S protocol and their codecs. Strings on the
//! wire are NUL-terminated opaque byte strings; integers are little-endian.
//! Each codec is specified against a spec-level parser that consumes a
//! prefix of the input and hands back the rest.

use vstd::prelude::*;
use crate::cursor::{
    le16_at, le32_at, le64_at, as_signed16, as_signed32, find_nul, lemma_find_nul_shift,
    read_u16_at, read_u32_at, read_u64_at, read_cstring, to_i16, to_i32,
};
use crate::error::Error;

verus! {

broadcast use vstd::slice::axiom_spec_len;

// ---------------------------------------------------------------------------
// Spec-level field parsers: value plus the remaining suffix.
// ---------------------------------------------------------------------------

/// One byte.
pub open spec fn sp_u8(s: Seq<u8>) -> Option<(u8, Seq<u8>)> {
    if s.len() < 1 {
        None
    } else {
        Some((s[0], s.skip(1)))
    }
}

/// A byte read as a flag: zero is false, anything else is true.
pub open spec fn sp_bool(s: Seq<u8>) -> Option<(bool, Seq<u8>)> {
    if s.len() < 1 {
        None
    } else {
        Some((s[0] != 0, s.skip(1)))
    }
}

/// A little-endian two-byte field.
pub open spec fn sp_u16(s: Seq<u8>) -> Option<(int, Seq<u8>)> {
    if s.len() < 2 {
        None
    } else {
        Some((le16_at(s, 0), s.skip(2)))
    }
}

/// A little-endian four-byte field.
pub open spec fn sp_u32(s: Seq<u8>) -> Option<(int, Seq<u8>)> {
    if s.len() < 4 {
        None
    } else {
        Some((le32_at(s, 0), s.skip(4)))
    }
}

/// A little-endian eight-byte field.
pub open spec fn sp_u64(s: Seq<u8>) -> Option<(int, Seq<u8>)> {
    if s.len() < 8 {
        None
    } else {
        Some((le64_at(s, 0), s.skip(8)))
    }
}

/// A byte read as the old info format's visibility-style flag: on the
/// wire zero means the flag is set.
pub open spec fn sp_flag0(s: Seq<u8>) -> Option<(bool, Seq<u8>)> {
    if s.len() < 1 {
        None
    } else {
        Some((s[0] == 0, s.skip(1)))
    }
}

/// A NUL-terminated byte string: the bytes before the first NUL, with the
/// terminator consumed.
pub open spec fn sp_cstring(s: Seq<u8>) -> Option<(Seq<u8>, Seq<u8>)> {
    match find_nul(s, 0) {
        Some(e) => Some((s.take(e), s.skip(e + 1))),
        None => None,
    }
}

// ---------------------------------------------------------------------------
// Exec field parsers over a buffer and a position.
// ---------------------------------------------------------------------------

/// Reads one byte.
fn p_u8(s: &[u8], pos: usize) -> (r: Result<(u8, usize), Error>)
    requires
        pos <= s@.len(),
    ensures
        match sp_u8(s@.skip(pos as int)) {
            Some(t) => r matches Ok(p) && p.0 == t.0 && pos < p.1 <= s@.len() && s@.skip(
                p.1 as int,
            ) == t.1,
            None => r matches Err(Error::Parse(q)) && q == pos,
        },
{
    if pos < s.len() {
        let b = s[pos];
        proof {
            assert(s@.skip(pos as int)[0] == s@[pos as int]);
            assert(s@.skip(pos as int).skip(1) =~= s@.skip(pos + 1));
        }
        Ok((b, pos + 1))
    } else {
        Err(Error::Parse(pos))
    }
}

/// Reads one flag byte.
fn p_bool(s: &[u8], pos: usize) -> (r: Result<(bool, usize), Error>)
    requires
        pos <= s@.len(),
    ensures
        match sp_bool(s@.skip(pos as int)) {
            Some(t) => r matches Ok(p) && p.0 == t.0 && pos < p.1 <= s@.len() && s@.skip(
                p.1 as int,
            ) == t.1,
            None => r matches Err(Error::Parse(q)) && q == pos,
        },
{
    match p_u8(s, pos) {
        Ok((b, np)) => Ok((b != 0, np)),
        Err(e) => Err(e),
    }
}

/// Reads one flag byte of the old info format: zero on the wire means
/// the flag is set.
fn p_flag0(s: &[u8], pos: usize) -> (r: Result<(bool, usize), Error>)
    requires
        pos <= s@.len(),
    ensures
        match sp_flag0(s@.skip(pos as int)) {
            Some(t) => r matches Ok(p) && p.0 == t.0 && pos < p.1 <= s@.len() && s@.skip(
                p.1 as int,
            ) == t.1,
            None => r matches Err(Error::Parse(q)) && q == pos,
        },
{
    match p_u8(s, pos) {
        Ok((b, np)) => Ok((b == 0, np)),
        Err(e) => Err(e),
    }
}

/// Reads a little-endian `u16`.
fn p_u16(s: &[u8], pos: usize) -> (r: Result<(u16, usize), Error>)
    requires
        pos <= s@.len(),
    ensures
        match sp_u16(s@.skip(pos as int)) {
            Some(t) => r matches Ok(p) && p.0 == t.0 && pos < p.1 <= s@.len() && s@.skip(
                p.1 as int,
            ) == t.1,
            None => r matches Err(Error::Parse(q)) && q == pos,
        },
{
    let n = s.len();
    if n - pos >= 2 {
        let v = read_u16_at(s, pos);
        proof {
            let t = s@.skip(pos as int);
            assert(t[0] == s@[pos as int] && t[1] == s@[pos as int + 1]);
            assert(t.skip(2) =~= s@.skip(pos + 2));
        }
        Ok((v, pos + 2))
    } else {
        Err(Error::Parse(pos))
    }
}

/// Reads a little-endian `u32`.
fn p_u32(s: &[u8], pos: usize) -> (r: Result<(u32, usize), Error>)
    requires
        pos <= s@.len(),
    ensures
        match sp_u32(s@.skip(pos as int)) {
            Some(t) => r matches Ok(p) && p.0 == t.0 && pos < p.1 <= s@.len() && s@.skip(
                p.1 as int,
            ) == t.1,
            None => r matches Err(Error::Parse(q)) && q == pos,
        },
{
    let n = s.len();
    if n - pos >= 4 {
        let v = read_u32_at(s, pos);
        proof {
            let t = s@.skip(pos as int);
            assert(t[0] == s@[pos as int] && t[1] == s@[pos as int + 1] && t[2] == s@[pos as int
                + 2] && t[3] == s@[pos as int + 3]);
            assert(t.skip(4) =~= s@.skip(pos + 4));
        }
        Ok((v, pos + 4))
    } else {
        Err(Error::Parse(pos))
    }
}

/// Reads a little-endian `u64`.
fn p_u64(s: &[u8], pos: usize) -> (r: Result<(u64, usize), Error>)
    requires
        pos <= s@.len(),
    ensures
        match sp_u64(s@.skip(pos as int)) {
            Some(t) => r matches Ok(p) && p.0 == t.0 && pos < p.1 <= s@.len() && s@.skip(
                p.1 as int,
            ) == t.1,
            None => r matches Err(Error::Parse(q)) && q == pos,
        },
{
    let n = s.len();
    if n - pos >= 8 {
        let v = read_u64_at(s, pos);
        proof {
            let t = s@.skip(pos as int);
            assert(forall|i: int| 0 <= i < 8 ==> t[i] == s@[pos as int + i]);
            assert(t.skip(8) =~= s@.skip(pos + 8));
            assert(le32_at(t, 0) == le32_at(s@, pos as int));
            assert(le32_at(t, 4) == le32_at(s@, pos as int + 4));
        }
        Ok((v, pos + 8))
    } else {
        Err(Error::Parse(pos))
    }
}

/// Reads a NUL-terminated byte string.
fn p_cstring(s: &[u8], pos: usize) -> (r: Result<(Vec<u8>, usize), Error>)
    requires
        pos <= s@.len(),
    ensures
        match sp_cstring(s@.skip(pos as int)) {
            Some(t) => r matches Ok(p) && p.0@ == t.0 && pos < p.1 <= s@.len() && s@.skip(
                p.1 as int,
            ) == t.1,
            None => r matches Err(Error::Parse(q)) && q == pos,
        },
{
    proof {
        crate::cursor::lemma_find_nul(s@, pos as int);
        lemma_find_nul_shift(s@, pos as int);
    }
    match read_cstring(s, pos) {
        Ok((v, np)) => {
            proof {
                let e = find_nul(s@, pos as int).unwrap();
                assert(s@.subrange(pos as int, e) =~= s@.skip(pos as int).take(e - pos));
                assert(s@.skip(e + 1) =~= s@.skip(pos as int).skip(e - pos + 1));
            }
            Ok((v, np))
        },
        Err(e) => Err(e),
    }
}

/// An optional little-endian `i16` field, present only when `cond` holds.
pub open spec fn sp_opt_i16(s: Seq<u8>, cond: bool) -> Option<(Option<int>, Seq<u8>)> {
    if !cond {
        Some((None, s))
    } else {
        match sp_u16(s) {
            None => None,
            Some((v, rest)) => Some((Some(as_signed16(v)), rest)),
        }
    }
}

/// An optional little-endian `u64` field, present only when `cond` holds.
pub open spec fn sp_opt_u64(s: Seq<u8>, cond: bool) -> Option<(Option<int>, Seq<u8>)> {
    if !cond {
        Some((None, s))
    } else {
        match sp_u64(s) {
            None => None,
            Some((v, rest)) => Some((Some(v), rest)),
        }
    }
}

/// An optional NUL-terminated string field, present only when `cond` holds.
pub open spec fn sp_opt_cstring(s: Seq<u8>, cond: bool) -> Option<(Option<Seq<u8>>, Seq<u8>)> {
    if !cond {
        Some((None, s))
    } else {
        match sp_cstring(s) {
            None => None,
            Some((v, rest)) => Some((Some(v), rest)),
        }
    }
}

// ---------------------------------------------------------------------------
// ModData
// ---------------------------------------------------------------------------

/// The mod block an old-format info response may carry.
#[derive(Debug, Clone, PartialEq, Eq)]
pub struct ModData {
    pub link: Vec<u8>,
    pub download_link: Vec<u8>,
    pub version: i32,
    pub size: i32,
    pub mp_only: bool,
    pub custom_dll: bool,
}

/// Mathematical model of `ModData`.
pub struct ModDataView {
    pub link: Seq<u8>,
    pub download_link: Seq<u8>,
    pub version: int,
    pub size: int,
    pub mp_only: bool,
    pub custom_dll: bool,
}

impl View for ModData {
    type V = ModDataView;

    open spec fn view(&self) -> ModDataView {
        ModDataView {
            link: self.link@,
            download_link: self.download_link@,
            version: self.version as int,
            size: self.size as int,
            mp_only: self.mp_only,
            custom_dll: self.custom_dll,
        }
    }
}

/// The wire layout of a mod block: two strings, one reserved byte, two
/// `i32`s, two flags.
pub open spec fn spec_parse_mod_data(s: Seq<u8>) -> Option<(ModDataView, Seq<u8>)> {
    match sp_cstring(s) {
        None => None,
        Some((link, s)) => match sp_cstring(s) {
            None => None,
            Some((download_link, s)) => match sp_u8(s) {
                None => None,
                Some((_reserved, s)) => match sp_u32(s) {
                    None => None,
                    Some((version, s)) => match sp_u32(s) {
                        None => None,
                        Some((size, s)) => match sp_bool(s) {
                            None => None,
                            Some((mp_only, s)) => match sp_bool(s) {
                                None => None,
                                Some((custom_dll, s)) => Some(
                                    (
                                        ModDataView {
                                            link,
                                            download_link,
                                            version: as_signed32(version),
                                            size: as_signed32(size),
                                            mp_only,
                                            custom_dll,
                                        },
                                        s,
                                    ),
                                ),
                            },
                        },
                    },
                },
            },
        },
    }
}

/// Reads a mod block.
fn parse_mod_data(s: &[u8], pos: usize) -> (r: Result<(ModData, usize), Error>)
    requires
        pos <= s@.len(),
    ensures
        match spec_parse_mod_data(s@.skip(pos as int)) {
            Some(t) => r matches Ok(p) && p.0@ == t.0 && pos <= p.1 <= s@.len() && s@.skip(
                p.1 as int,
            ) == t.1,
            None => r matches Err(Error::Parse(_)),
        },
{
    let (link, pos) = p_cstring(s, pos)?;
    let (download_link, pos) = p_cstring(s, pos)?;
    let (_reserved, pos) = p_u8(s, pos)?;
    let (version_raw, pos) = p_u32(s, pos)?;
    let (size_raw, pos) = p_u32(s, pos)?;
    let (mp_only, pos) = p_bool(s, pos)?;
    let (custom_dll, pos) = p_bool(s, pos)?;
    let m = ModData {
        link,
        download_link,
        version: to_i32(version_raw),
        size: to_i32(size_raw),
        mp_only,
        custom_dll,
    };
    Ok((m, pos))
}

// ---------------------------------------------------------------------------
// InfoOld
// ---------------------------------------------------------------------------

/// The old-format (`'m'`) info response of GoldSrc servers.
#[derive(Debug, Clone, PartialEq, Eq)]
pub struct InfoOld {
    pub address: Vec<u8>,
    pub name: Vec<u8>,
    pub map: Vec<u8>,
    pub folder: Vec<u8>,
    pub game: Vec<u8>,
    pub players: u8,
    pub max_players: u8,
    pub protocol: u8,
    pub server_type: u8,
    pub enviroment: u8,
    /// From the visibility byte, whose zero value marks a private server.
    pub is_private: bool,
    pub mod_data: Option<ModData>,
    pub vac_secured: bool,
    pub bots_num: u8,
}

/// Mathematical model of `InfoOld`.
pub struct InfoOldView {
    pub address: Seq<u8>,
    pub name: Seq<u8>,
    pub map: Seq<u8>,
    pub folder: Seq<u8>,
    pub game: Seq<u8>,
    pub players: u8,
    pub max_players: u8,
    pub protocol: u8,
    pub server_type: u8,
    pub enviroment: u8,
    pub is_private: bool,
    pub mod_data: Option<ModDataView>,
    pub vac_secured: bool,
    pub bots_num: u8,
}

impl View for InfoOld {
    type V = InfoOldView;

    open spec fn view(&self) -> InfoOldView {
        InfoOldView {
            address: self.address@,
            name: self.name@,
            map: self.map@,
            folder: self.folder@,
            game: self.game@,
            players: self.players,
            max_players: self.max_players,
            protocol: self.protocol,
            server_type: self.server_type,
            enviroment: self.enviroment,
            is_private: self.is_private,
            mod_data: match self.mod_data {
                Some(m) => Some(m@),
                None => None,
            },
            vac_secured: self.vac_secured,
            bots_num: self.bots_num,
        }
    }
}

/// The wire layout of the old info body: five strings, five bytes, the
/// private flag, a one-byte marker gating the mod block, the VAC flag and
/// the bot count.
pub open spec fn spec_parse_info_old(s: Seq<u8>) -> Option<(InfoOldView, Seq<u8>)> {
    match sp_cstring(s) {
        None => None,
        Some((address, s)) => match sp_cstring(s) {
            None => None,
            Some((name, s)) => match sp_cstring(s) {
                None => None,
                Some((map, s)) => match sp_cstring(s) {
                    None => None,
                    Some((folder, s)) => match sp_cstring(s) {
                        None => None,
                        Some((game, s)) => match sp_u8(s) {
                            None => None,
                            Some((players, s)) => match sp_u8(s) {
                                None => None,
                                Some((max_players, s)) => match sp_u8(s) {
                                    None => None,
                                    Some((protocol, s)) => match sp_u8(s) {
                                        None => None,
                                        Some((server_type, s)) => match sp_u8(s) {
                                            None => None,
                                            Some((enviroment, s)) => match sp_flag0(s) {
                                                None => None,
                                                Some((is_private, s)) => match sp_u8(s) {
                                                    None => None,
                                                    Some((mod_marker, s)) => spec_parse_info_old_tail(
                                                        s,
                                                        InfoOldView {
                                                            address,
                                                            name,
                                                            map,
                                                            folder,
                                                            game,
                                                            players,
                                                            max_players,
                                                            protocol,
                                                            server_type,
                                                            enviroment,
                                                            is_private,
                                                            mod_data: None,
                                                            vac_secured: false,
                                                            bots_num: 0,
                                                        },
                                                        mod_marker,
                                                    ),
                                                },
                                            },
                                        },
                                    },
                                },
                            },
                        },
                    },
                },
            },
        },
    }
}

/// The tail of the old info body: the mod block when the marker is `1`,
/// then the VAC flag and the bot count.
pub open spec fn spec_parse_info_old_tail(
    s: Seq<u8>,
    head: InfoOldView,
    mod_marker: u8,
) -> Option<(InfoOldView, Seq<u8>)> {
    let parsed_mod: Option<(Option<ModDataView>, Seq<u8>)> = if mod_marker == 1 {
        match spec_parse_mod_data(s) {
            None => None,
            Some((m, rest)) => Some((Some(m), rest)),
        }
    } else {
        Some((None, s))
    };
    match parsed_mod {
        None => None,
        Some((mod_data, s)) => match sp_bool(s) {
            None => None,
            Some((vac_secured, s)) => match sp_u8(s) {
                None => None,
                Some((bots_num, s)) => Some(
                    (InfoOldView { mod_data, vac_secured, bots_num, ..head }, s),
                ),
            },
        },
    }
}

/// Reads an old-format info body (the bytes after the `'m'` kind byte).
pub fn parse_info_old(s: &[u8], pos: usize) -> (r: Result<(InfoOld, usize), Error>)
    requires
        pos <= s@.len(),
    ensures
        match spec_parse_info_old(s@.skip(pos as int)) {
            Some(t) => r matches Ok(p) && p.0@ == t.0 && pos <= p.1 <= s@.len() && s@.skip(
                p.1 as int,
            ) == t.1,
            None => r matches Err(Error::Parse(_)),
        },
{
    let (address, pos) = p_cstring(s, pos)?;
    let (name, pos) = p_cstring(s, pos)?;
    let (map, pos) = p_cstring(s, pos)?;
    let (folder, pos) = p_cstring(s, pos)?;
    let (game, pos) = p_cstring(s, pos)?;
    let (players, pos) = p_u8(s, pos)?;
    let (max_players, pos) = p_u8(s, pos)?;
    let (protocol, pos) = p_u8(s, pos)?;
    let (server_type, pos) = p_u8(s, pos)?;
    let (enviroment, pos) = p_u8(s, pos)?;
    let (is_private, pos) = p_flag0(s, pos)?;
    let (mod_marker, pos) = p_u8(s, pos)?;
    let (mod_data, pos) = if mod_marker == 1 {
        let (m, pos) = parse_mod_data(s, pos)?;
        (Some(m), pos)
    } else {
        (None, pos)
    };
    let (vac_secured, pos) = p_bool(s, pos)?;
    let (bots_num, pos) = p_u8(s, pos)?;
    let info = InfoOld {
        address,
        name,
        map,
        folder,
        game,
        players,
        max_players,
        protocol,
        server_type,
        enviroment,
        is_private,
        mod_data,
        vac_secured,
        bots_num,
    };
    Ok((info, pos))
}

// ---------------------------------------------------------------------------
// ExtraData
// ---------------------------------------------------------------------------

/// The Extra Data Flags tail of a new-format info response: a bitmask,
/// then one optional field per set bit, in wire order.
#[derive(Debug, Clone, PartialEq, Eq)]
pub struct ExtraData {
    pub edf: u8,
    pub port: Option<i16>,
    pub server_steamid: Option<u64>,
    pub port_source_tv: Option<i16>,
    pub name_source_tv: Option<Vec<u8>>,
    pub keywords: Option<Vec<u8>>,
    pub gameid: Option<u64>,
}

/// Mathematical model of `ExtraData`.
pub struct ExtraDataView {
    pub edf: u8,
    pub port: Option<int>,
    pub server_steamid: Option<int>,
    pub port_source_tv: Option<int>,
    pub name_source_tv: Option<Seq<u8>>,
    pub keywords: Option<Seq<u8>>,
    pub gameid: Option<int>,
}

impl View for ExtraData {
    type V = ExtraDataView;

    open spec fn view(&self) -> ExtraDataView {
        ExtraDataView {
            edf: self.edf,
            port: match self.port {
                Some(v) => Some(v as int),
                None => None,
            },
            server_steamid: match self.server_steamid {
                Some(v) => Some(v as int),
                None => None,
            },
            port_source_tv: match self.port_source_tv {
                Some(v) => Some(v as int),
                None => None,
            },
            name_source_tv: match self.name_source_tv {
                Some(ref v) => Some(v@),
                None => None,
            },
            keywords: match self.keywords {
                Some(ref v) => Some(v@),
                None => None,
            },
            gameid: match self.gameid {
                Some(v) => Some(v as int),
                None => None,
            },
        }
    }
}

/// The wire layout of the extra-data tail. Each bit of `edf` gates its
/// fields independently; a clear bit consumes nothing.
pub open spec fn spec_parse_extra_data(s: Seq<u8>) -> Option<(ExtraDataView, Seq<u8>)> {
    match sp_u8(s) {
        None => None,
        Some((edf, s)) => match sp_opt_i16(s, edf & 0x80 != 0) {
            None => None,
            Some((port, s)) => match sp_opt_u64(s, edf & 0x10 != 0) {
                None => None,
                Some((server_steamid, s)) => match sp_opt_i16(s, edf & 0x40 != 0) {
                    None => None,
                    Some((port_source_tv, s)) => match sp_opt_cstring(s, edf & 0x40 != 0) {
                        None => None,
                        Some((name_source_tv, s)) => match sp_opt_cstring(s, edf & 0x20 != 0) {
                            None => None,
                            Some((keywords, s)) => match sp_opt_u64(s, edf & 0x01 != 0) {
                                None => None,
                                Some((gameid, s)) => Some(
                                    (
                                        ExtraDataView {
                                            edf,
                                            port,
                                            server_steamid,
                                            port_source_tv,
                                            name_source_tv,
                                            keywords,
                                            gameid,
                                        },
                                        s,
                                    ),
                                ),
                            },
                        },
                    },
                },
            },
        },
    }
}

/// Reads the extra-data tail. A clear bit leaves its field absent and
/// consumes no bytes for it.
pub fn parse_extra_data(s: &[u8], pos: usize) -> (r: Result<(ExtraData, usize), Error>)
    requires
        pos <= s@.len(),
    ensures
        match spec_parse_extra_data(s@.skip(pos as int)) {
            Some(t) => r matches Ok(p) && p.0@ == t.0 && pos <= p.1 <= s@.len() && s@.skip(
                p.1 as int,
            ) == t.1,
            None => r matches Err(Error::Parse(_)),
        },
        r matches Ok(p) ==> {
            &&& p.0.edf & 0x80 == 0 ==> p.0.port is None
            &&& p.0.edf & 0x10 == 0 ==> p.0.server_steamid is None
            &&& p.0.edf & 0x40 == 0 ==> p.0.port_source_tv is None && p.0.name_source_tv is None
            &&& p.0.edf & 0x20 == 0 ==> p.0.keywords is None
            &&& p.0.edf & 0x01 == 0 ==> p.0.gameid is None
        },
{
    let (edf, pos) = p_u8(s, pos)?;
    let (port, pos) = if edf & 0x80 != 0 {
        let (v, pos) = p_u16(s, pos)?;
        (Some(to_i16(v)), pos)
    } else {
        (None, pos)
    };
    let (server_steamid, pos) = if edf & 0x10 != 0 {
        let (v, pos) = p_u64(s, pos)?;
        (Some(v), pos)
    } else {
        (None, pos)
    };
    let (port_source_tv, pos) = if edf & 0x40 != 0 {
        let (v, pos) = p_u16(s, pos)?;
        (Some(to_i16(v)), pos)
    } else {
        (None, pos)
    };
    let (name_source_tv, pos) = if edf & 0x40 != 0 {
        let (v, pos) = p_cstring(s, pos)?;
        (Some(v), pos)
    } else {
        (None, pos)
    };
    let (keywords, pos) = if edf & 0x20 != 0 {
        let (v, pos) = p_cstring(s, pos)?;
        (Some(v), pos)
    } else {
        (None, pos)
    };
    let (gameid, pos) = if edf & 0x01 != 0 {
        let (v, pos) = p_u64(s, pos)?;
        (Some(v), pos)
    } else {
        (None, pos)
    };
    let e = ExtraData { edf, port, server_steamid, port_source_tv, name_source_tv, keywords, gameid };
    Ok((e, pos))
}

// ---------------------------------------------------------------------------
// InfoNew
// ---------------------------------------------------------------------------

/// The new-format (`'I'`) info response of Source servers.
#[derive(Debug, Clone, PartialEq, Eq)]
pub struct InfoNew {
    pub protocol: u8,
    pub name: Vec<u8>,
    pub map: Vec<u8>,
    pub folder: Vec<u8>,
    pub game: Vec<u8>,
    pub steamid: i16,
    pub players: u8,
    pub max_players: u8,
    pub bots: u8,
    pub server_type: u8,
    pub enviroment: u8,
    pub is_visible: bool,
    pub vac_secured: bool,
    pub version: Vec<u8>,
    pub extra_data: ExtraData,
}

/// Mathematical model of `InfoNew`.
pub struct InfoNewView {
    pub protocol: u8,
    pub name: Seq<u8>,
    pub map: Seq<u8>,
    pub folder: Seq<u8>,
    pub game: Seq<u8>,
    pub steamid: int,
    pub players: u8,
    pub max_players: u8,
    pub bots: u8,
    pub server_type: u8,
    pub enviroment: u8,
    pub is_visible: bool,
    pub vac_secured: bool,
    pub version: Seq<u8>,
    pub extra_data: ExtraDataView,
}

impl View for InfoNew {
    type V = InfoNewView;

    open spec fn view(&self) -> InfoNewView {
        InfoNewView {
            protocol: self.protocol,
            name: self.name@,
            map: self.map@,
            folder: self.folder@,
            game: self.game@,
            steamid: self.steamid as int,
            players: self.players,
            max_players: self.max_players,
            bots: self.bots,
            server_type: self.server_type,
            enviroment: self.enviroment,
            is_visible: self.is_visible,
            vac_secured: self.vac_secured,
            version: self.version@,
            extra_data: self.extra_data@,
        }
    }
}

/// The wire layout of the new info body, ending in the extra-data tail.
pub open spec fn spec_parse_info_new(s: Seq<u8>) -> Option<(InfoNewView, Seq<u8>)> {
    match sp_u8(s) {
        None => None,
        Some((protocol, s)) => match sp_cstring(s) {
            None => None,
            Some((name, s)) => match sp_cstring(s) {
                None => None,
                Some((map, s)) => match sp_cstring(s) {
                    None => None,
                    Some((folder, s)) => match sp_cstring(s) {
                        None => None,
                        Some((game, s)) => match sp_u16(s) {
                            None => None,
                            Some((steamid, s)) => match sp_u8(s) {
                                None => None,
                                Some((players, s)) => match sp_u8(s) {
                                    None => None,
                                    Some((max_players, s)) => match sp_u8(s) {
                                        None => None,
                                        Some((bots, s)) => match sp_u8(s) {
                                            None => None,
                                            Some((server_type, s)) => match sp_u8(s) {
                                                None => None,
                                                Some((enviroment, s)) => match sp_bool(s) {
                                                    None => None,
                                                    Some((is_visible, s)) => match sp_bool(s) {
                                                        None => None,
                                                        Some((vac_secured, s)) => match sp_cstring(
                                                            s,
                                                        ) {
                                                            None => None,
                                                            Some((version, s)) => match spec_parse_extra_data(
                                                                s,
                                                            ) {
                                                                None => None,
                                                                Some((extra_data, s)) => Some(
                                                                    (
                                                                        InfoNewView {
                                                                            protocol,
                                                                            name,
                                                                            map,
                                                                            folder,
                                                                            game,
                                                                            steamid: as_signed16(
                                                                                steamid,
                                                                            ),
                                                                            players,
                                                                            max_players,
                                                                            bots,
                                                                            server_type,
                                                                            enviroment,
                                                                            is_visible,
                                                                            vac_secured,
                                                                            version,
                                                                            extra_data,
                                                                        },
                                                                        s,
                                                                    ),
                                                                ),
                                                            },
                                                        },
                                                    },
                                                },
                                            },
                                        },
                                    },
                                },
                            },
                        },
                    },
                },
            },
        },
    }
}

/// Reads a new-format info body (the bytes after the `'I'` kind byte).
pub fn parse_info_new(s: &[u8], pos: usize) -> (r: Result<(InfoNew, usize), Error>)
    requires
        pos <= s@.len(),
    ensures
        match spec_parse_info_new(s@.skip(pos as int)) {
            Some(t) => r matches Ok(p) && p.0@ == t.0 && pos <= p.1 <= s@.len() && s@.skip(
                p.1 as int,
            ) == t.1,
            None => r matches Err(Error::Parse(_)),
        },
{
    let (protocol, pos) = p_u8(s, pos)?;
    let (name, pos) = p_cstring(s, pos)?;
    let (map, pos) = p_cstring(s, pos)?;
    let (folder, pos) = p_cstring(s, pos)?;
    let (game, pos) = p_cstring(s, pos)?;
    let (steamid_raw, pos) = p_u16(s, pos)?;
    let (players, pos) = p_u8(s, pos)?;
    let (max_players, pos) = p_u8(s, pos)?;
    let (bots, pos) = p_u8(s, pos)?;
    let (server_type, pos) = p_u8(s, pos)?;
    let (enviroment, pos) = p_u8(s, pos)?;
    let (is_visible, pos) = p_bool(s, pos)?;
    let (vac_secured, pos) = p_bool(s, pos)?;
    let (version, pos) = p_cstring(s, pos)?;
    let (extra_data, pos) = parse_extra_data(s, pos)?;
    let info = InfoNew {
        protocol,
        name,
        map,
        folder,
        game,
        steamid: to_i16(steamid_raw),
        players,
        max_players,
        bots,
        server_type,
        enviroment,
        is_visible,
        vac_secured,
        version,
        extra_data,
    };
    Ok((info, pos))
}

// ---------------------------------------------------------------------------
// Players
// ---------------------------------------------------------------------------

/// One entry of a player-list (`'D'`) response. The connection time
/// arrives as a little-endian IEEE-754 `float32`; the codec keeps its raw
/// bits.
#[derive(Debug, Clone, PartialEq, Eq)]
pub struct Player {
    pub index: u8,
    pub name: Vec<u8>,
    pub score: i32,
    pub duration_bits: u32,
}

/// Mathematical model of `Player`.
pub struct PlayerView {
    pub index: u8,
    pub name: Seq<u8>,
    pub score: int,
    pub duration_bits: int,
}

impl View for Player {
    type V = PlayerView;

    open spec fn view(&self) -> PlayerView {
        PlayerView {
            index: self.index,
            name: self.name@,
            score: self.score as int,
            duration_bits: self.duration_bits as int,
        }
    }
}

/// The wire layout of one player record.
pub open spec fn spec_parse_player(s: Seq<u8>) -> Option<(PlayerView, Seq<u8>)> {
    match sp_u8(s) {
        None => None,
        Some((index, s)) => match sp_cstring(s) {
            None => None,
            Some((name, s)) => match sp_u32(s) {
                None => None,
                Some((score, s)) => match sp_u32(s) {
                    None => None,
                    Some((duration_bits, s)) => Some(
                        (
                            PlayerView { index, name, score: as_signed32(score), duration_bits },
                            s,
                        ),
                    ),
                },
            },
        },
    }
}

/// As many whole player records as the buffer holds; a trailing partial
/// record is not part of the list.
pub open spec fn spec_parse_players_greedy(s: Seq<u8>) -> Seq<PlayerView>
    decreases s.len(),
{
    match spec_parse_player(s) {
        None => Seq::empty(),
        Some((p, rest)) => if rest.len() < s.len() {
            seq![p] + spec_parse_players_greedy(rest)
        } else {
            seq![p]
        },
    }
}

/// The players of a sequence of records, as models.
pub open spec fn players_view(s: Seq<Player>) -> Seq<PlayerView> {
    s.map_values(|p: Player| p@)
}

/// Reads one player record.
fn parse_player(s: &[u8], pos: usize) -> (r: Result<(Player, usize), Error>)
    requires
        pos <= s@.len(),
    ensures
        match spec_parse_player(s@.skip(pos as int)) {
            Some(t) => r matches Ok(p) && p.0@ == t.0 && pos < p.1 <= s@.len() && s@.skip(
                p.1 as int,
            ) == t.1,
            None => r matches Err(Error::Parse(_)),
        },
{
    let (index, pos) = p_u8(s, pos)?;
    let (name, pos) = p_cstring(s, pos)?;
    let (score_raw, pos) = p_u32(s, pos)?;
    let (duration_bits, pos) = p_u32(s, pos)?;
    let p = Player { index, name, score: to_i32(score_raw), duration_bits };
    Ok((p, pos))
}

/// A player-list response: an advisory count, then the player records.
#[derive(Debug, Clone, PartialEq, Eq)]
pub struct PlayersList {
    pub players_num: u8,
    pub players: Vec<Player>,
}

/// Reads a player-list body (the bytes after the `'D'` kind byte): the
/// advisory count, then as many whole records as the buffer holds. The
/// count does not bound the list; the list holds what was parseable.
pub fn parse_players(s: &[u8], pos: usize) -> (r: Result<PlayersList, Error>)
    requires
        pos <= s@.len(),
    ensures
        match sp_u8(s@.skip(pos as int)) {
            Some(t) => r matches Ok(list) && list.players_num == t.0 && players_view(
                list.players@,
            ) == spec_parse_players_greedy(t.1),
            None => r matches Err(Error::Parse(_)),
        },
{
    let (players_num, start) = p_u8(s, pos)?;
    let mut players: Vec<Player> = Vec::new();
    let mut cur: usize = start;
    let ghost base = s@.skip(start as int);
    loop
        invariant
            start <= cur <= s@.len(),
            s@.skip(start as int) == base,
            spec_parse_players_greedy(base) == players_view(players@) + spec_parse_players_greedy(
                s@.skip(cur as int),
            ),
        ensures
            spec_parse_players_greedy(base) == players_view(players@),
        decreases s@.len() - cur,
    {
        let ghost before = s@.skip(cur as int);
        match parse_player(s, cur) {
            Ok((p, np)) => {
                proof {
                    let t = spec_parse_player(before).unwrap();
                    assert(spec_parse_players_greedy(before) == seq![t.0]
                        + spec_parse_players_greedy(t.1));
                    assert(players_view(players@.push(p)) =~= players_view(players@) + seq![p@]);
                    assert(players_view(players@) + (seq![t.0] + spec_parse_players_greedy(t.1))
                        =~= (players_view(players@) + seq![t.0]) + spec_parse_players_greedy(
                        t.1,
                    ));
                }
                players.push(p);
                cur = np;
            },
            Err(_) => {
                proof {
                    assert(spec_parse_players_greedy(before) =~= Seq::<PlayerView>::empty());
                    assert(players_view(players@) + Seq::<PlayerView>::empty() =~= players_view(
                        players@,
                    ));
                }
                break;
            },
        }
    }
    Ok(PlayersList { players_num, players })
}

// ---------------------------------------------------------------------------
// Rules
// ---------------------------------------------------------------------------

/// One key/value pair of a rules (`'E'`) response.
#[derive(Debug, Clone, PartialEq, Eq)]
pub struct Rule {
    pub key: Vec<u8>,
    pub value: Vec<u8>,
}

/// Mathematical model of `Rule`.
pub struct RuleView {
    pub key: Seq<u8>,
    pub value: Seq<u8>,
}

impl View for Rule {
    type V = RuleView;

    open spec fn view(&self) -> RuleView {
        RuleView { key: self.key@, value: self.value@ }
    }
}

/// The wire layout of one rule: two NUL-terminated strings.
pub open spec fn spec_parse_rule(s: Seq<u8>) -> Option<(RuleView, Seq<u8>)> {
    match sp_cstring(s) {
        None => None,
        Some((key, s)) => match sp_cstring(s) {
            None => None,
            Some((value, s)) => Some((RuleView { key, value }, s)),
        },
    }
}

/// As many whole rules as the buffer holds.
pub open spec fn spec_parse_rules_greedy(s: Seq<u8>) -> Seq<RuleView>
    decreases s.len(),
{
    match spec_parse_rule(s) {
        None => Seq::empty(),
        Some((p, rest)) => if rest.len() < s.len() {
            seq![p] + spec_parse_rules_greedy(rest)
        } else {
            seq![p]
        },
    }
}

/// The rules of a sequence of records, as models.
pub open spec fn rules_view(s: Seq<Rule>) -> Seq<RuleView> {
    s.map_values(|p: Rule| p@)
}

/// Reads one rule.
fn parse_rule(s: &[u8], pos: usize) -> (r: Result<(Rule, usize), Error>)
    requires
        pos <= s@.len(),
    ensures
        match spec_parse_rule(s@.skip(pos as int)) {
            Some(t) => r matches Ok(p) && p.0@ == t.0 && pos < p.1 <= s@.len() && s@.skip(
                p.1 as int,
            ) == t.1,
            None => r matches Err(Error::Parse(_)),
        },
{
    let (key, pos) = p_cstring(s, pos)?;
    let (value, pos) = p_cstring(s, pos)?;
    Ok((Rule { key, value }, pos))
}

/// A rules response: an advisory count, then the key/value pairs.
#[derive(Debug, Clone, PartialEq, Eq)]
pub struct RulesList {
    pub rules_num: u16,
    pub rules: Vec<Rule>,
}

/// Reads a rules body (the bytes after the `'E'` kind byte): the advisory
/// two-byte count, then as many whole pairs as the buffer holds. The count
/// may disagree with the list; the list holds what was parseable.
pub fn parse_rules(s: &[u8], pos: usize) -> (r: Result<RulesList, Error>)
    requires
        pos <= s@.len(),
    ensures
        match sp_u16(s@.skip(pos as int)) {
            Some(t) => r matches Ok(list) && list.rules_num == t.0 && rules_view(list.rules@)
                == spec_parse_rules_greedy(t.1),
            None => r matches Err(Error::Parse(_)),
        },
{
    let (rules_num, start) = p_u16(s, pos)?;
    let mut rules: Vec<Rule> = Vec::new();
    let mut cur: usize = start;
    let ghost base = s@.skip(start as int);
    loop
        invariant
            start <= cur <= s@.len(),
            s@.skip(start as int) == base,
            spec_parse_rules_greedy(base) == rules_view(rules@) + spec_parse_rules_greedy(
                s@.skip(cur as int),
            ),
        ensures
            spec_parse_rules_greedy(base) == rules_view(rules@),
        decreases s@.len() - cur,
    {
        let ghost before = s@.skip(cur as int);
        match parse_rule(s, cur) {
            Ok((p, np)) => {
                proof {
                    let t = spec_parse_rule(before).unwrap();
                    assert(spec_parse_rules_greedy(before) == seq![t.0] + spec_parse_rules_greedy(
                        t.1,
                    ));
                    assert(rules_view(rules@.push(p)) =~= rules_view(rules@) + seq![p@]);
                    assert(rules_view(rules@) + (seq![t.0] + spec_parse_rules_greedy(t.1)) =~= (
                    rules_view(rules@) + seq![t.0]) + spec_parse_rules_greedy(t.1));
                }
                rules.push(p);
                cur = np;
            },
            Err(_) => {
                proof {
                    assert(spec_parse_rules_greedy(before) =~= Seq::<RuleView>::empty());
                    assert(rules_view(rules@) + Seq::<RuleView>::empty() =~= rules_view(rules@));
                }
                break;
            },
        }
    }
    Ok(RulesList { rules_num, rules })
}

// ---------------------------------------------------------------------------
// Encoders, and the round trip
// ---------------------------------------------------------------------------

/// The unsigned 16-bit representation of a signed 16-bit value.
pub open spec fn to_unsigned16(x: int) -> int {
    if x < 0 {
        x + 0x10000
    } else {
        x
    }
}

/// The two little-endian bytes of a value in `[0, 2^16)`.
pub open spec fn le2(v: int) -> Seq<u8> {
    seq![(v % 0x100) as u8, ((v / 0x100) % 0x100) as u8]
}

/// The four little-endian bytes of a value in `[0, 2^32)`.
pub open spec fn le4(v: int) -> Seq<u8> {
    le2(v % 0x10000) + le2(v / 0x10000)
}

/// The eight little-endian bytes of a value in `[0, 2^64)`.
pub open spec fn le8(v: int) -> Seq<u8> {
    le4(v % 0x1_0000_0000) + le4(v / 0x1_0000_0000)
}

/// Reading two encoded bytes yields the encoded value.
proof fn lemma_le2_parse(v: int, rest: Seq<u8>)
    requires
        0 <= v < 0x10000,
    ensures
        sp_u16(le2(v) + rest) == Some((v, rest)),
{
    let s = le2(v) + rest;
    assert(s[0] == (v % 0x100) as u8 && s[1] == ((v / 0x100) % 0x100) as u8);
    assert(le16_at(s, 0) == v);
    assert(s.skip(2) =~= rest);
}

/// Reading four encoded bytes yields the encoded value.
proof fn lemma_le4_parse(v: int, rest: Seq<u8>)
    requires
        0 <= v < 0x1_0000_0000,
    ensures
        sp_u32(le4(v) + rest) == Some((v, rest)),
{
    let s = le4(v) + rest;
    let lo = v % 0x10000;
    let hi = v / 0x10000;
    assert(s[0] == (lo % 0x100) as u8 && s[1] == ((lo / 0x100) % 0x100) as u8);
    assert(s[2] == (hi % 0x100) as u8 && s[3] == ((hi / 0x100) % 0x100) as u8);
    assert(le32_at(s, 0) == lo + 0x10000 * hi);
    assert(s.skip(4) =~= rest);
}

/// Reading eight encoded bytes yields the encoded value.
proof fn lemma_le8_parse(v: int, rest: Seq<u8>)
    requires
        0 <= v < 0x1_0000_0000_0000_0000,
    ensures
        sp_u64(le8(v) + rest) == Some((v, rest)),
{
    let s = le8(v) + rest;
    let lo = v % 0x1_0000_0000;
    let hi = v / 0x1_0000_0000;
    let lolo = lo % 0x10000;
    let lohi = lo / 0x10000;
    let hilo = hi % 0x10000;
    let hihi = hi / 0x10000;
    assert(s[0] == (lolo % 0x100) as u8 && s[1] == ((lolo / 0x100) % 0x100) as u8);
    assert(s[2] == (lohi % 0x100) as u8 && s[3] == ((lohi / 0x100) % 0x100) as u8);
    assert(s[4] == (hilo % 0x100) as u8 && s[5] == ((hilo / 0x100) % 0x100) as u8);
    assert(s[6] == (hihi % 0x100) as u8 && s[7] == ((hihi / 0x100) % 0x100) as u8);
    assert(le32_at(s, 0) == lo);
    assert(le32_at(s, 4) == hi);
    assert(le64_at(s, 0) == v);
    assert(s.skip(8) =~= rest);
}

/// Reading one encoded byte yields the byte.
proof fn lemma_u8_parse(b: u8, rest: Seq<u8>)
    ensures
        sp_u8(seq![b] + rest) == Some((b, rest)),
{
    let s = seq![b] + rest;
    assert(s[0] == b);
    assert(s.skip(1) =~= rest);
}

/// Reading an encoded flag byte yields the flag.
proof fn lemma_bool_parse(v: bool, rest: Seq<u8>)
    ensures
        sp_bool(seq![(if v { 1u8 } else { 0u8 })] + rest) == Some((v, rest)),
{
    let s = seq![(if v { 1u8 } else { 0u8 })] + rest;
    assert(s[0] == if v { 1u8 } else { 0u8 });
    assert(s.skip(1) =~= rest);
}

/// A byte string without NUL.
pub open spec fn no_nul(s: Seq<u8>) -> bool {
    forall|i: int| 0 <= i < s.len() ==> s[i] != 0
}

/// Reading an encoded NUL-terminated string yields the string.
proof fn lemma_cstring_parse(name: Seq<u8>, rest: Seq<u8>)
    requires
        no_nul(name),
    ensures
        sp_cstring(name + seq![0u8] + rest) == Some((name, rest)),
{
    let s = name + seq![0u8] + rest;
    let k = name.len() as int;
    assert(s[k] == 0);
    crate::cursor::lemma_find_nul(s, 0);
    match find_nul(s, 0) {
        Some(e) => {
            if e < k {
                assert(s[e] == name[e]);
            }
            if e > k {
                assert(s[k] != 0);
            }
            assert(e == k);
            assert(s.take(k) =~= name);
            assert(s.skip(k + 1) =~= rest);
        },
        None => {
            assert(s[k] != 0);
        },
    }
}

/// When an extra-data record is consistent: each optional field is
/// present exactly when its bit is set, numbers fit their wire fields,
/// and strings carry no NUL.
pub open spec fn wf_extra_data(v: ExtraDataView) -> bool {
    &&& (v.edf & 0x80 != 0 <==> v.port is Some)
    &&& (v.edf & 0x10 != 0 <==> v.server_steamid is Some)
    &&& (v.edf & 0x40 != 0 <==> v.port_source_tv is Some)
    &&& (v.edf & 0x40 != 0 <==> v.name_source_tv is Some)
    &&& (v.edf & 0x20 != 0 <==> v.keywords is Some)
    &&& (v.edf & 0x01 != 0 <==> v.gameid is Some)
    &&& (v.port matches Some(x) ==> -0x8000 <= x < 0x8000)
    &&& (v.server_steamid matches Some(x) ==> 0 <= x < 0x1_0000_0000_0000_0000)
    &&& (v.port_source_tv matches Some(x) ==> -0x8000 <= x < 0x8000)
    &&& (v.name_source_tv matches Some(nm) ==> no_nul(nm))
    &&& (v.keywords matches Some(k) ==> no_nul(k))
    &&& (v.gameid matches Some(x) ==> 0 <= x < 0x1_0000_0000_0000_0000)
}

/// The bytes of an optional `i16` field: nothing when absent.
pub open spec fn enc_opt_i16(x: Option<int>) -> Seq<u8> {
    match x {
        Some(v) => le2(to_unsigned16(v)),
        None => Seq::empty(),
    }
}

/// The bytes of an optional `u64` field: nothing when absent.
pub open spec fn enc_opt_u64(x: Option<int>) -> Seq<u8> {
    match x {
        Some(v) => le8(v),
        None => Seq::empty(),
    }
}

/// The bytes of an optional string field: nothing when absent.
pub open spec fn enc_opt_cstring(x: Option<Seq<u8>>) -> Seq<u8> {
    match x {
        Some(nm) => nm + seq![0u8],
        None => Seq::empty(),
    }
}

/// The wire bytes of an extra-data record: the bitmask, then the present
/// fields in wire order.
pub open spec fn spec_encode_extra_data(v: ExtraDataView) -> Seq<u8> {
    seq![v.edf] + enc_opt_i16(v.port) + enc_opt_u64(v.server_steamid) + enc_opt_i16(
        v.port_source_tv,
    ) + enc_opt_cstring(v.name_source_tv) + enc_opt_cstring(v.keywords) + enc_opt_u64(v.gameid)
}

/// Reading an optional `i16` field back.
proof fn lemma_opt_i16_rt(x: Option<int>, cond: bool, tail: Seq<u8>)
    requires
        cond <==> x is Some,
        x matches Some(v) ==> -0x8000 <= v < 0x8000,
    ensures
        sp_opt_i16(enc_opt_i16(x) + tail, cond) == Some((x, tail)),
{
    match x {
        Some(v) => {
            lemma_le2_parse(to_unsigned16(v), tail);
            assert(as_signed16(to_unsigned16(v)) == v);
        },
        None => {
            assert(enc_opt_i16(x) + tail =~= tail);
        },
    }
}

/// Reading an optional `u64` field back.
proof fn lemma_opt_u64_rt(x: Option<int>, cond: bool, tail: Seq<u8>)
    requires
        cond <==> x is Some,
        x matches Some(v) ==> 0 <= v < 0x1_0000_0000_0000_0000,
    ensures
        sp_opt_u64(enc_opt_u64(x) + tail, cond) == Some((x, tail)),
{
    match x {
        Some(v) => {
            lemma_le8_parse(v, tail);
        },
        None => {
            assert(enc_opt_u64(x) + tail =~= tail);
        },
    }
}

/// Reading an optional string field back.
proof fn lemma_opt_cstring_rt(x: Option<Seq<u8>>, cond: bool, tail: Seq<u8>)
    requires
        cond <==> x is Some,
        x matches Some(nm) ==> no_nul(nm),
    ensures
        sp_opt_cstring(enc_opt_cstring(x) + tail, cond) == Some((x, tail)),
{
    match x {
        Some(nm) => {
            lemma_cstring_parse(nm, tail);
            assert(enc_opt_cstring(x) + tail =~= nm + seq![0u8] + tail);
        },
        None => {
            assert(enc_opt_cstring(x) + tail =~= tail);
        },
    }
}

/// Combining the field readings: when each field of `s` reads back as
/// the fields of `v` say, the whole record reads back as `v`.
proof fn lemma_extra_data_combine(
    v: ExtraDataView,
    s: Seq<u8>,
    t0: Seq<u8>,
    t1: Seq<u8>,
    t2: Seq<u8>,
    t3: Seq<u8>,
    t4: Seq<u8>,
    t5: Seq<u8>,
    t6: Seq<u8>,
)
    requires
        sp_u8(s) == Some((v.edf, t0)),
        sp_opt_i16(t0, v.edf & 0x80 != 0) == Some((v.port, t1)),
        sp_opt_u64(t1, v.edf & 0x10 != 0) == Some((v.server_steamid, t2)),
        sp_opt_i16(t2, v.edf & 0x40 != 0) == Some((v.port_source_tv, t3)),
        sp_opt_cstring(t3, v.edf & 0x40 != 0) == Some((v.name_source_tv, t4)),
        sp_opt_cstring(t4, v.edf & 0x20 != 0) == Some((v.keywords, t5)),
        sp_opt_u64(t5, v.edf & 0x01 != 0) == Some((v.gameid, t6)),
    ensures
        spec_parse_extra_data(s) == Some((v, t6)),
{
}

/// Prepending the encoding re-associated field by field.
#[verifier::spinoff_prover]
#[verifier::rlimit(100)]
proof fn lemma_extra_data_encode_assoc(v: ExtraDataView, rest: Seq<u8>)
    ensures
        spec_encode_extra_data(v) + rest == seq![v.edf] + (enc_opt_i16(v.port) + (enc_opt_u64(
            v.server_steamid,
        ) + (enc_opt_i16(v.port_source_tv) + (enc_opt_cstring(v.name_source_tv) + (
        enc_opt_cstring(v.keywords) + (enc_opt_u64(v.gameid) + rest)))))),
{
    assert(spec_encode_extra_data(v) + rest =~= seq![v.edf] + (enc_opt_i16(v.port) + (
    enc_opt_u64(v.server_steamid) + (enc_opt_i16(v.port_source_tv) + (enc_opt_cstring(
        v.name_source_tv,
    ) + (enc_opt_cstring(v.keywords) + (enc_opt_u64(v.gameid) + rest)))))));
}

/// Law: the extra-data round trip. Encoding any consistent extra-data
/// record and decoding yields the record back, whatever the five used
/// bits of `edf` say, with the bytes after the encoding untouched.
#[verifier::spinoff_prover]
#[verifier::rlimit(100)]
pub proof fn lemma_extra_data_round_trip(v: ExtraDataView, rest: Seq<u8>)
    requires
        wf_extra_data(v),
    ensures
        spec_parse_extra_data(spec_encode_extra_data(v) + rest) == Some((v, rest)),
{
    let t6 = rest;
    let t5 = enc_opt_u64(v.gameid) + t6;
    let t4 = enc_opt_cstring(v.keywords) + t5;
    let t3 = enc_opt_cstring(v.name_source_tv) + t4;
    let t2 = enc_opt_i16(v.port_source_tv) + t3;
    let t1 = enc_opt_u64(v.server_steamid) + t2;
    let t0 = enc_opt_i16(v.port) + t1;
    lemma_extra_data_encode_assoc(v, rest);
    lemma_u8_parse(v.edf, t0);
    lemma_opt_i16_rt(v.port, v.edf & 0x80 != 0, t1);
    lemma_opt_u64_rt(v.server_steamid, v.edf & 0x10 != 0, t2);
    lemma_opt_i16_rt(v.port_source_tv, v.edf & 0x40 != 0, t3);
    lemma_opt_cstring_rt(v.name_source_tv, v.edf & 0x40 != 0, t4);
    lemma_opt_cstring_rt(v.keywords, v.edf & 0x20 != 0, t5);
    lemma_opt_u64_rt(v.gameid, v.edf & 0x01 != 0, t6);
    lemma_extra_data_combine(v, spec_encode_extra_data(v) + rest, t0, t1, t2, t3, t4, t5, t6);
}

/// The wire byte of a flag.
pub open spec fn bool_byte(b: bool) -> u8 {
    if b {
        1u8
    } else {
        0u8
    }
}

/// When a new-format info record is consistent: strings carry no NUL, the
/// steam id fits its wire field, and the extra-data tail is consistent.
pub open spec fn wf_info_new(v: InfoNewView) -> bool {
    &&& no_nul(v.name)
    &&& no_nul(v.map)
    &&& no_nul(v.folder)
    &&& no_nul(v.game)
    &&& no_nul(v.version)
    &&& -0x8000 <= v.steamid < 0x8000
    &&& wf_extra_data(v.extra_data)
}

/// The wire bytes of a new-format info record.
pub open spec fn spec_encode_info_new(v: InfoNewView) -> Seq<u8> {
    seq![v.protocol] + (v.name + seq![0u8]) + (v.map + seq![0u8]) + (v.folder + seq![0u8]) + (
    v.game + seq![0u8]) + le2(to_unsigned16(v.steamid)) + seq![v.players] + seq![v.max_players]
        + seq![v.bots] + seq![v.server_type] + seq![v.enviroment] + seq![bool_byte(v.is_visible)]
        + seq![bool_byte(v.vac_secured)] + (v.version + seq![0u8]) + spec_encode_extra_data(
        v.extra_data,
    )
}

/// Prepending the encoding re-associated field by field.
#[verifier::spinoff_prover]
#[verifier::rlimit(100)]
proof fn lemma_info_new_encode_assoc(v: InfoNewView, rest: Seq<u8>)
    ensures
        spec_encode_info_new(v) + rest == seq![v.protocol] + ((v.name + seq![0u8]) + ((v.map
            + seq![0u8]) + ((v.folder + seq![0u8]) + ((v.game + seq![0u8]) + (le2(
            to_unsigned16(v.steamid),
        ) + (seq![v.players] + (seq![v.max_players] + (seq![v.bots] + (seq![v.server_type] + (
        seq![v.enviroment] + (seq![bool_byte(v.is_visible)] + (seq![bool_byte(v.vac_secured)] + ((
        v.version + seq![0u8]) + (spec_encode_extra_data(v.extra_data) + rest)))))))))))))),
{
    assert(spec_encode_info_new(v) + rest =~= seq![v.protocol] + ((v.name + seq![0u8]) + ((v.map
        + seq![0u8]) + ((v.folder + seq![0u8]) + ((v.game + seq![0u8]) + (le2(
        to_unsigned16(v.steamid),
    ) + (seq![v.players] + (seq![v.max_players] + (seq![v.bots] + (seq![v.server_type] + (
    seq![v.enviroment] + (seq![bool_byte(v.is_visible)] + (seq![bool_byte(v.vac_secured)] + ((
    v.version + seq![0u8]) + (spec_encode_extra_data(v.extra_data) + rest)))))))))))))));
}

/// Combining the field readings: when each field of `s` reads back as
/// the fields of `v` say, the whole record reads back as `v`.
proof fn lemma_info_new_combine(
    v: InfoNewView,
    s: Seq<u8>,
    sid_raw: int,
    t0: Seq<u8>,
    t1: Seq<u8>,
    t2: Seq<u8>,
    t3: Seq<u8>,
    t4: Seq<u8>,
    t5: Seq<u8>,
    t6: Seq<u8>,
    t7: Seq<u8>,
    t8: Seq<u8>,
    t9: Seq<u8>,
    t10: Seq<u8>,
    t11: Seq<u8>,
    t12: Seq<u8>,
    t13: Seq<u8>,
    t14: Seq<u8>,
)
    requires
        sp_u8(s) == Some((v.protocol, t0)),
        sp_cstring(t0) == Some((v.name, t1)),
        sp_cstring(t1) == Some((v.map, t2)),
        sp_cstring(t2) == Some((v.folder, t3)),
        sp_cstring(t3) == Some((v.game, t4)),
        sp_u16(t4) == Some((sid_raw, t5)),
        as_signed16(sid_raw) == v.steamid,
        sp_u8(t5) == Some((v.players, t6)),
        sp_u8(t6) == Some((v.max_players, t7)),
        sp_u8(t7) == Some((v.bots, t8)),
        sp_u8(t8) == Some((v.server_type, t9)),
        sp_u8(t9) == Some((v.enviroment, t10)),
        sp_bool(t10) == Some((v.is_visible, t11)),
        sp_bool(t11) == Some((v.vac_secured, t12)),
        sp_cstring(t12) == Some((v.version, t13)),
        spec_parse_extra_data(t13) == Some((v.extra_data, t14)),
    ensures
        spec_parse_info_new(s) == Some((v, t14)),
{
}

/// Law: the new-info round trip. Encoding any consistent new-format info
/// record — the extra-data tail and its `edf` included — and decoding
/// yields the identical record, with the bytes after the encoding
/// untouched.
#[verifier::spinoff_prover]
#[verifier::rlimit(100)]
pub proof fn lemma_info_new_round_trip(v: InfoNewView, rest: Seq<u8>)
    requires
        wf_info_new(v),
    ensures
        spec_parse_info_new(spec_encode_info_new(v) + rest) == Some((v, rest)),
{
    let u15 = rest;
    let u14 = spec_encode_extra_data(v.extra_data) + u15;
    let u13 = (v.version + seq![0u8]) + u14;
    let u12 = seq![bool_byte(v.vac_secured)] + u13;
    let u11 = seq![bool_byte(v.is_visible)] + u12;
    let u10 = seq![v.enviroment] + u11;
    let u9 = seq![v.server_type] + u10;
    let u8v = seq![v.bots] + u9;
    let u7 = seq![v.max_players] + u8v;
    let u6 = seq![v.players] + u7;
    let u5 = le2(to_unsigned16(v.steamid)) + u6;
    let u4 = (v.game + seq![0u8]) + u5;
    let u3 = (v.folder + seq![0u8]) + u4;
    let u2 = (v.map + seq![0u8]) + u3;
    let u1 = (v.name + seq![0u8]) + u2;
    lemma_info_new_encode_assoc(v, rest);
    lemma_u8_parse(v.protocol, u1);
    lemma_cstring_parse(v.name, u2);
    lemma_cstring_parse(v.map, u3);
    lemma_cstring_parse(v.folder, u4);
    lemma_cstring_parse(v.game, u5);
    lemma_le2_parse(to_unsigned16(v.steamid), u6);
    lemma_u8_parse(v.players, u7);
    lemma_u8_parse(v.max_players, u8v);
    lemma_u8_parse(v.bots, u9);
    lemma_u8_parse(v.server_type, u10);
    lemma_u8_parse(v.enviroment, u11);
    lemma_bool_parse(v.is_visible, u12);
    lemma_bool_parse(v.vac_secured, u13);
    lemma_cstring_parse(v.version, u14);
    lemma_extra_data_round_trip(v.extra_data, u15);
    assert(as_signed16(to_unsigned16(v.steamid)) == v.steamid);
    lemma_info_new_combine(
        v,
        spec_encode_info_new(v) + rest,
        to_unsigned16(v.steamid),
        u1,
        u2,
        u3,
        u4,
        u5,
        u6,
        u7,
        u8v,
        u9,
        u10,
        u11,
        u12,
        u13,
        u14,
        u15,
    );
}

/// The unsigned 16-bit value with the same bytes as a signed one.
fn u16_of_i16(x: i16) -> (r: u16)
    ensures
        r == to_unsigned16(x as int),
{
    if x >= 0 {
        x as u16
    } else {
        ((x as i32) + 0x10000) as u16
    }
}

/// Appends the two little-endian bytes of a 16-bit value.
fn push_le2(out: &mut Vec<u8>, v: u16)
    ensures
        final(out)@ == old(out)@ + le2(v as int),
{
    out.push((v % 0x100) as u8);
    out.push((v / 0x100) as u8);
    proof {
        assert(out@ =~= old(out)@ + le2(v as int));
    }
}

/// Appends the four little-endian bytes of a 32-bit value.
fn push_le4(out: &mut Vec<u8>, v: u32)
    ensures
        final(out)@ == old(out)@ + le4(v as int),
{
    push_le2(out, (v % 0x10000) as u16);
    push_le2(out, (v / 0x10000) as u16);
    proof {
        assert(out@ =~= old(out)@ + le4(v as int));
    }
}

/// Appends the eight little-endian bytes of a 64-bit value.
fn push_le8(out: &mut Vec<u8>, v: u64)
    ensures
        final(out)@ == old(out)@ + le8(v as int),
{
    push_le4(out, (v % 0x1_0000_0000) as u32);
    push_le4(out, (v / 0x1_0000_0000) as u32);
    proof {
        assert(out@ =~= old(out)@ + le8(v as int));
    }
}

/// Appends a string and its NUL terminator.
fn push_cstring(out: &mut Vec<u8>, s: &Vec<u8>)
    ensures
        final(out)@ == old(out)@ + s@ + seq![0u8],
{
    out.extend_from_slice(s.as_slice());
    out.push(0);
    proof {
        assert(out@ =~= old(out)@ + s@ + seq![0u8]);
    }
}

/// Encodes a consistent extra-data record to its wire bytes: the inverse
/// of `parse_extra_data`.
#[verifier::spinoff_prover]
#[verifier::rlimit(100)]
pub fn encode_extra_data(e: &ExtraData) -> (r: Vec<u8>)
    requires
        wf_extra_data(e@),
    ensures
        r@ == spec_encode_extra_data(e@),
{
    let mut out: Vec<u8> = Vec::new();
    out.push(e.edf);
    match e.port {
        Some(x) => push_le2(&mut out, u16_of_i16(x)),
        None => {},
    }
    proof {
        assert(out@ =~= seq![e@.edf] + enc_opt_i16(e@.port));
    }
    match e.server_steamid {
        Some(x) => push_le8(&mut out, x),
        None => {},
    }
    match e.port_source_tv {
        Some(x) => push_le2(&mut out, u16_of_i16(x)),
        None => {},
    }
    match &e.name_source_tv {
        Some(nm) => push_cstring(&mut out, nm),
        None => {},
    }
    match &e.keywords {
        Some(k) => push_cstring(&mut out, k),
        None => {},
    }
    match e.gameid {
        Some(x) => push_le8(&mut out, x),
        None => {},
    }
    proof {
        assert(out@ =~= spec_encode_extra_data(e@));
    }
    out
}

/// Encodes a consistent new-format info record to its wire bytes: the
/// inverse of `parse_info_new`.
#[verifier::spinoff_prover]
#[verifier::rlimit(100)]
pub fn encode_info_new(info: &InfoNew) -> (r: Vec<u8>)
    requires
        wf_info_new(info@),
    ensures
        r@ == spec_encode_info_new(info@),
{
    let mut out: Vec<u8> = Vec::new();
    out.push(info.protocol);
    push_cstring(&mut out, &info.name);
    push_cstring(&mut out, &info.map);
    push_cstring(&mut out, &info.folder);
    push_cstring(&mut out, &info.game);
    push_le2(&mut out, u16_of_i16(info.steamid));
    out.push(info.players);
    out.push(info.max_players);
    out.push(info.bots);
    out.push(info.server_type);
    out.push(info.enviroment);
    out.push(if info.is_visible {
        1
    } else {
        0
    });
    out.push(if info.vac_secured {
        1
    } else {
        0
    });
    push_cstring(&mut out, &info.version);
    let tail = encode_extra_data(&info.extra_data);
    out.extend_from_slice(tail.as_slice());
    proof {
        assert(out@ =~= spec_encode_info_new(info@));
    }
    out
}

} // verus!
