//! The master-server query: the request packet, the reply of 6-byte IPv4
//! endpoints, the filter query string, and the seeded pagination step.
//! The caller owns the socket; this module builds the request bytes and
//! decodes and paginates the replies.

use vstd::prelude::*;
use crate::cursor::be16_at;
use crate::error::Error;

verus! {

broadcast use vstd::slice::axiom_spec_len;

/// An IPv4 endpoint as the master wire format carries it: four address
/// bytes and a big-endian port.
#[derive(Debug, Clone, Copy, PartialEq, Eq, Structural)]
pub struct Addr {
    pub a: u8,
    pub b: u8,
    pub c: u8,
    pub d: u8,
    pub port: u16,
}

impl Addr {
    /// Whether this is `0.0.0.0:0`, the seed of the first request and the
    /// end-of-list marker.
    pub open spec fn is_sentinel(self) -> bool {
        self.a == 0 && self.b == 0 && self.c == 0 && self.d == 0 && self.port == 0
    }

    /// The sentinel address `0.0.0.0:0`.
    pub fn sentinel() -> (r: Addr)
        ensures
            r.is_sentinel(),
            r == (Addr { a: 0, b: 0, c: 0, d: 0, port: 0 }),
    {
        Addr { a: 0, b: 0, c: 0, d: 0, port: 0 }
    }

    /// Whether this address is the sentinel.
    pub fn is_nul(&self) -> (r: bool)
        ensures
            r == self.is_sentinel(),
    {
        self.a == 0 && self.b == 0 && self.c == 0 && self.d == 0 && self.port == 0
    }
}

/// The region filter of a master request.
#[derive(Debug, Clone, Copy, PartialEq, Eq, Structural)]
pub enum Region {
    UsEastCost,
    UsWestCost,
    SouthAmerica,
    Europe,
    Asia,
    Australia,
    MiddleEast,
    Africa,
    All,
}

/// The wire code of each region.
pub open spec fn spec_region_code(r: Region) -> u8 {
    match r {
        Region::UsEastCost => 0x00,
        Region::UsWestCost => 0x01,
        Region::SouthAmerica => 0x02,
        Region::Europe => 0x03,
        Region::Asia => 0x04,
        Region::Australia => 0x05,
        Region::MiddleEast => 0x06,
        Region::Africa => 0x07,
        Region::All => 0xFF,
    }
}

impl Region {
    /// The byte that names this region on the wire.
    pub fn code(&self) -> (c: u8)
        ensures
            c == spec_region_code(*self),
    {
        match self {
            Region::UsEastCost => 0x00,
            Region::UsWestCost => 0x01,
            Region::SouthAmerica => 0x02,
            Region::Europe => 0x03,
            Region::Asia => 0x04,
            Region::Australia => 0x05,
            Region::MiddleEast => 0x06,
            Region::Africa => 0x07,
            Region::All => 0xFF,
        }
    }
}

// ---------------------------------------------------------------------------
// Decimal text
// ---------------------------------------------------------------------------

/// The ASCII decimal digits of a non-negative number.
pub open spec fn spec_decimal(n: int) -> Seq<u8>
    decreases n,
{
    if n < 10 {
        seq![(0x30 + if n >= 0 { n } else { 0 }) as u8]
    } else {
        spec_decimal(n / 10) + seq![(0x30 + n % 10) as u8]
    }
}

/// Appends the decimal digits of `n`.
fn append_decimal(n: u64, out: &mut Vec<u8>)
    ensures
        final(out)@ == old(out)@ + spec_decimal(n as int),
    decreases n,
{
    if n < 10 {
        out.push((0x30 + n) as u8);
        proof {
            assert(old(out)@ + spec_decimal(n as int) =~= out@);
        }
    } else {
        append_decimal(n / 10, out);
        out.push((0x30 + (n % 10)) as u8);
        proof {
            assert(old(out)@ + spec_decimal(n as int) =~= out@);
        }
    }
}

/// The text form `a.b.c.d:port` of an address, as the master request's
/// seed field carries it.
pub open spec fn spec_addr_text(addr: Addr) -> Seq<u8> {
    spec_decimal(addr.a as int) + seq![0x2eu8] + spec_decimal(addr.b as int) + seq![0x2eu8]
        + spec_decimal(addr.c as int) + seq![0x2eu8] + spec_decimal(addr.d as int) + seq![0x3au8]
        + spec_decimal(addr.port as int)
}

/// Renders an address as `a.b.c.d:port` text.
pub fn addr_text(addr: &Addr) -> (r: Vec<u8>)
    ensures
        r@ == spec_addr_text(*addr),
{
    let mut out: Vec<u8> = Vec::new();
    append_decimal(addr.a as u64, &mut out);
    out.push(0x2e);
    append_decimal(addr.b as u64, &mut out);
    out.push(0x2e);
    append_decimal(addr.c as u64, &mut out);
    out.push(0x2e);
    append_decimal(addr.d as u64, &mut out);
    out.push(0x3a);
    append_decimal(addr.port as u64, &mut out);
    proof {
        assert(out@ =~= spec_addr_text(*addr));
    }
    out
}

// ---------------------------------------------------------------------------
// The master reply
// ---------------------------------------------------------------------------

/// The fixed prefix of every master reply.
pub open spec fn spec_reply_header() -> Seq<u8> {
    seq![0xffu8, 0xff, 0xff, 0xff, 0x66, 0x0a]
}

/// The endpoint encoded in the six bytes at the front of `s`.
pub open spec fn spec_addr_at(s: Seq<u8>) -> Addr {
    Addr { a: s[0], b: s[1], c: s[2], d: s[3], port: be16_at(s, 4) as u16 }
}

/// All whole 6-byte endpoints of `s`, in order; trailing spare bytes are
/// ignored.
pub open spec fn spec_parse_addrs(s: Seq<u8>) -> Seq<Addr>
    decreases s.len(),
{
    if s.len() < 6 {
        Seq::empty()
    } else {
        seq![spec_addr_at(s)] + spec_parse_addrs(s.skip(6))
    }
}

/// What a master reply decodes to: the endpoint list after the header, or
/// nothing when the header is absent.
pub open spec fn spec_parse_master_reply(s: Seq<u8>) -> Option<Seq<Addr>> {
    if s.len() >= 6 && s.take(6) == spec_reply_header() {
        Some(spec_parse_addrs(s.skip(6)))
    } else {
        None
    }
}

/// One master reply: the addresses after the fixed header.
#[derive(Debug, Clone, PartialEq, Eq)]
pub struct Reply {
    pub addresses: Vec<Addr>,
}

impl Reply {
    /// Decodes a master reply datagram: the `FF FF FF FF 66 0A` header,
    /// then 6-byte endpoints to the end of the datagram.
    pub fn parse(data: &[u8]) -> (r: Result<Reply, Error>)
        ensures
            match spec_parse_master_reply(data@) {
                Some(addrs) => r matches Ok(reply) && reply.addresses@ == addrs,
                None => r matches Err(Error::Parse(_)),
            },
    {
        let n = data.len();
        if n < 6 {
            return Err(Error::Parse(0));
        }
        if !(data[0] == 0xff && data[1] == 0xff && data[2] == 0xff && data[3] == 0xff && data[4]
            == 0x66 && data[5] == 0x0a) {
            proof {
                assert(data@.take(6) != spec_reply_header()) by {
                    if data@.take(6) == spec_reply_header() {
                        assert(data@.take(6)[0] == 0xff && data@.take(6)[1] == 0xff && data@.take(
                            6,
                        )[2] == 0xff && data@.take(6)[3] == 0xff && data@.take(6)[4] == 0x66
                            && data@.take(6)[5] == 0x0a);
                    }
                }
            }
            return Err(Error::Parse(0));
        }
        proof {
            assert(data@.take(6) =~= spec_reply_header());
        }
        let mut addresses: Vec<Addr> = Vec::new();
        let mut pos: usize = 6;
        let ghost base = data@.skip(6);
        while n - pos >= 6
            invariant
                6 <= pos <= n,
                n == data@.len(),
                spec_parse_addrs(base) == addresses@ + spec_parse_addrs(data@.skip(pos as int)),
            decreases n - pos,
        {
            let ghost before = data@.skip(pos as int);
            let a = data[pos];
            let b = data[pos + 1];
            let c = data[pos + 2];
            let d = data[pos + 3];
            let port = crate::cursor::read_u16_be_at(data, pos + 4);
            let addr = Addr { a, b, c, d, port };
            proof {
                assert(before[0] == data@[pos as int] && before[1] == data@[pos as int + 1]
                    && before[2] == data@[pos as int + 2] && before[3] == data@[pos as int + 3]
                    && before[4] == data@[pos as int + 4] && before[5] == data@[pos as int + 5]);
                assert(spec_addr_at(before) == addr);
                assert(before.skip(6) =~= data@.skip(pos + 6));
                assert(addresses@ + (seq![addr] + spec_parse_addrs(before.skip(6))) =~= (
                addresses@ + seq![addr]) + spec_parse_addrs(before.skip(6)));
            }
            addresses.push(addr);
            pos = pos + 6;
        }
        proof {
            assert(spec_parse_addrs(data@.skip(pos as int)) =~= Seq::<Addr>::empty());
            assert(addresses@ + Seq::<Addr>::empty() =~= addresses@);
        }
        Ok(Reply { addresses })
    }
}

// ---------------------------------------------------------------------------
// Pagination
// ---------------------------------------------------------------------------

/// The addresses of a reply that are not the sentinel, in order.
pub open spec fn non_sentinels(s: Seq<Addr>) -> Seq<Addr>
    decreases s.len(),
{
    if s.len() == 0 {
        Seq::empty()
    } else {
        (if s[0].is_sentinel() {
            Seq::empty()
        } else {
            seq![s[0]]
        }) + non_sentinels(s.skip(1))
    }
}

/// One step of the master pagination. Yields the reply's addresses with
/// every sentinel removed, and the seed of the next request: the reply's
/// last address — unless the reply is empty or ends with the sentinel,
/// which ends the sequence. So the pagination terminates exactly when a
/// reply's last address is `0.0.0.0:0` (or a reply is empty).
pub fn paginate_step(reply: &Vec<Addr>) -> (r: (Vec<Addr>, Option<Addr>))
    ensures
        r.0@ == non_sentinels(reply@),
        r.1 is Some <==> reply@.len() > 0 && !reply@.last().is_sentinel(),
        r.1 matches Some(nxt) ==> nxt == reply@.last(),
{
    let n = reply.len();
    let mut out: Vec<Addr> = Vec::new();
    let mut i: usize = 0;
    proof {
        assert(reply@.skip(0) =~= reply@);
        assert(Seq::<Addr>::empty() + non_sentinels(reply@) =~= non_sentinels(reply@));
    }
    while i < n
        invariant
            0 <= i <= n,
            n == reply@.len(),
            non_sentinels(reply@) == out@ + non_sentinels(reply@.skip(i as int)),
        decreases n - i,
    {
        let ghost before = reply@.skip(i as int);
        let addr = reply[i];
        proof {
            assert(before[0] == reply@[i as int]);
            assert(before.skip(1) =~= reply@.skip(i + 1));
            if !addr.is_sentinel() {
                assert(out@ + (seq![addr] + non_sentinels(before.skip(1))) =~= (out@ + seq![addr])
                    + non_sentinels(before.skip(1)));
            } else {
                assert(out@ + (Seq::<Addr>::empty() + non_sentinels(before.skip(1))) =~= out@
                    + non_sentinels(before.skip(1)));
            }
        }
        if !addr.is_nul() {
            out.push(addr);
        }
        i = i + 1;
    }
    proof {
        assert(non_sentinels(reply@.skip(n as int)) =~= Seq::<Addr>::empty());
        assert(out@ + Seq::<Addr>::empty() =~= out@);
    }
    let next = if n == 0 {
        None
    } else {
        let last = reply[n - 1];
        if last.is_nul() {
            None
        } else {
            Some(last)
        }
    };
    (out, next)
}

// ---------------------------------------------------------------------------
// Filters
// ---------------------------------------------------------------------------

/// One atom or composite of the master request's filter string. Text
/// arguments are opaque ASCII bytes.
#[derive(Debug)]
pub enum Filter {
    Nor(Vec<Filter>),
    Nand(Vec<Filter>),
    Dedicated,
    Secure,
    GameDir(Vec<u8>),
    MapName(Vec<u8>),
    Linux,
    NoPassword,
    NotEmpty,
    NotFull,
    Proxy,
    Appid(Vec<u8>),
    NotAppid(Vec<u8>),
    NoPlayers,
    Whitelisted,
    GameType(Vec<u8>),
    GameDataAll(Vec<u8>),
    GameDataAny(Vec<u8>),
    NameMatch(Vec<u8>),
    VersionMatch(Vec<u8>),
    CollapseAddrHash,
    GameAddr(Addr),
}

/// A backslash-delimited `\name\value` pair.
pub open spec fn spec_kv(name: Seq<u8>, value: Seq<u8>) -> Seq<u8> {
    seq![0x5cu8] + name + seq![0x5cu8] + value
}

/// The serialization of one filter: `\name\value`, where a composite
/// inlines its child count and the serializations of its children.
pub open spec fn spec_filter_bytes(f: Filter) -> Seq<u8>
    decreases f,
{
    match f {
        Filter::Nor(v) => spec_kv(spec_name_nor(), spec_decimal(v@.len() as int))
            + spec_filters_bytes(v@),
        Filter::Nand(v) => spec_kv(spec_name_nand(), spec_decimal(v@.len() as int))
            + spec_filters_bytes(v@),
        Filter::Dedicated => spec_kv(spec_name_dedicated(), seq![0x31u8]),
        Filter::Secure => spec_kv(spec_name_secure(), seq![0x31u8]),
        Filter::GameDir(dir) => spec_kv(spec_name_gamedir(), dir@),
        Filter::MapName(map) => spec_kv(spec_name_map(), map@),
        Filter::Linux => spec_kv(spec_name_linux(), seq![0x31u8]),
        Filter::NoPassword => spec_kv(spec_name_password(), seq![0x30u8]),
        Filter::NotEmpty => spec_kv(spec_name_empty(), seq![0x31u8]),
        Filter::NotFull => spec_kv(spec_name_full(), seq![0x31u8]),
        Filter::Proxy => spec_kv(spec_name_proxy(), seq![0x31u8]),
        Filter::Appid(id) => spec_kv(spec_name_appid(), id@),
        Filter::NotAppid(id) => spec_kv(spec_name_napp(), id@),
        Filter::NoPlayers => spec_kv(spec_name_noplayers(), seq![0x31u8]),
        Filter::Whitelisted => spec_kv(spec_name_white(), seq![0x31u8]),
        Filter::GameType(t) => spec_kv(spec_name_gametype(), t@),
        Filter::GameDataAll(d) => spec_kv(spec_name_gamedata(), d@),
        Filter::GameDataAny(d) => spec_kv(spec_name_gamedataor(), d@),
        Filter::NameMatch(h) => spec_kv(spec_name_name_match(), h@),
        Filter::VersionMatch(ver) => spec_kv(spec_name_version_match(), ver@),
        Filter::CollapseAddrHash => spec_kv(spec_name_collapse(), seq![0x31u8]),
        Filter::GameAddr(addr) => spec_kv(spec_name_gameaddr(), spec_addr_text(addr)),
    }
}

/// The concatenated serializations of a list of filters.
pub open spec fn spec_filters_bytes(s: Seq<Filter>) -> Seq<u8>
    decreases s,
{
    if s.len() == 0 {
        Seq::empty()
    } else {
        spec_filters_bytes(s.drop_last()) + spec_filter_bytes(s.last())
    }
}

/// `nor` as bytes.
pub open spec fn spec_name_nor() -> Seq<u8> {
    seq![0x6eu8, 0x6f, 0x72]
}

/// `nand` as bytes.
pub open spec fn spec_name_nand() -> Seq<u8> {
    seq![0x6eu8, 0x61, 0x6e, 0x64]
}

/// `dedicated` as bytes.
pub open spec fn spec_name_dedicated() -> Seq<u8> {
    seq![0x64u8, 0x65, 0x64, 0x69, 0x63, 0x61, 0x74, 0x65, 0x64]
}

/// `secure` as bytes.
pub open spec fn spec_name_secure() -> Seq<u8> {
    seq![0x73u8, 0x65, 0x63, 0x75, 0x72, 0x65]
}

/// `gamedir` as bytes.
pub open spec fn spec_name_gamedir() -> Seq<u8> {
    seq![0x67u8, 0x61, 0x6d, 0x65, 0x64, 0x69, 0x72]
}

/// `map` as bytes.
pub open spec fn spec_name_map() -> Seq<u8> {
    seq![0x6du8, 0x61, 0x70]
}

/// `linux` as bytes.
pub open spec fn spec_name_linux() -> Seq<u8> {
    seq![0x6cu8, 0x69, 0x6e, 0x75, 0x78]
}

/// `password` as bytes.
pub open spec fn spec_name_password() -> Seq<u8> {
    seq![0x70u8, 0x61, 0x73, 0x73, 0x77, 0x6f, 0x72, 0x64]
}

/// `empty` as bytes.
pub open spec fn spec_name_empty() -> Seq<u8> {
    seq![0x65u8, 0x6d, 0x70, 0x74, 0x79]
}

/// `full` as bytes.
pub open spec fn spec_name_full() -> Seq<u8> {
    seq![0x66u8, 0x75, 0x6c, 0x6c]
}

/// `proxy` as bytes.
pub open spec fn spec_name_proxy() -> Seq<u8> {
    seq![0x70u8, 0x72, 0x6f, 0x78, 0x79]
}

/// `appid` as bytes.
pub open spec fn spec_name_appid() -> Seq<u8> {
    seq![0x61u8, 0x70, 0x70, 0x69, 0x64]
}

/// `napp` as bytes.
pub open spec fn spec_name_napp() -> Seq<u8> {
    seq![0x6eu8, 0x61, 0x70, 0x70]
}

/// `noplayers` as bytes.
pub open spec fn spec_name_noplayers() -> Seq<u8> {
    seq![0x6eu8, 0x6f, 0x70, 0x6c, 0x61, 0x79, 0x65, 0x72, 0x73]
}

/// `white` as bytes.
pub open spec fn spec_name_white() -> Seq<u8> {
    seq![0x77u8, 0x68, 0x69, 0x74, 0x65]
}

/// `gametype` as bytes.
pub open spec fn spec_name_gametype() -> Seq<u8> {
    seq![0x67u8, 0x61, 0x6d, 0x65, 0x74, 0x79, 0x70, 0x65]
}

/// `gamedata` as bytes.
pub open spec fn spec_name_gamedata() -> Seq<u8> {
    seq![0x67u8, 0x61, 0x6d, 0x65, 0x64, 0x61, 0x74, 0x61]
}

/// `gamedataor` as bytes.
pub open spec fn spec_name_gamedataor() -> Seq<u8> {
    seq![0x67u8, 0x61, 0x6d, 0x65, 0x64, 0x61, 0x74, 0x61, 0x6f, 0x72]
}

/// `name_match` as bytes.
pub open spec fn spec_name_name_match() -> Seq<u8> {
    seq![0x6eu8, 0x61, 0x6d, 0x65, 0x5f, 0x6d, 0x61, 0x74, 0x63, 0x68]
}

/// `version_match` as bytes.
pub open spec fn spec_name_version_match() -> Seq<u8> {
    seq![0x76u8, 0x65, 0x72, 0x73, 0x69, 0x6f, 0x6e, 0x5f, 0x6d, 0x61, 0x74, 0x63, 0x68]
}

/// `collaspse_addr_hash` as bytes (the key's historical spelling).
pub open spec fn spec_name_collapse() -> Seq<u8> {
    seq![
        0x63u8, 0x6f, 0x6c, 0x6c, 0x61, 0x73, 0x70, 0x73, 0x65, 0x5f, 0x61, 0x64, 0x64, 0x72,
        0x5f, 0x68, 0x61, 0x73, 0x68,
    ]
}

/// `gameaddr` as bytes.
pub open spec fn spec_name_gameaddr() -> Seq<u8> {
    seq![0x67u8, 0x61, 0x6d, 0x65, 0x61, 0x64, 0x64, 0x72]
}

/// Appends the bytes of a literal name.
fn append_bytes(out: &mut Vec<u8>, bytes: &[u8])
    ensures
        final(out)@ == old(out)@ + bytes@,
{
    out.extend_from_slice(bytes);
}

/// Appends `\name\` followed by nothing: the frame of one pair.
fn append_kv(out: &mut Vec<u8>, name: &[u8], value: &[u8])
    ensures
        final(out)@ == old(out)@ + spec_kv(name@, value@),
{
    out.push(0x5c);
    out.extend_from_slice(name);
    out.push(0x5c);
    out.extend_from_slice(value);
    proof {
        assert(out@ =~= old(out)@ + spec_kv(name@, value@));
    }
}

/// Appends the serialization of one filter.
fn append_filter(out: &mut Vec<u8>, f: &Filter)
    ensures
        final(out)@ == old(out)@ + spec_filter_bytes(*f),
    decreases *f,
{
    match f {
        Filter::Nor(v) => {
            let name: [u8; 3] = [0x6e, 0x6f, 0x72];
            append_composite(out, &name, v);
            proof {
                assert(out@ =~= old(out)@ + spec_filter_bytes(*f));
            }
        },
        Filter::Nand(v) => {
            let name: [u8; 4] = [0x6e, 0x61, 0x6e, 0x64];
            append_composite(out, &name, v);
            proof {
                assert(out@ =~= old(out)@ + spec_filter_bytes(*f));
            }
        },
        Filter::Dedicated => {
            let name: [u8; 9] = [0x64, 0x65, 0x64, 0x69, 0x63, 0x61, 0x74, 0x65, 0x64];
            let one: [u8; 1] = [0x31];
            append_kv(out, &name, &one);
            proof {
                assert(name@ =~= spec_name_dedicated());
                assert(one@ =~= seq![0x31u8]);
            }
        },
        Filter::Secure => {
            let name: [u8; 6] = [0x73, 0x65, 0x63, 0x75, 0x72, 0x65];
            let one: [u8; 1] = [0x31];
            append_kv(out, &name, &one);
            proof {
                assert(name@ =~= spec_name_secure());
                assert(one@ =~= seq![0x31u8]);
            }
        },
        Filter::GameDir(dir) => {
            let name: [u8; 7] = [0x67, 0x61, 0x6d, 0x65, 0x64, 0x69, 0x72];
            append_kv(out, &name, dir.as_slice());
            proof {
                assert(name@ =~= spec_name_gamedir());
            }
        },
        Filter::MapName(map) => {
            let name: [u8; 3] = [0x6d, 0x61, 0x70];
            append_kv(out, &name, map.as_slice());
            proof {
                assert(name@ =~= spec_name_map());
            }
        },
        Filter::Linux => {
            let name: [u8; 5] = [0x6c, 0x69, 0x6e, 0x75, 0x78];
            let one: [u8; 1] = [0x31];
            append_kv(out, &name, &one);
            proof {
                assert(name@ =~= spec_name_linux());
                assert(one@ =~= seq![0x31u8]);
            }
        },
        Filter::NoPassword => {
            let name: [u8; 8] = [0x70, 0x61, 0x73, 0x73, 0x77, 0x6f, 0x72, 0x64];
            let zero: [u8; 1] = [0x30];
            append_kv(out, &name, &zero);
            proof {
                assert(name@ =~= spec_name_password());
                assert(zero@ =~= seq![0x30u8]);
            }
        },
        Filter::NotEmpty => {
            let name: [u8; 5] = [0x65, 0x6d, 0x70, 0x74, 0x79];
            let one: [u8; 1] = [0x31];
            append_kv(out, &name, &one);
            proof {
                assert(name@ =~= spec_name_empty());
                assert(one@ =~= seq![0x31u8]);
            }
        },
        Filter::NotFull => {
            let name: [u8; 4] = [0x66, 0x75, 0x6c, 0x6c];
            let one: [u8; 1] = [0x31];
            append_kv(out, &name, &one);
            proof {
                assert(name@ =~= spec_name_full());
                assert(one@ =~= seq![0x31u8]);
            }
        },
        Filter::Proxy => {
            let name: [u8; 5] = [0x70, 0x72, 0x6f, 0x78, 0x79];
            let one: [u8; 1] = [0x31];
            append_kv(out, &name, &one);
            proof {
                assert(name@ =~= spec_name_proxy());
                assert(one@ =~= seq![0x31u8]);
            }
        },
        Filter::Appid(id) => {
            let name: [u8; 5] = [0x61, 0x70, 0x70, 0x69, 0x64];
            append_kv(out, &name, id.as_slice());
            proof {
                assert(name@ =~= spec_name_appid());
            }
        },
        Filter::NotAppid(id) => {
            let name: [u8; 4] = [0x6e, 0x61, 0x70, 0x70];
            append_kv(out, &name, id.as_slice());
            proof {
                assert(name@ =~= spec_name_napp());
            }
        },
        Filter::NoPlayers => {
            let name: [u8; 9] = [0x6e, 0x6f, 0x70, 0x6c, 0x61, 0x79, 0x65, 0x72, 0x73];
            let one: [u8; 1] = [0x31];
            append_kv(out, &name, &one);
            proof {
                assert(name@ =~= spec_name_noplayers());
                assert(one@ =~= seq![0x31u8]);
            }
        },
        Filter::Whitelisted => {
            let name: [u8; 5] = [0x77, 0x68, 0x69, 0x74, 0x65];
            let one: [u8; 1] = [0x31];
            append_kv(out, &name, &one);
            proof {
                assert(name@ =~= spec_name_white());
                assert(one@ =~= seq![0x31u8]);
            }
        },
        Filter::GameType(t) => {
            let name: [u8; 8] = [0x67, 0x61, 0x6d, 0x65, 0x74, 0x79, 0x70, 0x65];
            append_kv(out, &name, t.as_slice());
            proof {
                assert(name@ =~= spec_name_gametype());
            }
        },
        Filter::GameDataAll(d) => {
            let name: [u8; 8] = [0x67, 0x61, 0x6d, 0x65, 0x64, 0x61, 0x74, 0x61];
            append_kv(out, &name, d.as_slice());
            proof {
                assert(name@ =~= spec_name_gamedata());
            }
        },
        Filter::GameDataAny(d) => {
            let name: [u8; 10] = [0x67, 0x61, 0x6d, 0x65, 0x64, 0x61, 0x74, 0x61, 0x6f, 0x72];
            append_kv(out, &name, d.as_slice());
            proof {
                assert(name@ =~= spec_name_gamedataor());
            }
        },
        Filter::NameMatch(h) => {
            let name: [u8; 10] = [0x6e, 0x61, 0x6d, 0x65, 0x5f, 0x6d, 0x61, 0x74, 0x63, 0x68];
            append_kv(out, &name, h.as_slice());
            proof {
                assert(name@ =~= spec_name_name_match());
            }
        },
        Filter::VersionMatch(ver) => {
            let name: [u8; 13] = [
                0x76, 0x65, 0x72, 0x73, 0x69, 0x6f, 0x6e, 0x5f, 0x6d, 0x61, 0x74, 0x63, 0x68,
            ];
            append_kv(out, &name, ver.as_slice());
            proof {
                assert(name@ =~= spec_name_version_match());
            }
        },
        Filter::CollapseAddrHash => {
            let name: [u8; 19] = [
                0x63, 0x6f, 0x6c, 0x6c, 0x61, 0x73, 0x70, 0x73, 0x65, 0x5f, 0x61, 0x64, 0x64,
                0x72, 0x5f, 0x68, 0x61, 0x73, 0x68,
            ];
            let one: [u8; 1] = [0x31];
            append_kv(out, &name, &one);
            proof {
                assert(name@ =~= spec_name_collapse());
                assert(one@ =~= seq![0x31u8]);
            }
        },
        Filter::GameAddr(addr) => {
            let name: [u8; 8] = [0x67, 0x61, 0x6d, 0x65, 0x61, 0x64, 0x64, 0x72];
            let text = addr_text(addr);
            append_kv(out, &name, text.as_slice());
            proof {
                assert(name@ =~= spec_name_gameaddr());
            }
        },
    }
}

/// Appends a composite filter: `\name\count` followed by the children.
fn append_composite(out: &mut Vec<u8>, name: &[u8], children: &Vec<Filter>)
    ensures
        final(out)@ == old(out)@ + spec_kv(name@, spec_decimal(children@.len() as int))
            + spec_filters_bytes(children@),
    decreases children@,
{
    out.push(0x5c);
    out.extend_from_slice(name);
    out.push(0x5c);
    append_decimal(children.len() as u64, out);
    proof {
        assert(out@ =~= old(out)@ + spec_kv(name@, spec_decimal(children@.len() as int)));
    }
    let ghost mid = out@;
    let n = children.len();
    let mut i: usize = 0;
    proof {
        assert(spec_filters_bytes(children@.take(0)) =~= Seq::<u8>::empty());
        assert(mid + Seq::<u8>::empty() =~= mid);
    }
    while i < n
        invariant
            0 <= i <= n,
            n == children@.len(),
            out@ == mid + spec_filters_bytes(children@.take(i as int)),
        decreases n - i,
    {
        proof {
            assert(decreases_to!(children@ => children@[i as int]));
        }
        append_filter(out, &children[i]);
        proof {
            assert(children@.take(i + 1).drop_last() =~= children@.take(i as int));
            assert(children@.take(i + 1).last() == children@[i as int]);
            assert(mid + spec_filters_bytes(children@.take(i as int)) + spec_filter_bytes(
                children@[i as int],
            ) =~= mid + (spec_filters_bytes(children@.take(i as int)) + spec_filter_bytes(
                children@[i as int],
            )));
        }
        i = i + 1;
    }
    proof {
        assert(children@.take(n as int) =~= children@);
    }
}

// ---------------------------------------------------------------------------
// The master request
// ---------------------------------------------------------------------------

/// A prepared master query: a region code and a serialized filter string.
pub struct ServerQuery {
    pub region_code: u8,
    pub filter: Vec<u8>,
}

impl ServerQuery {
    /// Prepares a master query for a region and a set of filters.
    pub fn new(region: Region, filters: &Vec<Filter>) -> (r: ServerQuery)
        ensures
            r.region_code == spec_region_code(region),
            r.filter@ == spec_filters_bytes(filters@),
    {
        let mut filter: Vec<u8> = Vec::new();
        let n = filters.len();
        let mut i: usize = 0;
        proof {
            assert(spec_filters_bytes(filters@.take(0)) =~= Seq::<u8>::empty());
        }
        while i < n
            invariant
                0 <= i <= n,
                n == filters@.len(),
                filter@ == spec_filters_bytes(filters@.take(i as int)),
            decreases n - i,
        {
            append_filter(&mut filter, &filters[i]);
            proof {
                assert(filters@.take(i + 1).drop_last() =~= filters@.take(i as int));
                assert(filters@.take(i + 1).last() == filters@[i as int]);
            }
            i = i + 1;
        }
        proof {
            assert(filters@.take(n as int) =~= filters@);
        }
        ServerQuery { region_code: region.code(), filter }
    }

    /// Lays out one master request datagram: the message type, the region
    /// code, the NUL-terminated seed text and the NUL-terminated filter
    /// string.
    pub fn packet_data(region_code: u8, filter: &[u8], seed: &[u8]) -> (r: Vec<u8>)
        ensures
            r@ == seq![0x31u8, region_code] + seed@ + seq![0u8] + filter@ + seq![0u8],
    {
        let mut data: Vec<u8> = Vec::new();
        data.push(0x31);
        data.push(region_code);
        data.extend_from_slice(seed);
        data.push(0);
        data.extend_from_slice(filter);
        data.push(0);
        proof {
            assert(data@ =~= seq![0x31u8, region_code] + seed@ + seq![0u8] + filter@ + seq![0u8]);
        }
        data
    }

    /// The request datagram of this query for one seed address.
    pub fn request_bytes(&self, seed: &Addr) -> (r: Vec<u8>)
        ensures
            r@ == seq![0x31u8, self.region_code] + spec_addr_text(*seed) + seq![0u8]
                + self.filter@ + seq![0u8],
    {
        let text = addr_text(seed);
        Self::packet_data(self.region_code, self.filter.as_slice(), text.as_slice())
    }
}

} // verus!
