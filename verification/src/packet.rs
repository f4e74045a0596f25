//! Packet framing: the single/split envelope, the two split-header variants
//! (GoldSrc and Source), and the reassembly engine that turns a stream of
//! datagrams into one whole application payload, decompressing and
//! integrity-checking compressed Source responses.

use vstd::prelude::*;
use crate::cursor::{le16_at, le32_at, as_signed32, read_u16_at, read_u32_at, to_i32};
use crate::error::{Error, MultiHeader};

verus! {

broadcast use vstd::slice::axiom_spec_len;

/// Datagrams are received into buffers of this many bytes until a Source
/// split header dictates another size.
pub const DEFAULT_PACKET_SIZE: usize = 1400;

/// Decompression metadata of a compressed Source split response.
#[derive(Debug, Clone, Copy, PartialEq, Eq, Structural)]
pub struct DecompressInfo {
    pub decompressed_size: u32,
    pub crc32_sum: u32,
}

/// One parsed split-packet fragment.
#[derive(Debug, PartialEq, Eq)]
pub struct MultiPacket {
    pub uid: u32,
    pub index: usize,
    pub total: usize,
    pub switch_size: usize,
    pub decompress_info: Option<DecompressInfo>,
    pub payload: Vec<u8>,
}

/// Mathematical model of a split-packet fragment.
pub struct MultiPacketModel {
    pub uid: int,
    pub index: int,
    pub total: int,
    pub switch_size: int,
    pub decomp: Option<(int, int)>,
    pub payload: Seq<u8>,
}

impl View for MultiPacket {
    type V = MultiPacketModel;

    open spec fn view(&self) -> MultiPacketModel {
        MultiPacketModel {
            uid: self.uid as int,
            index: self.index as int,
            total: self.total as int,
            switch_size: self.switch_size as int,
            decomp: match self.decompress_info {
                Some(d) => Some((d.decompressed_size as int, d.crc32_sum as int)),
                None => None,
            },
            payload: self.payload@,
        }
    }
}

/// The GoldSrc split header that follows the `-2` envelope: `uid`, then one
/// byte packing the fragment index in the high nibble and the fragment count
/// in the low nibble.
pub open spec fn spec_goldsrc_split(s: Seq<u8>) -> Option<MultiPacketModel> {
    if s.len() < 5 {
        None
    } else {
        Some(MultiPacketModel {
            uid: le32_at(s, 0),
            index: (s[4] as int) / 16,
            total: (s[4] as int) % 16,
            switch_size: DEFAULT_PACKET_SIZE as int,
            decomp: None,
            payload: s.skip(5),
        })
    }
}

/// The Source split header that follows the `-2` envelope: `uid`, `total`,
/// `index`, `split_size`, and, when the high bit of `uid` is set,
/// `decompressed_size` and `crc32`.
pub open spec fn spec_source_split(s: Seq<u8>) -> Option<MultiPacketModel> {
    if s.len() < 8 {
        None
    } else {
        let uid = le32_at(s, 0);
        if uid >= 0x8000_0000 {
            if s.len() < 16 {
                None
            } else {
                Some(MultiPacketModel {
                    uid: uid,
                    index: s[5] as int,
                    total: s[4] as int,
                    switch_size: le16_at(s, 6),
                    decomp: Some((le32_at(s, 8), le32_at(s, 12))),
                    payload: s.skip(16),
                })
            }
        } else {
            Some(MultiPacketModel {
                uid: uid,
                index: s[5] as int,
                total: s[4] as int,
                switch_size: le16_at(s, 6),
                decomp: None,
                payload: s.skip(8),
            })
        }
    }
}

/// Which split-header variant the queried engine speaks.
#[derive(Debug, Clone, Copy, PartialEq, Eq, Structural)]
pub enum SplitVariant {
    Goldsrc,
    Source,
}

/// The split header of the selected variant.
pub open spec fn spec_split(variant: SplitVariant, s: Seq<u8>) -> Option<MultiPacketModel> {
    match variant {
        SplitVariant::Goldsrc => spec_goldsrc_split(s),
        SplitVariant::Source => spec_source_split(s),
    }
}

/// Parses GoldSrc split headers.
pub struct GoldsrcParser;

/// Parses Source split headers.
pub struct SourceParser;

impl GoldsrcParser {
    /// Reads a GoldSrc split-packet fragment out of the bytes that follow
    /// the `-2` envelope header.
    pub fn parse(i: &[u8]) -> (r: Result<MultiPacket, Error>)
        ensures
            match spec_goldsrc_split(i@) {
                Some(m) => r matches Ok(p) && p@ == m,
                None => r matches Err(Error::Parse(_)),
            },
    {
        let n = i.len();
        if n < 5 {
            return Err(Error::Parse(n));
        }
        let uid = read_u32_at(i, 0);
        let num = i[4];
        let payload = vstd::slice::slice_to_vec(vstd::slice::slice_subrange(i, 5, n));
        let p = MultiPacket {
            uid,
            index: (num / 16) as usize,
            total: (num % 16) as usize,
            switch_size: DEFAULT_PACKET_SIZE,
            decompress_info: None,
            payload,
        };
        proof {
            assert(p@.payload =~= i@.skip(5));
        }
        Ok(p)
    }
}

impl SourceParser {
    /// Reads a Source split-packet fragment out of the bytes that follow
    /// the `-2` envelope header.
    pub fn parse(i: &[u8]) -> (r: Result<MultiPacket, Error>)
        ensures
            match spec_source_split(i@) {
                Some(m) => r matches Ok(p) && p@ == m,
                None => r matches Err(Error::Parse(_)),
            },
    {
        let n = i.len();
        if n < 8 {
            return Err(Error::Parse(n));
        }
        let uid = read_u32_at(i, 0);
        let total = i[4];
        let index = i[5];
        let split_size = read_u16_at(i, 6);
        if uid >= 0x8000_0000 {
            if n < 16 {
                return Err(Error::Parse(n));
            }
            let decompressed_size = read_u32_at(i, 8);
            let crc32_sum = read_u32_at(i, 12);
            let payload = vstd::slice::slice_to_vec(vstd::slice::slice_subrange(i, 16, n));
            let p = MultiPacket {
                uid,
                index: index as usize,
                total: total as usize,
                switch_size: split_size as usize,
                decompress_info: Some(DecompressInfo { decompressed_size, crc32_sum }),
                payload,
            };
            proof {
                assert(p@.payload =~= i@.skip(16));
            }
            Ok(p)
        } else {
            let payload = vstd::slice::slice_to_vec(vstd::slice::slice_subrange(i, 8, n));
            let p = MultiPacket {
                uid,
                index: index as usize,
                total: total as usize,
                switch_size: split_size as usize,
                decompress_info: None,
                payload,
            };
            proof {
                assert(p@.payload =~= i@.skip(8));
            }
            Ok(p)
        }
    }
}

/// Dispatches to the split-header parser of `variant`.
pub fn parse_split(variant: SplitVariant, i: &[u8]) -> (r: Result<MultiPacket, Error>)
    ensures
        match spec_split(variant, i@) {
            Some(m) => r matches Ok(p) && p@ == m,
            None => r matches Err(Error::Parse(_)),
        },
{
    match variant {
        SplitVariant::Goldsrc => GoldsrcParser::parse(i),
        SplitVariant::Source => SourceParser::parse(i),
    }
}

/// What bzip2 decompression of `input` into a buffer of `out_len` bytes
/// yields: the filled buffer, or nothing when the decoder rejects the
/// stream. A function of its arguments alone.
pub uninterp spec fn bunzip(input: Seq<u8>, out_len: nat) -> Option<Seq<u8>>;

/// The CRC-32 (IEEE polynomial) checksum of `data`. A function of the bytes
/// alone.
pub uninterp spec fn crc32_of(data: Seq<u8>) -> u32;

/// Relies on bzip2's `Decompress::decompress`: a one-shot decompression of
/// `input` into a zeroed buffer of `out_len` bytes, returning the buffer
/// unless the decoder rejects the stream.
#[verifier::external_body]
fn bzip2_decompress(input: &Vec<u8>, out_len: usize) -> (r: Option<Vec<u8>>)
    ensures
        r is Some <==> bunzip(input@, out_len as nat) is Some,
        r matches Some(v) ==> v@ == bunzip(input@, out_len as nat).unwrap() && v@.len() == out_len,
{
    let mut out = vec![0u8; out_len];
    let mut decompressor = bzip2::Decompress::new(false);
    match decompressor.decompress(input, &mut out) {
        Ok(_) => Some(out),
        Err(_) => None,
    }
}

/// Relies on crc's `Crc::checksum` with the `CRC_32_ISO_HDLC` algorithm,
/// the classic IEEE-polynomial CRC-32.
#[verifier::external_body]
fn crc32_ieee(data: &Vec<u8>) -> (r: u32)
    ensures
        r == crc32_of(data@),
{
    crc::Crc::<u32>::new(&crc::CRC_32_ISO_HDLC).checksum(data)
}

/// What the engine hands out once a response is whole: the reassembled bytes
/// as they are, or, for a compressed response, the bzip2 decompression of
/// them checked against the advertised CRC-32.
pub open spec fn finish_result(intermediate: Seq<u8>, decomp: Option<(int, int)>) -> Result<
    Seq<u8>,
    Error,
> {
    match decomp {
        None => Ok(intermediate),
        Some((dsize, crc)) => match bunzip(intermediate, dsize as nat) {
            None => Err(Error::Decompress),
            Some(d) => if crc32_of(d) == crc {
                Ok(d)
            } else {
                Err(Error::Crc32(crc as u32, crc32_of(d)))
            },
        },
    }
}

/// View of optional decompression metadata.
pub open spec fn decomp_view(d: Option<DecompressInfo>) -> Option<(int, int)> {
    match d {
        Some(i) => Some((i.decompressed_size as int, i.crc32_sum as int)),
        None => None,
    }
}

/// Applies `finish_result` to a reassembled payload.
fn finish(intermediate: Vec<u8>, decomp: Option<DecompressInfo>) -> (r: Result<Vec<u8>, Error>)
    ensures
        match finish_result(intermediate@, decomp_view(decomp)) {
            Ok(d) => r matches Ok(v) && v@ == d,
            Err(e) => r matches Err(e2) && e2 == e,
        },
{
    match decomp {
        None => Ok(intermediate),
        Some(info) => {
            match bzip2_decompress(&intermediate, info.decompressed_size as usize) {
                None => Err(Error::Decompress),
                Some(out) => {
                    let actual = crc32_ieee(&out);
                    if actual == info.crc32_sum {
                        Ok(out)
                    } else {
                        Err(Error::Crc32(info.crc32_sum, actual))
                    }
                },
            }
        },
    }
}

/// The sparse fragment buffer of a reassembly in progress, one slot per
/// fragment index.
pub open spec fn slots_view(s: Seq<Option<Vec<u8>>>) -> Seq<Option<Seq<u8>>> {
    Seq::new(s.len(), |i: int| match s[i] {
        Some(v) => Some(v@),
        None => None,
    })
}

/// A buffer with no fragment yet.
pub open spec fn empty_slots(n: int) -> Seq<Option<Seq<u8>>> {
    Seq::new(n as nat, |i: int| None)
}

/// Whether every fragment of the response has arrived.
pub open spec fn all_filled(slots: Seq<Option<Seq<u8>>>) -> bool {
    forall|i: int| 0 <= i < slots.len() ==> slots[i] is Some
}

/// The fragment in a slot, or nothing.
pub open spec fn frag_or_empty(o: Option<Seq<u8>>) -> Seq<u8> {
    match o {
        Some(p) => p,
        None => Seq::empty(),
    }
}

/// Concatenation of the arrived fragments in ascending index order.
pub open spec fn assemble(slots: Seq<Option<Seq<u8>>>) -> Seq<u8>
    decreases slots.len(),
{
    if slots.len() == 0 {
        Seq::empty()
    } else {
        assemble(slots.drop_last()) + frag_or_empty(slots.last())
    }
}

/// Builds a buffer of `n` empty slots.
fn make_slots(n: usize) -> (r: Vec<Option<Vec<u8>>>)
    ensures
        slots_view(r@) =~= empty_slots(n as int),
        r@.len() == n,
{
    let mut slots: Vec<Option<Vec<u8>>> = Vec::new();
    let mut i: usize = 0;
    while i < n
        invariant
            i <= n,
            slots@.len() == i,
            forall|j: int| 0 <= j < i ==> slots@[j] is None,
        decreases n - i,
    {
        slots.push(None);
        i = i + 1;
    }
    slots
}

/// Concatenates the fragments of a full buffer in index order.
fn assemble_slots(slots: &Vec<Option<Vec<u8>>>) -> (r: Vec<u8>)
    ensures
        r@ == assemble(slots_view(slots@)),
{
    let mut out: Vec<u8> = Vec::new();
    let n = slots.len();
    let mut i: usize = 0;
    proof {
        assert(slots_view(slots@).take(0) =~= Seq::<Option<Seq<u8>>>::empty());
    }
    while i < n
        invariant
            i <= n,
            n == slots@.len(),
            out@ == assemble(slots_view(slots@).take(i as int)),
        decreases n - i,
    {
        match &slots[i] {
            Some(frag) => {
                out.extend_from_slice(frag.as_slice());
            },
            None => {},
        }
        proof {
            let sv = slots_view(slots@);
            assert(sv.take(i + 1).drop_last() =~= sv.take(i as int));
            assert(sv.take(i + 1).last() == sv[i as int]);
        }
        i = i + 1;
    }
    proof {
        assert(slots_view(slots@).take(n as int) =~= slots_view(slots@));
    }
    out
}

/// Mathematical model of the reassembly engine between datagrams: idle, or
/// collecting the fragments of one split response.
pub enum StateModel {
    Idle,
    Collecting {
        uid: int,
        total: int,
        switch_size: int,
        decomp: Option<(int, int)>,
        slots: Seq<Option<Seq<u8>>>,
    },
}

/// Mathematical model of the whole decoder.
pub struct DecoderModel {
    pub variant: SplitVariant,
    pub state: StateModel,
}

enum ReassemblyState {
    Idle,
    Collecting {
        uid: u32,
        total: usize,
        switch_size: usize,
        decompress_info: Option<DecompressInfo>,
        slots: Vec<Option<Vec<u8>>>,
        filled: usize,
    },
}

impl ReassemblyState {
    spec fn model(&self) -> StateModel {
        match self {
            ReassemblyState::Idle => StateModel::Idle,
            ReassemblyState::Collecting { uid, total, switch_size, decompress_info, slots, .. } => (
            StateModel::Collecting {
                uid: *uid as int,
                total: *total as int,
                switch_size: *switch_size as int,
                decomp: decomp_view(*decompress_info),
                slots: slots_view(slots@),
            }),
        }
    }

    spec fn wf(&self) -> bool {
        match self {
            ReassemblyState::Idle => true,
            ReassemblyState::Collecting { total, switch_size, slots, filled, .. } => {
                &&& slots@.len() == *total
                &&& *filled == count_filled(slots_view(slots@))
                &&& *filled < *total
                &&& *switch_size >= 4
            },
        }
    }
}

/// Number of fragments that have arrived.
pub open spec fn count_filled(slots: Seq<Option<Seq<u8>>>) -> int
    decreases slots.len(),
{
    if slots.len() == 0 {
        0
    } else {
        count_filled(slots.drop_last()) + if slots.last() is Some {
            1int
        } else {
            0int
        }
    }
}

/// When every slot of a buffer holds a fragment, the count says so, and the
/// other way round.
proof fn lemma_count_filled_all(slots: Seq<Option<Seq<u8>>>)
    ensures
        count_filled(slots) <= slots.len(),
        count_filled(slots) == slots.len() <==> all_filled(slots),
        count_filled(slots) >= 0,
    decreases slots.len(),
{
    if slots.len() > 0 {
        lemma_count_filled_all(slots.drop_last());
        assert(slots.drop_last().len() == slots.len() - 1);
        if all_filled(slots) {
            assert(all_filled(slots.drop_last()));
        }
        if count_filled(slots) == slots.len() {
            assert(forall|i: int| 0 <= i < slots.len() - 1 ==> slots.drop_last()[i] == slots[i]);
            assert(slots.last() is Some);
        }
    }
}

/// A buffer with no fragment yet counts zero.
proof fn lemma_count_filled_empty(n: int)
    requires
        n >= 0,
    ensures
        count_filled(empty_slots(n)) == 0,
    decreases n,
{
    if n > 0 {
        assert(empty_slots(n).drop_last() =~= empty_slots(n - 1));
        lemma_count_filled_empty(n - 1);
    }
}

/// Updating one slot changes the count by one exactly when the slot was
/// empty.
proof fn lemma_count_filled_update(slots: Seq<Option<Seq<u8>>>, i: int, v: Seq<u8>)
    requires
        0 <= i < slots.len(),
    ensures
        count_filled(slots.update(i, Some(v))) == count_filled(slots) + if slots[i] is None {
            1int
        } else {
            0int
        },
    decreases slots.len(),
{
    let updated = slots.update(i, Some(v));
    if i == slots.len() - 1 {
        assert(updated.drop_last() =~= slots.drop_last());
    } else {
        assert(updated.drop_last() =~= slots.drop_last().update(i, Some(v)));
        assert(updated.last() == slots.last());
        lemma_count_filled_update(slots.drop_last(), i, v);
    }
}

/// Whether `r` reports the outcome `fr` of finishing a response: the whole
/// payload on success, the error otherwise.
pub open spec fn result_is_finish(
    r: Result<Option<Vec<u8>>, Error>,
    fr: Result<Seq<u8>, Error>,
) -> bool {
    match fr {
        Ok(d) => r matches Ok(p) && p matches Some(v) && v@ == d,
        Err(e) => r matches Err(e2) && e2 == e,
    }
}

/// What one datagram does to an idle decoder: a single packet yields its
/// payload at once; the first fragment of a split response seeds the
/// fragment buffer; anything else is refused.
pub open spec fn decode_idle(
    variant: SplitVariant,
    post: StateModel,
    s: Seq<u8>,
    r: Result<Option<Vec<u8>>, Error>,
) -> bool {
    if s.len() < 4 {
        r matches Err(Error::Parse(_)) && post is Idle
    } else {
        let h = as_signed32(le32_at(s, 0));
        if h == -1 {
            r matches Ok(p) && p matches Some(v) && v@ == s.skip(4) && post is Idle
        } else if h == -2 {
            match spec_split(variant, s.skip(4)) {
                None => r matches Err(Error::Parse(_)) && post is Idle,
                Some(m) => if m.total <= 0 || m.index >= m.total {
                    r matches Err(Error::Parse(_)) && post is Idle
                } else if m.switch_size < 4 {
                    r matches Err(Error::WrongHeader(w)) && w == m.switch_size && post is Idle
                } else if m.total == 1 {
                    result_is_finish(r, finish_result(m.payload, m.decomp)) && post is Idle
                } else {
                    r matches Ok(p) && p is None && post == (StateModel::Collecting {
                        uid: m.uid,
                        total: m.total,
                        switch_size: m.switch_size,
                        decomp: m.decomp,
                        slots: empty_slots(m.total).update(m.index, Some(m.payload)),
                    })
                },
            }
        } else {
            r matches Err(Error::WrongHeader(w)) && w == h && post is Idle
        }
    }
}

/// What one datagram does to a decoder that is collecting fragments: a
/// matching fragment is recorded (a repeated index overwrites); the
/// response is finished once every fragment is present; a fragment of
/// another response, or a non-split envelope, aborts the reassembly.
pub open spec fn decode_collecting(
    variant: SplitVariant,
    uid: int,
    total: int,
    switch_size: int,
    decomp: Option<(int, int)>,
    slots: Seq<Option<Seq<u8>>>,
    post: StateModel,
    s: Seq<u8>,
    r: Result<Option<Vec<u8>>, Error>,
) -> bool {
    if s.len() < 4 {
        r matches Err(Error::Parse(_)) && post is Idle
    } else {
        let h = as_signed32(le32_at(s, 0));
        if h != -2 {
            r matches Err(Error::WrongHeader(w)) && w == h && post is Idle
        } else {
            match spec_split(variant, s.skip(4)) {
                None => r matches Err(Error::Parse(_)) && post is Idle,
                Some(m) => if m.uid != uid || m.total != total {
                    r matches Err(e) && e == (Error::Interrupted {
                        base: MultiHeader { uid: uid as u32, total: total as usize },
                        wrong: MultiHeader { uid: m.uid as u32, total: m.total as usize },
                    }) && post is Idle
                } else if m.index >= total {
                    r matches Err(Error::Parse(_)) && post is Idle
                } else {
                    let slots2 = slots.update(m.index, Some(m.payload));
                    if all_filled(slots2) {
                        result_is_finish(r, finish_result(assemble(slots2), decomp)) && post is Idle
                    } else {
                        r matches Ok(p) && p is None && post == (StateModel::Collecting {
                            uid,
                            total,
                            switch_size,
                            decomp,
                            slots: slots2,
                        })
                    }
                },
            }
        }
    }
}

/// What one datagram does to the decoder.
pub open spec fn decode_transition(
    pre: DecoderModel,
    post: DecoderModel,
    s: Seq<u8>,
    r: Result<Option<Vec<u8>>, Error>,
) -> bool {
    &&& post.variant == pre.variant
    &&& match pre.state {
        StateModel::Idle => decode_idle(pre.variant, post.state, s, r),
        StateModel::Collecting { uid, total, switch_size, decomp, slots } => decode_collecting(
            pre.variant,
            uid,
            total,
            switch_size,
            decomp,
            slots,
            post.state,
            s,
            r,
        ),
    }
}

/// The framing and reassembly engine. Feed it datagrams one at a time;
/// `decode` answers with a whole application payload as soon as one is
/// complete. `next_recv_size` says how large a buffer the next `recv`
/// needs.
pub struct QueryDecoder {
    variant: SplitVariant,
    state: ReassemblyState,
}

impl View for QueryDecoder {
    type V = DecoderModel;

    closed spec fn view(&self) -> DecoderModel {
        DecoderModel { variant: self.variant, state: self.state.model() }
    }
}

impl QueryDecoder {
    #[verifier::type_invariant]
    spec fn wf(self) -> bool {
        self.state.wf()
    }

    /// A fresh engine for the given split-header variant.
    pub fn new(variant: SplitVariant) -> (r: Self)
        ensures
            r@ == (DecoderModel { variant, state: StateModel::Idle }),
    {
        QueryDecoder { variant, state: ReassemblyState::Idle }
    }

    /// How many bytes the next datagram buffer needs: the default frame
    /// size, or the switch size a Source split header dictated.
    pub fn next_recv_size(&self) -> (r: usize)
        ensures
            match self@.state {
                StateModel::Idle => r == DEFAULT_PACKET_SIZE,
                StateModel::Collecting { switch_size, .. } => r == switch_size,
            },
    {
        match &self.state {
            ReassemblyState::Idle => DEFAULT_PACKET_SIZE,
            ReassemblyState::Collecting { switch_size, .. } => *switch_size,
        }
    }

    /// Consumes one datagram. Yields `Ok(Some(payload))` when a response is
    /// whole, `Ok(None)` while fragments are still missing, and an error
    /// when the datagram cannot belong to the expected response; an error
    /// discards the reassembly in progress.
    pub fn decode(&mut self, datagram: &[u8]) -> (r: Result<Option<Vec<u8>>, Error>)
        ensures
            decode_transition(old(self)@, final(self)@, datagram@, r),
    {
        proof {
            use_type_invariant(&*self);
        }
        let mut st = ReassemblyState::Idle;
        core::mem::swap(&mut st, &mut self.state);
        let n = datagram.len();
        if n < 4 {
            return Err(Error::Parse(0));
        }
        let h = to_i32(read_u32_at(datagram, 0));
        match st {
            ReassemblyState::Idle => {
                if h == -1 {
                    let rest = vstd::slice::slice_to_vec(
                        vstd::slice::slice_subrange(datagram, 4, n),
                    );
                    proof {
                        assert(rest@ =~= datagram@.skip(4));
                    }
                    Ok(Some(rest))
                } else if h == -2 {
                    let tail = vstd::slice::slice_subrange(datagram, 4, n);
                    proof {
                        assert(tail@ =~= datagram@.skip(4));
                    }
                    let mp = match parse_split(self.variant, tail) {
                        Ok(mp) => mp,
                        Err(e) => {
                            return Err(e);
                        },
                    };
                    if mp.total == 0 || mp.index >= mp.total {
                        return Err(Error::Parse(8));
                    }
                    if mp.switch_size < 4 {
                        return Err(Error::WrongHeader(mp.switch_size as i32));
                    }
                    if mp.total == 1 {
                        let out = match finish(mp.payload, mp.decompress_info) {
                            Ok(v) => v,
                            Err(e) => {
                                return Err(e);
                            },
                        };
                        Ok(Some(out))
                    } else {
                        let ghost m = mp@;
                        let mut slots = make_slots(mp.total);
                        let filled: usize = 1;
                        slots[mp.index] = Some(mp.payload);
                        proof {
                            assert(slots_view(slots@) =~= empty_slots(m.total).update(
                                m.index,
                                Some(m.payload),
                            ));
                            lemma_count_filled_update(empty_slots(m.total), m.index, m.payload);
                            lemma_count_filled_empty(m.total);
                        }
                        self.state = ReassemblyState::Collecting {
                            uid: mp.uid,
                            total: mp.total,
                            switch_size: mp.switch_size,
                            decompress_info: mp.decompress_info,
                            slots,
                            filled,
                        };
                        Ok(None)
                    }
                } else {
                    Err(Error::WrongHeader(h))
                }
            },
            ReassemblyState::Collecting {
                uid,
                total,
                switch_size,
                decompress_info,
                mut slots,
                filled,
            } => {
                let ghost pre_slots = slots_view(slots@);
                if h != -2 {
                    return Err(Error::WrongHeader(h));
                }
                let tail = vstd::slice::slice_subrange(datagram, 4, n);
                proof {
                    assert(tail@ =~= datagram@.skip(4));
                }
                let mp = match parse_split(self.variant, tail) {
                    Ok(mp) => mp,
                    Err(e) => {
                        return Err(e);
                    },
                };
                if mp.uid != uid || mp.total != total {
                    return Err(Error::Interrupted {
                        base: MultiHeader { uid, total },
                        wrong: MultiHeader { uid: mp.uid, total: mp.total },
                    });
                }
                if mp.index >= total {
                    return Err(Error::Parse(8));
                }
                let ghost m = mp@;
                let was_empty = slots[mp.index].is_none();
                slots[mp.index] = Some(mp.payload);
                let filled = if was_empty {
                    filled + 1
                } else {
                    filled
                };
                proof {
                    assert(slots_view(slots@) =~= pre_slots.update(m.index, Some(m.payload)));
                    lemma_count_filled_update(pre_slots, m.index, m.payload);
                    lemma_count_filled_all(slots_view(slots@));
                }
                if filled == total {
                    let intermediate = assemble_slots(&slots);
                    let out = match finish(intermediate, decompress_info) {
                        Ok(v) => v,
                        Err(e) => {
                            return Err(e);
                        },
                    };
                    Ok(Some(out))
                } else {
                    proof {
                        assert(!all_filled(slots_view(slots@)));
                    }
                    self.state = ReassemblyState::Collecting {
                        uid,
                        total,
                        switch_size,
                        decompress_info,
                        slots,
                        filled,
                    };
                    Ok(None)
                }
            },
        }
    }
}

/// Law: a single-packet envelope yields exactly its payload. For every
/// payload `p` that fits a default frame, decoding the datagram
/// `[FF FF FF FF] + p` from idle returns `p` and leaves the engine idle.
pub proof fn lemma_single_packet_payload(
    pre: DecoderModel,
    post: DecoderModel,
    p: Seq<u8>,
    r: Result<Option<Vec<u8>>, Error>,
)
    requires
        pre.state is Idle,
        p.len() <= 1396,
        decode_transition(pre, post, seq![0xffu8, 0xff, 0xff, 0xff] + p, r),
    ensures
        r matches Ok(o) && o matches Some(v) && v@ == p,
        post.state is Idle,
{
    let s = seq![0xffu8, 0xff, 0xff, 0xff] + p;
    assert(s[0] == 0xff && s[1] == 0xff && s[2] == 0xff && s[3] == 0xff);
    assert(le32_at(s, 0) == 0xFFFF_FFFF);
    assert(as_signed32(0xFFFF_FFFF) == -1);
    assert(s.skip(4) =~= p);
}

/// The arrivals of the fragments `frags` in the order `order`: pair `k`
/// with fragment `k`.
pub open spec fn arrivals_of(order: Seq<int>, frags: Seq<Seq<u8>>) -> Seq<(int, Seq<u8>)> {
    order.map_values(|k: int| (k, frags[k]))
}

/// The fragment buffer after a sequence of `(index, payload)` arrivals,
/// each recorded at its index.
pub open spec fn apply_arrivals(
    slots: Seq<Option<Seq<u8>>>,
    arrivals: Seq<(int, Seq<u8>)>,
) -> Seq<Option<Seq<u8>>>
    decreases arrivals.len(),
{
    if arrivals.len() == 0 {
        slots
    } else {
        apply_arrivals(slots.update(arrivals[0].0, Some(arrivals[0].1)), arrivals.drop_first())
    }
}

/// Recording fragments that agree with `frags` fills exactly the visited
/// slots, each with its own fragment.
proof fn lemma_apply_arrivals_fill(
    slots: Seq<Option<Seq<u8>>>,
    frags: Seq<Seq<u8>>,
    order: Seq<int>,
)
    requires
        slots.len() == frags.len(),
        forall|j: int| 0 <= j < order.len() ==> 0 <= #[trigger] order[j] < frags.len(),
        forall|i: int|
            0 <= i < slots.len() && #[trigger] slots[i] is Some ==> slots[i] == Some(frags[i]),
    ensures
        apply_arrivals(slots, arrivals_of(order, frags)).len() == slots.len(),
        forall|i: int|
            0 <= i < slots.len() ==> #[trigger] apply_arrivals(
                slots,
                arrivals_of(order, frags),
            )[i] == if order.contains(i) || slots[i] is Some {
                Some(frags[i])
            } else {
                None::<Seq<u8>>
            },
    decreases order.len(),
{
    let arrivals = arrivals_of(order, frags);
    if order.len() == 0 {
        assert(arrivals.len() == 0);
        assert(forall|i: int| 0 <= i < frags.len() ==> !order.contains(i));
    } else {
        let k = order[0];
        let slots2 = slots.update(k, Some(frags[k]));
        assert(arrivals[0] == (k, frags[k]));
        assert(arrivals.drop_first() =~= arrivals_of(order.drop_first(), frags));
        lemma_apply_arrivals_fill(slots2, frags, order.drop_first());
        assert forall|i: int| 0 <= i < slots.len() implies #[trigger] apply_arrivals(
            slots,
            arrivals,
        )[i] == if order.contains(i) || slots[i] is Some {
            Some(frags[i])
        } else {
            None::<Seq<u8>>
        } by {
            let rest = order.drop_first();
            if order.contains(i) {
                let j = choose|j: int| 0 <= j < order.len() && order[j] == i;
                if j == 0 {
                    if !rest.contains(i) && !(slots2[i] is Some) {
                        assert(slots2[k] == Some(frags[k]));
                    }
                } else {
                    assert(rest[j - 1] == i);
                    assert(rest.contains(i));
                }
            } else {
                assert(forall|j: int|
                    0 <= j < rest.len() ==> #[trigger] rest[j] == order[j + 1]);
                assert(!rest.contains(i));
                assert(i != k);
            }
        }
    }
}

/// A buffer holding exactly `frags` assembles to their concatenation.
proof fn lemma_assemble_map_some(frags: Seq<Seq<u8>>)
    ensures
        assemble(frags.map_values(|f: Seq<u8>| Some(f))) == frags.flatten_alt(),
    decreases frags.len(),
{
    let mapped = frags.map_values(|f: Seq<u8>| Some(f));
    if frags.len() == 0 {
        assert(mapped.len() == 0);
        assert(frags.flatten_alt() =~= Seq::<u8>::empty());
    } else {
        assert(mapped.drop_last() =~= frags.drop_last().map_values(|f: Seq<u8>| Some(f)));
        assert(mapped.last() == Some(frags.last()));
        lemma_assemble_map_some(frags.drop_last());
    }
}

/// Law: shuffled arrival. Whatever order the fragments of one split
/// response arrive in — any sequence of indexes that covers them all,
/// repetitions included — the filled buffer holds every fragment at its
/// own index, and assembling it yields the concatenation of the fragments
/// in index order.
pub proof fn lemma_reassembly_order_irrelevant(frags: Seq<Seq<u8>>, order: Seq<int>)
    requires
        forall|j: int| 0 <= j < order.len() ==> 0 <= #[trigger] order[j] < frags.len(),
        forall|i: int| 0 <= i < frags.len() ==> order.contains(i),
    ensures
        apply_arrivals(empty_slots(frags.len() as int), arrivals_of(order, frags))
            =~= frags.map_values(|f: Seq<u8>| Some(f)),
        assemble(
            apply_arrivals(
                empty_slots(frags.len() as int),
                arrivals_of(order, frags),
            ),
        ) == frags.flatten_alt(),
{
    let slots = empty_slots(frags.len() as int);
    lemma_apply_arrivals_fill(slots, frags, order);
    let result = apply_arrivals(slots, arrivals_of(order, frags));
    assert(result =~= frags.map_values(|f: Seq<u8>| Some(f)));
    lemma_assemble_map_some(frags);
}

/// Law: compressed responses. Once a compressed Source response is
/// reassembled, the engine returns the decompressed bytes exactly when
/// bzip2 accepts the stream and the advertised CRC-32 matches; a rejected
/// stream fails with `Decompress`, a checksum mismatch with `Crc32`.
pub proof fn lemma_compressed_outcome(intermediate: Seq<u8>, dsize: int, crc: int)
    requires
        0 <= dsize,
        0 <= crc < 0x1_0000_0000,
    ensures
        match bunzip(intermediate, dsize as nat) {
            Some(d) => finish_result(intermediate, Some((dsize, crc))) == if crc32_of(d) == crc {
                Ok::<Seq<u8>, Error>(d)
            } else {
                Err::<Seq<u8>, Error>(Error::Crc32(crc as u32, crc32_of(d)))
            },
            None => finish_result(intermediate, Some((dsize, crc))) == Err::<Seq<u8>, Error>(
                Error::Decompress,
            ),
        },
{
}

} // verus!
