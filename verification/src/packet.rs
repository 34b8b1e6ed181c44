//! Wire-format codec: the five message kinds, their binary layout, and
//! bidirectional encode/decode with bounds validation.
//!
//! Every packet starts with a 2-byte big-endian opcode. Requests carry two
//! zero-terminated byte strings (filename and mode); data packets carry a
//! 2-byte block number and up to one block of payload; acknowledgements
//! carry only a block number; error packets carry a 2-byte code and a
//! zero-terminated message.

use vstd::prelude::*;

verus! {

/// Timeout, in seconds, applied to each server-side transfer endpoint.
pub const TFTP_TIMEOUT: u64 = 12;

/// Well-known port on which the server accepts new transfer requests.
pub const TFTP_PORT: u16 = 0x0045;

/// Port wildcard used to open a fresh ephemeral transfer endpoint.
pub const TFTP_TID0: u16 = 0x0000;

/// Fixed size of a full data block.
pub const TFTP_SIZE_DATA_BLOCK: usize = 0x0200;

/// Largest well-formed packet: 4-byte header plus one full data block.
pub const TFTP_SIZE_PACKET_MAX: usize = TFTP_SIZE_DATA_BLOCK + 4;

/// Failure taxonomy of the protocol engine. Every error is fatal to the
/// transfer that raised it.
#[derive(Clone, Copy, Debug, PartialEq, Eq, Structural)]
pub enum TftpError {
    /// Malformed packet: bad opcode, missing string delimiter, or a length
    /// outside the accepted bounds.
    Framing,
    /// A received block number does not match the expected next block.
    Sequence,
    /// No datagram arrived within the fixed window on a transfer endpoint.
    Timeout,
    /// Underlying filesystem or network failure.
    Io,
}

/// The five operation codes, sent on the wire as a 2-byte big-endian
/// integer in the range 1 through 5.
#[derive(Clone, Copy, Debug, PartialEq, Eq, Structural)]
pub enum OpCode {
    ReadRequest,
    WriteRequest,
    Data,
    Ack,
    Error,
}

impl OpCode {
    /// The numeric value this opcode takes on the wire.
    pub open spec fn spec_as_u16(self) -> u16 {
        match self {
            OpCode::ReadRequest => 1,
            OpCode::WriteRequest => 2,
            OpCode::Data => 3,
            OpCode::Ack => 4,
            OpCode::Error => 5,
        }
    }

    /// Numeric wire value of this opcode.
    pub fn as_u16(self) -> (r: u16)
        ensures
            r == self.spec_as_u16(),
    {
        match self {
            OpCode::ReadRequest => 1,
            OpCode::WriteRequest => 2,
            OpCode::Data => 3,
            OpCode::Ack => 4,
            OpCode::Error => 5,
        }
    }

    /// Explicit, exhaustively checked conversion from a wire value.
    /// Values 1 through 5 name an opcode; anything else is a framing error.
    pub fn from_u16(x: u16) -> (r: Result<OpCode, TftpError>)
        ensures
            r is Ok <==> 1 <= x <= 5,
            r matches Ok(op) ==> op.spec_as_u16() == x,
            r matches Err(e) ==> e == TftpError::Framing,
    {
        if x == 1 {
            Ok(OpCode::ReadRequest)
        } else if x == 2 {
            Ok(OpCode::WriteRequest)
        } else if x == 3 {
            Ok(OpCode::Data)
        } else if x == 4 {
            Ok(OpCode::Ack)
        } else if x == 5 {
            Ok(OpCode::Error)
        } else {
            Err(TftpError::Framing)
        }
    }
}

/// Mathematical model of a packet: the same five shapes over sequences
/// of bytes instead of vectors.
pub ghost enum PacketSpec {
    ReadRequest { filename: Seq<u8>, mode: Seq<u8> },
    WriteRequest { filename: Seq<u8>, mode: Seq<u8> },
    Data { block: u16, payload: Seq<u8> },
    Ack { block: u16 },
    Error { code: u16, message: Seq<u8> },
}

/// One protocol message. A value is built immediately before one send and
/// consumed immediately after one receive; it has no life beyond a single
/// datagram round-trip.
#[derive(Debug)]
pub enum Packet {
    /// Request to download the named file: filename, then mode.
    ReadRequest(Vec<u8>, Vec<u8>),
    /// Request to upload the named file: filename, then mode.
    WriteRequest(Vec<u8>, Vec<u8>),
    /// One transfer chunk: 1-based block number, then at most one block
    /// of payload.
    Data(u16, Vec<u8>),
    /// Acknowledges the block with that number; block 0 acknowledges
    /// acceptance of the initiating request.
    Ack(u16),
    /// Terminates a transfer: numeric code, then a human-readable reason.
    Error(u16, Vec<u8>),
}

impl View for Packet {
    type V = PacketSpec;

    open spec fn view(&self) -> PacketSpec {
        match self {
            Packet::ReadRequest(f, m) => PacketSpec::ReadRequest { filename: f@, mode: m@ },
            Packet::WriteRequest(f, m) => PacketSpec::WriteRequest { filename: f@, mode: m@ },
            Packet::Data(b, d) => PacketSpec::Data { block: *b, payload: d@ },
            Packet::Ack(b) => PacketSpec::Ack { block: *b },
            Packet::Error(c, m) => PacketSpec::Error { code: *c, message: m@ },
        }
    }
}

impl PacketSpec {
    /// Opcode of this packet shape.
    pub open spec fn spec_opcode(self) -> OpCode {
        match self {
            PacketSpec::ReadRequest { .. } => OpCode::ReadRequest,
            PacketSpec::WriteRequest { .. } => OpCode::WriteRequest,
            PacketSpec::Data { .. } => OpCode::Data,
            PacketSpec::Ack { .. } => OpCode::Ack,
            PacketSpec::Error { .. } => OpCode::Error,
        }
    }

    /// A packet that `encode` accepts: a data payload never exceeds one
    /// block. Every other shape is always encodable.
    pub open spec fn encodable(self) -> bool {
        match self {
            PacketSpec::Data { payload, .. } => payload.len() <= TFTP_SIZE_DATA_BLOCK,
            _ => true,
        }
    }

    /// A packet whose encoding decodes back to itself: encodable, its byte
    /// strings are free of the zero delimiter, and its encoding fits within
    /// the maximum packet size.
    pub open spec fn wf(self) -> bool {
        match self {
            PacketSpec::ReadRequest { filename, mode } | PacketSpec::WriteRequest {
                filename,
                mode,
            } => {
                &&& !filename.contains(0u8)
                &&& !mode.contains(0u8)
                &&& filename.len() + mode.len() + 4 <= TFTP_SIZE_PACKET_MAX
            },
            PacketSpec::Data { payload, .. } => payload.len() <= TFTP_SIZE_DATA_BLOCK,
            PacketSpec::Ack { .. } => true,
            PacketSpec::Error { message, .. } => {
                &&& !message.contains(0u8)
                &&& message.len() + 5 <= TFTP_SIZE_PACKET_MAX
            },
        }
    }
}

/// Lowers one ASCII letter; leaves every other byte unchanged.
pub open spec fn byte_lower(c: u8) -> u8 {
    if 65 <= c <= 90 {
        (c + 32) as u8
    } else {
        c
    }
}

/// The mode bytes spell "octet", compared case-insensitively.
pub open spec fn spec_mode_octet(m: Seq<u8>) -> bool {
    &&& m.len() == 5
    &&& byte_lower(m[0]) == 111
    &&& byte_lower(m[1]) == 99
    &&& byte_lower(m[2]) == 116
    &&& byte_lower(m[3]) == 101
    &&& byte_lower(m[4]) == 116
}

/// True exactly when `mode` spells the single supported transfer mode
/// "octet", compared case-insensitively.
pub fn mode_is_octet(mode: &Vec<u8>) -> (r: bool)
    ensures
        r == spec_mode_octet(mode@),
{
    if mode.len() != 5 {
        return false;
    }
    let b0 = lower_ascii(mode[0]);
    let b1 = lower_ascii(mode[1]);
    let b2 = lower_ascii(mode[2]);
    let b3 = lower_ascii(mode[3]);
    let b4 = lower_ascii(mode[4]);
    b0 == 111 && b1 == 99 && b2 == 116 && b3 == 101 && b4 == 116
}

/// Lowers one ASCII letter; leaves every other byte unchanged.
fn lower_ascii(c: u8) -> (r: u8)
    ensures
        r == byte_lower(c),
{
    if 65 <= c && c <= 90 {
        c + 32
    } else {
        c
    }
}

impl Packet {
    /// Opcode of this packet.
    pub fn opcode(&self) -> (r: OpCode)
        ensures
            r == self@.spec_opcode(),
    {
        match self {
            Packet::ReadRequest(..) => OpCode::ReadRequest,
            Packet::WriteRequest(..) => OpCode::WriteRequest,
            Packet::Data(..) => OpCode::Data,
            Packet::Ack(..) => OpCode::Ack,
            Packet::Error(..) => OpCode::Error,
        }
    }

    /// Builds a read request. Any mode other than "octet" is a caller
    /// error, so the contract rules it out.
    pub fn newrrq(file: Vec<u8>, mode: Vec<u8>) -> (r: Packet)
        requires
            spec_mode_octet(mode@),
        ensures
            r@ == (PacketSpec::ReadRequest { filename: file@, mode: mode@ }),
    {
        Packet::ReadRequest(file, mode)
    }

    /// Builds a write request. Any mode other than "octet" is a caller
    /// error, so the contract rules it out.
    pub fn newwrq(file: Vec<u8>, mode: Vec<u8>) -> (r: Packet)
        requires
            spec_mode_octet(mode@),
        ensures
            r@ == (PacketSpec::WriteRequest { filename: file@, mode: mode@ }),
    {
        Packet::WriteRequest(file, mode)
    }

    /// Builds a data packet. The payload never exceeds one block: that is
    /// the construction-time block-size invariant.
    pub fn newdat(blkid: u16, data: Vec<u8>) -> (r: Packet)
        requires
            data@.len() <= TFTP_SIZE_DATA_BLOCK,
        ensures
            r@ == (PacketSpec::Data { block: blkid, payload: data@ }),
    {
        Packet::Data(blkid, data)
    }

    /// Builds an acknowledgement for the given block number.
    pub fn newack(blkid: u16) -> (r: Packet)
        ensures
            r@ == (PacketSpec::Ack { block: blkid }),
    {
        Packet::Ack(blkid)
    }

    /// Builds an error packet from a code and a message.
    pub fn newerr(code: u16, msgs: Vec<u8>) -> (r: Packet)
        ensures
            r@ == (PacketSpec::Error { code: code, message: msgs@ }),
    {
        Packet::Error(code, msgs)
    }

    /// True exactly when `encode` accepts this packet: a data payload of
    /// more than one block is rejected before it can be sent.
    pub fn encodable(&self) -> (r: bool)
        ensures
            r == self@.encodable(),
    {
        match self {
            Packet::Data(_, data) => data.len() <= TFTP_SIZE_DATA_BLOCK,
            _ => true,
        }
    }

    /// Serializes this packet into its binary layout. Deterministic and
    /// total on every encodable packet.
    pub fn encode(&self) -> (v: Vec<u8>)
        requires
            self@.encodable(),
        ensures
            v@ == spec_encode(self@),
    {
        let mut v: Vec<u8> = Vec::new();
        v.push(0);
        v.push(self.opcode().as_u16() as u8);
        match self {
            Packet::ReadRequest(file, mode) | Packet::WriteRequest(file, mode) => {
                v = push_bytes(v, file);
                v.push(0);
                v = push_bytes(v, mode);
                v.push(0);
            },
            Packet::Data(blkid, data) => {
                v.push((blkid / 256) as u8);
                v.push((blkid % 256) as u8);
                v = push_bytes(v, data);
            },
            Packet::Ack(blkid) => {
                v.push((blkid / 256) as u8);
                v.push((blkid % 256) as u8);
            },
            Packet::Error(code, msgs) => {
                v.push((code / 256) as u8);
                v.push((code % 256) as u8);
                v = push_bytes(v, msgs);
                v.push(0);
            },
        }
        proof {
            assert(v@ =~= spec_encode(self@));
        }
        v
    }

    /// Deserializes one datagram. `len` is the received byte count, which
    /// must match the buffer, lie within the accepted bounds, and frame a
    /// well-formed packet; any malformed input is a fatal framing error.
    pub fn decode(raw: &Vec<u8>, len: usize) -> (r: Result<Packet, TftpError>)
        ensures
            r is Ok <==> (len == raw@.len() && spec_decode(raw@) is Some),
            r matches Ok(p) ==> Some(p@) == spec_decode(raw@),
            r matches Ok(p) ==> p@.encodable(),
            r matches Err(e) ==> e == TftpError::Framing,
    {
        if len != raw.len() || len < 4 || len > TFTP_SIZE_PACKET_MAX {
            return Err(TftpError::Framing);
        }
        let op_val: u16 = (raw[0] as u16) * 256 + (raw[1] as u16);
        let op = match OpCode::from_u16(op_val) {
            Ok(op) => op,
            Err(e) => {
                return Err(e);
            },
        };
        proof {
            assert(raw@[0] == 0 && raw@[1] == op.spec_as_u16());
        }
        match op {
            OpCode::ReadRequest | OpCode::WriteRequest => {
                proof {
                    lemma_first_zero_bounds(raw@, 2);
                }
                let e1 = find_zero(raw, 2);
                if e1 == len {
                    return Err(TftpError::Framing);
                }
                proof {
                    lemma_first_zero_bounds(raw@, e1 + 1);
                }
                let e2 = find_zero(raw, e1 + 1);
                if e2 == len {
                    return Err(TftpError::Framing);
                }
                let file = subvec(raw, 2, e1);
                let mode = subvec(raw, e1 + 1, e2);
                if matches!(op, OpCode::ReadRequest) {
                    Ok(Packet::ReadRequest(file, mode))
                } else {
                    Ok(Packet::WriteRequest(file, mode))
                }
            },
            OpCode::Data => {
                let blkid: u16 = (raw[2] as u16) * 256 + (raw[3] as u16);
                let data = subvec(raw, 4, len);
                Ok(Packet::Data(blkid, data))
            },
            OpCode::Ack => {
                let blkid: u16 = (raw[2] as u16) * 256 + (raw[3] as u16);
                Ok(Packet::Ack(blkid))
            },
            OpCode::Error => {
                let code: u16 = (raw[2] as u16) * 256 + (raw[3] as u16);
                proof {
                    lemma_first_zero_bounds(raw@, 4);
                }
                let e = find_zero(raw, 4);
                if e == len {
                    return Err(TftpError::Framing);
                }
                let msgs = subvec(raw, 4, e);
                Ok(Packet::Error(code, msgs))
            },
        }
    }
}

impl PartialEq for Packet {
    /// Two packets are equal when they are the same variant with equal
    /// fields.
    fn eq(&self, other: &Packet) -> (r: bool) {
        match (self, other) {
            (Packet::ReadRequest(f1, m1), Packet::ReadRequest(f2, m2)) => {
                bytes_eq(f1, f2) && bytes_eq(m1, m2)
            },
            (Packet::WriteRequest(f1, m1), Packet::WriteRequest(f2, m2)) => {
                bytes_eq(f1, f2) && bytes_eq(m1, m2)
            },
            (Packet::Data(b1, d1), Packet::Data(b2, d2)) => *b1 == *b2 && bytes_eq(d1, d2),
            (Packet::Ack(b1), Packet::Ack(b2)) => *b1 == *b2,
            (Packet::Error(c1, m1), Packet::Error(c2, m2)) => *c1 == *c2 && bytes_eq(m1, m2),
            _ => false,
        }
    }
}

impl vstd::std_specs::cmp::PartialEqSpecImpl for Packet {
    open spec fn obeys_eq_spec() -> bool {
        true
    }

    open spec fn eq_spec(&self, other: &Packet) -> bool {
        self@ == other@
    }
}

/// Byte-for-byte equality of two byte vectors.
fn bytes_eq(a: &Vec<u8>, b: &Vec<u8>) -> (r: bool)
    ensures
        r == (a@ == b@),
{
    if a.len() != b.len() {
        return false;
    }
    let mut i: usize = 0;
    while i < a.len()
        invariant
            a@.len() == b@.len(),
            i <= a@.len(),
            forall|k: int| 0 <= k < i ==> a@[k] == b@[k],
        decreases a@.len() - i,
    {
        if a[i] != b[i] {
            return false;
        }
        i = i + 1;
    }
    proof {
        assert(a@ =~= b@);
    }
    true
}

/// The big-endian byte pair that carries a 16-bit field on the wire.
pub open spec fn spec_be16(x: u16) -> Seq<u8> {
    seq![(x / 256) as u8, (x % 256) as u8]
}

/// The 16-bit value carried by a big-endian byte pair.
pub open spec fn spec_be16_val(hi: u8, lo: u8) -> u16 {
    (hi * 256 + lo) as u16
}

/// Binary layout of each packet shape.
pub open spec fn spec_encode(p: PacketSpec) -> Seq<u8> {
    match p {
        PacketSpec::ReadRequest { filename, mode } => seq![0u8, 1u8] + filename + seq![0u8]
            + mode + seq![0u8],
        PacketSpec::WriteRequest { filename, mode } => seq![0u8, 2u8] + filename + seq![0u8]
            + mode + seq![0u8],
        PacketSpec::Data { block, payload } => seq![0u8, 3u8] + spec_be16(block) + payload,
        PacketSpec::Ack { block } => seq![0u8, 4u8] + spec_be16(block),
        PacketSpec::Error { code, message } => seq![0u8, 5u8] + spec_be16(code) + message
            + seq![0u8],
    }
}

/// Index of the first zero byte of `s` at or after `i`; the length of `s`
/// when there is none.
pub open spec fn first_zero(s: Seq<u8>, i: int) -> int
    decreases s.len() - i,
{
    if i < 0 || i >= s.len() {
        s.len() as int
    } else if s[i] == 0 {
        i
    } else {
        first_zero(s, i + 1)
    }
}

/// What a well-formed byte sequence decodes to; `None` on any malformed
/// input: bad length, bad opcode, or a missing string delimiter.
pub open spec fn spec_decode(s: Seq<u8>) -> Option<PacketSpec> {
    if s.len() < 4 || s.len() > TFTP_SIZE_PACKET_MAX {
        None
    } else if s[0] != 0 {
        None
    } else if s[1] == 1 || s[1] == 2 {
        let e1 = first_zero(s, 2);
        if e1 >= s.len() {
            None
        } else {
            let e2 = first_zero(s, e1 + 1);
            if e2 >= s.len() {
                None
            } else {
                let filename = s.subrange(2, e1);
                let mode = s.subrange(e1 + 1, e2);
                if s[1] == 1 {
                    Some(PacketSpec::ReadRequest { filename, mode })
                } else {
                    Some(PacketSpec::WriteRequest { filename, mode })
                }
            }
        }
    } else if s[1] == 3 {
        Some(
            PacketSpec::Data {
                block: spec_be16_val(s[2], s[3]),
                payload: s.subrange(4, s.len() as int),
            },
        )
    } else if s[1] == 4 {
        Some(PacketSpec::Ack { block: spec_be16_val(s[2], s[3]) })
    } else if s[1] == 5 {
        let e = first_zero(s, 4);
        if e >= s.len() {
            None
        } else {
            Some(PacketSpec::Error { code: spec_be16_val(s[2], s[3]), message: s.subrange(4, e) })
        }
    } else {
        None
    }
}

/// `first_zero(s, i)` lies between `i` and the length of `s`, points at a
/// zero byte whenever it lies short of the end, and nothing before it is
/// zero.
pub proof fn lemma_first_zero_bounds(s: Seq<u8>, i: int)
    requires
        0 <= i <= s.len(),
    ensures
        i <= first_zero(s, i) <= s.len(),
        first_zero(s, i) < s.len() ==> s[first_zero(s, i)] == 0,
        forall|k: int| i <= k < first_zero(s, i) ==> s[k] != 0,
    decreases s.len() - i,
{
    if i < s.len() && s[i] != 0 {
        lemma_first_zero_bounds(s, i + 1);
    }
}

/// When `s[j]` is zero and nothing from `i` up to `j` is, the first zero
/// at or after `i` is exactly `j`.
proof fn lemma_first_zero_at(s: Seq<u8>, i: int, j: int)
    requires
        0 <= i <= j < s.len(),
        s[j] == 0,
        forall|k: int| i <= k < j ==> s[k] != 0,
    ensures
        first_zero(s, i) == j,
    decreases j - i,
{
    if i < j {
        lemma_first_zero_at(s, i + 1, j);
    }
}

/// Round-trip law: decoding the encoding of any well-formed packet gives
/// back exactly that packet.
pub proof fn lemma_round_trip(p: PacketSpec)
    requires
        p.wf(),
    ensures
        spec_decode(spec_encode(p)) == Some(p),
{
    let s = spec_encode(p);
    match p {
        PacketSpec::ReadRequest { filename, mode } | PacketSpec::WriteRequest {
            filename,
            mode,
        } => {
            let e1 = 2 + filename.len() as int;
            let e2 = e1 + 1 + mode.len() as int;
            assert(s.len() == filename.len() + mode.len() + 4);
            assert forall|k: int| 2 <= k < e1 implies s[k] != 0 by {
                assert(s[k] == filename[k - 2]);
                if filename[k - 2] == 0 {
                    assert(filename.contains(0u8));
                }
            }
            assert(s[e1] == 0);
            lemma_first_zero_at(s, 2, e1);
            assert forall|k: int| e1 + 1 <= k < e2 implies s[k] != 0 by {
                assert(s[k] == mode[k - (e1 + 1)]);
                if mode[k - (e1 + 1)] == 0 {
                    assert(mode.contains(0u8));
                }
            }
            assert(s[e2] == 0);
            lemma_first_zero_at(s, e1 + 1, e2);
            assert(s.subrange(2, e1) =~= filename);
            assert(s.subrange(e1 + 1, e2) =~= mode);
        },
        PacketSpec::Data { block, payload } => {
            lemma_be16_round_trip(block);
            assert(s.subrange(4, s.len() as int) =~= payload);
        },
        PacketSpec::Ack { block } => {
            lemma_be16_round_trip(block);
        },
        PacketSpec::Error { code, message } => {
            let e = 4 + message.len() as int;
            lemma_be16_round_trip(code);
            assert forall|k: int| 4 <= k < e implies s[k] != 0 by {
                assert(s[k] == message[k - 4]);
                if message[k - 4] == 0 {
                    assert(message.contains(0u8));
                }
            }
            assert(s[e] == 0);
            lemma_first_zero_at(s, 4, e);
            assert(s.subrange(4, e) =~= message);
        },
    }
}

/// Reading back the big-endian byte pair of a 16-bit field gives the
/// field.
proof fn lemma_be16_round_trip(x: u16)
    ensures
        spec_be16_val(spec_be16(x)[0], spec_be16(x)[1]) == x,
{
    vstd::arithmetic::div_mod::lemma_fundamental_div_mod(x as int, 256);
}

/// Scans forward for the first zero byte of `raw` at or after `from`;
/// hands back the length of `raw` when there is none.
fn find_zero(raw: &Vec<u8>, from: usize) -> (r: usize)
    requires
        from <= raw@.len(),
    ensures
        r == first_zero(raw@, from as int),
{
    let mut i: usize = from;
    while i < raw.len()
        invariant
            from <= i <= raw@.len(),
            first_zero(raw@, from as int) == first_zero(raw@, i as int),
        decreases raw@.len() - i,
    {
        if raw[i] == 0 {
            return i;
        }
        i = i + 1;
    }
    i
}

/// Copies the bytes of `raw` between `a` and `b` into a fresh vector.
pub(crate) fn subvec(raw: &Vec<u8>, a: usize, b: usize) -> (v: Vec<u8>)
    requires
        a <= b,
        b <= raw@.len(),
    ensures
        v@ == raw@.subrange(a as int, b as int),
{
    let mut v: Vec<u8> = Vec::new();
    let mut i: usize = a;
    proof {
        assert(v@ =~= raw@.subrange(a as int, a as int));
    }
    while i < b
        invariant
            a <= i <= b,
            b <= raw@.len(),
            v@ == raw@.subrange(a as int, i as int),
        decreases b - i,
    {
        v.push(raw[i]);
        proof {
            assert(raw@.subrange(a as int, i as int) + seq![raw@[i as int]] =~= raw@.subrange(
                a as int,
                i + 1,
            ));
        }
        i = i + 1;
    }
    v
}

/// Appends every byte of `s` to `v`.
fn push_bytes(v: Vec<u8>, s: &Vec<u8>) -> (r: Vec<u8>)
    ensures
        r@ == v@ + s@,
{
    let mut r = v;
    let mut i: usize = 0;
    proof {
        assert(v@ + s@.subrange(0, 0) =~= v@);
    }
    while i < s.len()
        invariant
            i <= s@.len(),
            r@ == v@ + s@.subrange(0, i as int),
        decreases s@.len() - i,
    {
        r.push(s[i]);
        proof {
            assert(v@ + s@.subrange(0, i as int) + seq![s@[i as int]] =~= v@ + s@.subrange(
                0,
                i + 1,
            ));
        }
        i = i + 1;
    }
    proof {
        assert(v@ + s@.subrange(0, s@.len() as int) =~= v@ + s@);
    }
    r
}

} // verus!
