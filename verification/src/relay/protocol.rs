//! The datagrams that the relay sends.
//!
//! Wire format:
//!   magic(4) | version(1) | type(1) | timestamp(8) | nonce(16) |
//!   sender_id(32) | reason_len(2) | reason(var) | signature(64)

use vstd::prelude::*;
use vstd::slice::slice_subrange;
use vstd::utf8::{
    decode_utf8, encode_utf8, encode_utf8_decode_utf8, encode_utf8_valid_utf8, valid_utf8,
};

use crate::text::utf8;

verus! {

/// "PKRL"
pub const MAGIC: [u8; 4] = [0x50, 0x4B, 0x52, 0x4C];

pub const VERSION: u8 = 1;

/// Everything before the reason.
pub const HEADER_SIZE: usize = 64;

pub const SIGNATURE_SIZE: usize = 64;

pub const MAX_REASON_LEN: usize = 256;

pub const MIN_PACKET_SIZE: usize = 128;

pub const MAX_PACKET_SIZE: usize = 384;

/// The bytes of a signature.
pub type Signature = [u8; 64];

/// What a datagram asks for, or answers.
#[derive(Debug, Clone, Copy, PartialEq, Eq, Structural)]
pub enum PacketType {
    Kill,
    Ack,
}

impl PacketType {
    /// The byte on the wire.
    pub open spec fn byte(self) -> u8 {
        match self {
            PacketType::Kill => 1,
            PacketType::Ack => 2,
        }
    }

    /// The byte on the wire.
    pub fn to_byte(self) -> (r: u8)
        ensures
            r == self.byte(),
    {
        match self {
            PacketType::Kill => 1,
            PacketType::Ack => 2,
        }
    }

    /// The type for a byte on the wire.
    pub fn from_byte(b: u8) -> (r: Option<PacketType>)
        ensures
            match r {
                Some(t) => t.byte() == b,
                None => forall|t: PacketType| t.byte() != b,
            },
    {
        match b {
            1 => Some(PacketType::Kill),
            2 => Some(PacketType::Ack),
            _ => None,
        }
    }
}

/// Parsed packet (signature already stripped and verified externally).
#[derive(Debug, Clone)]
pub struct Packet {
    pub packet_type: PacketType,
    pub timestamp: u64,
    pub nonce: [u8; 16],
    pub sender_id: [u8; 32],
    pub reason: String,
}

/// What a packet says, as plain sequences.
pub struct PacketModel {
    pub packet_type: PacketType,
    pub timestamp: u64,
    pub nonce: Seq<u8>,
    pub sender_id: Seq<u8>,
    pub reason: Seq<char>,
}

impl View for Packet {
    type V = PacketModel;

    open spec fn view(&self) -> PacketModel {
        PacketModel {
            packet_type: self.packet_type,
            timestamp: self.timestamp,
            nonce: self.nonce@,
            sender_id: self.sender_id@,
            reason: self.reason@,
        }
    }
}

/// A number in `width` bytes, the highest first.
pub open spec fn be_bytes(n: nat, width: nat) -> Seq<u8>
    decreases width,
{
    if width == 0 {
        Seq::empty()
    } else {
        be_bytes(n / 256, (width - 1) as nat).push((n % 256) as u8)
    }
}

/// What bytes are worth, the highest first.
pub open spec fn be_value(b: Seq<u8>) -> nat
    decreases b.len(),
{
    if b.len() == 0 {
        0
    } else {
        be_value(b.drop_last()) * 256 + b.last() as nat
    }
}

/// 256 to a power.
pub open spec fn pow256(w: nat) -> nat
    decreases w,
{
    if w == 0 {
        1
    } else {
        256 * pow256((w - 1) as nat)
    }
}

/// A number that fits is read back from its bytes.
pub proof fn be_round_trip(n: nat, width: nat)
    requires
        n < pow256(width),
    ensures
        be_bytes(n, width).len() == width,
        be_value(be_bytes(n, width)) == n,
    decreases width,
{
    if width > 0 {
        be_round_trip(n / 256, (width - 1) as nat);
        assert(be_bytes(n, width).drop_last() =~= be_bytes(n / 256, (width - 1) as nat));
    }
}

/// Bytes are worth less than 256 to the power of how many there are.
pub proof fn be_value_bound(b: Seq<u8>)
    ensures
        be_value(b) < pow256(b.len()),
    decreases b.len(),
{
    if b.len() > 0 {
        be_value_bound(b.drop_last());
    }
}

/// The bytes of a reason that go on the wire: as many as there is room for.
pub open spec fn wire_reason(reason: Seq<char>) -> Seq<u8> {
    let b = encode_utf8(reason);
    if b.len() <= MAX_REASON_LEN {
        b
    } else {
        b.take(MAX_REASON_LEN as int)
    }
}

/// Everything of a datagram that its signature covers.
pub open spec fn message(p: PacketModel) -> Seq<u8> {
    MAGIC@ + seq![VERSION] + seq![p.packet_type.byte()] + be_bytes(p.timestamp as nat, 8) + p.nonce
        + p.sender_id + be_bytes(wire_reason(p.reason).len(), 2) + wire_reason(p.reason)
}

/// What a datagram holds, or why it holds nothing.
pub open spec fn read_packet(data: Seq<u8>) -> Result<PacketModel, Seq<char>> {
    let reason_len = be_value(data.subrange(62, 64)) as int;
    if data.len() < MIN_PACKET_SIZE {
        Err("packet too short"@)
    } else if data.subrange(0, 4) != MAGIC@ {
        Err("invalid magic"@)
    } else if data[4] != VERSION {
        Err("unknown version"@)
    } else if data[5] != 1 && data[5] != 2 {
        Err("unknown packet type"@)
    } else if reason_len > MAX_REASON_LEN {
        Err("reason too long"@)
    } else if data.len() < HEADER_SIZE + reason_len + SIGNATURE_SIZE {
        Err("packet truncated"@)
    } else if !valid_utf8(data.subrange(64, 64 + reason_len)) {
        Err("reason not valid UTF-8"@)
    } else {
        Ok(
            PacketModel {
                packet_type: if data[5] == 1 {
                    PacketType::Kill
                } else {
                    PacketType::Ack
                },
                timestamp: be_value(data.subrange(6, 14)) as u64,
                nonce: data.subrange(14, 30),
                sender_id: data.subrange(30, 62),
                reason: decode_utf8(data.subrange(64, 64 + reason_len)),
            },
        )
    }
}

/// Where the reason of a datagram ends.
pub open spec fn reason_end(data: Seq<u8>) -> int {
    64 + be_value(data.subrange(62, 64)) as int
}

fn push_be(out: &mut Vec<u8>, n: u64, width: u8)
    ensures
        final(out)@ == old(out)@ + be_bytes(n as nat, width as nat),
    decreases width,
{
    let ghost before = out@;
    if width == 0 {
        assert(out@ =~= before + be_bytes(n as nat, 0));
    } else {
        push_be(out, n / 256, width - 1);
        out.push((n % 256) as u8);
        assert(out@ =~= before + be_bytes(n as nat, width as nat));
    }
}

fn push_all(out: &mut Vec<u8>, b: &[u8])
    ensures
        final(out)@ == old(out)@ + b@,
{
    let ghost before = out@;
    let mut i: usize = 0;
    assert(out@ =~= before + b@.take(0));
    while i < b.len()
        invariant
            i <= b@.len(),
            out@ == before + b@.take(i as int),
        decreases b@.len() - i,
    {
        out.push(b[i]);
        assert(out@ =~= before + b@.take(i + 1));
        i += 1;
    }
    assert(b@.take(i as int) =~= b@);
}

/// Everything of a datagram that its signature covers.
pub fn message_bytes(
    packet_type: PacketType,
    timestamp: u64,
    nonce: &[u8; 16],
    sender_pubkey: &[u8; 32],
    reason: &str,
) -> (r: Vec<u8>)
    ensures
        r@ == message(
            PacketModel {
                packet_type,
                timestamp,
                nonce: nonce@,
                sender_id: sender_pubkey@,
                reason: reason@,
            },
        ),
        r@.len() <= HEADER_SIZE + MAX_REASON_LEN,
{
    let bytes = reason.as_bytes();
    let reason_len: usize = if bytes.len() <= MAX_REASON_LEN {
        bytes.len()
    } else {
        MAX_REASON_LEN
    };
    let cut = slice_subrange(bytes, 0, reason_len);
    assert(cut@ =~= wire_reason(reason@));
    let mut buf: Vec<u8> = Vec::new();
    let magic = MAGIC;
    push_all(&mut buf, &magic);
    assert(buf@ =~= MAGIC@);
    buf.push(VERSION);
    assert(buf@ =~= MAGIC@ + seq![VERSION]);
    buf.push(packet_type.to_byte());
    assert(buf@ =~= MAGIC@ + seq![VERSION] + seq![packet_type.byte()]);
    push_be(&mut buf, timestamp, 8);
    push_all(&mut buf, nonce);
    push_all(&mut buf, sender_pubkey);
    push_be(&mut buf, reason_len as u64, 2);
    push_all(&mut buf, cut);
    proof {
        be_len(timestamp as nat, 8);
        be_len(reason_len as nat, 2);
    }
    buf
}

/// A number takes as many bytes as it is given.
proof fn be_len(n: nat, width: nat)
    ensures
        be_bytes(n, width).len() == width,
    decreases width,
{
    if width > 0 {
        be_len(n / 256, (width - 1) as nat);
    }
}

/// Serialize a packet into bytes, sign it, and return the full datagram.
pub fn serialize<F: FnOnce(&[u8]) -> [u8; 64]>(
    packet_type: PacketType,
    timestamp: u64,
    nonce: &[u8; 16],
    sender_pubkey: &[u8; 32],
    reason: &str,
    sign_fn: F,
) -> (r: Vec<u8>)
    requires
        forall|m: &[u8]| sign_fn.requires((m,)),
    ensures
        exists|m: &[u8], signature: [u8; 64]|
            {
                &&& m@ == message(
                    PacketModel {
                        packet_type,
                        timestamp,
                        nonce: nonce@,
                        sender_id: sender_pubkey@,
                        reason: reason@,
                    },
                )
                &&& #[trigger] sign_fn.ensures((m,), signature)
                &&& r@ == m@ + signature@
            },
{
    let mut buf = message_bytes(packet_type, timestamp, nonce, sender_pubkey, reason);
    let ghost m = buf@;
    let signed = buf.as_slice();
    let signature = sign_fn(signed);
    push_all(&mut buf, &signature);
    buf
}

/// Sixteen bytes from a position.
fn bytes16(data: &[u8], from: usize) -> (r: [u8; 16])
    requires
        from + 16 <= data@.len(),
    ensures
        r@ == data@.subrange(from as int, from + 16),
{
    let n: usize = data.len();
    let mut out: [u8; 16] = [0u8; 16];
    let mut i: usize = 0;
    while i < 16
        invariant
            i <= 16,
            n == data@.len(),
            from + 16 <= n,
            forall|k: int| 0 <= k < i ==> out@[k] == data@[from + k],
        decreases 16 - i,
    {
        out[i] = data[from + i];
        i += 1;
    }
    assert(out@ =~= data@.subrange(from as int, from + 16));
    out
}

/// Thirty-two bytes from a position.
pub(crate) fn bytes32(data: &[u8], from: usize) -> (r: [u8; 32])
    requires
        from + 32 <= data@.len(),
    ensures
        r@ == data@.subrange(from as int, from + 32),
{
    let n: usize = data.len();
    let mut out: [u8; 32] = [0u8; 32];
    let mut i: usize = 0;
    while i < 32
        invariant
            i <= 32,
            n == data@.len(),
            from + 32 <= n,
            forall|k: int| 0 <= k < i ==> out@[k] == data@[from + k],
        decreases 32 - i,
    {
        out[i] = data[from + i];
        i += 1;
    }
    assert(out@ =~= data@.subrange(from as int, from + 32));
    out
}

/// Sixty-four bytes from a position.
fn bytes64(data: &[u8], from: usize) -> (r: [u8; 64])
    requires
        from + 64 <= data@.len(),
    ensures
        r@ == data@.subrange(from as int, from + 64),
{
    let n: usize = data.len();
    let mut out: [u8; 64] = [0u8; 64];
    let mut i: usize = 0;
    while i < 64
        invariant
            i <= 64,
            n == data@.len(),
            from + 64 <= n,
            forall|k: int| 0 <= k < i ==> out@[k] == data@[from + k],
        decreases 64 - i,
    {
        out[i] = data[from + i];
        i += 1;
    }
    assert(out@ =~= data@.subrange(from as int, from + 64));
    out
}

/// What bytes are worth, the highest first.
fn read_be(b: &[u8]) -> (r: u64)
    requires
        b@.len() <= 8,
    ensures
        r == be_value(b@),
{
    let mut acc: u64 = 0;
    let mut i: usize = 0;
    assert(b@.take(0) =~= Seq::<u8>::empty());
    while i < b.len()
        invariant
            i <= b@.len(),
            b@.len() <= 8,
            acc == be_value(b@.take(i as int)),
        decreases b@.len() - i,
    {
        proof {
            let next = b@.take(i + 1);
            assert(next.drop_last() =~= b@.take(i as int));
            be_value_bound(next);
            pow256_grows(next.len(), 8);
            assert(pow256(8) == 0x1_0000_0000_0000_0000) by {
                reveal_with_fuel(pow256, 9);
            }
        }
        acc = acc * 256 + b[i] as u64;
        i += 1;
    }
    assert(b@.take(i as int) =~= b@);
    acc
}

proof fn pow256_grows(a: nat, b: nat)
    requires
        a <= b,
    ensures
        pow256(a) <= pow256(b),
    decreases b,
{
    if a < b {
        pow256_grows(a, (b - 1) as nat);
    }
}

/// Deserialize a packet. Returns (packet, message_bytes_for_verification, signature).
/// Caller must verify the signature externally.
pub fn deserialize(data: &[u8]) -> (r: Result<(Packet, &[u8], [u8; 64]), &'static str>)
    ensures
        match r {
            Ok((packet, msg, sig)) => {
                &&& read_packet(data@) == Ok::<PacketModel, Seq<char>>(packet@)
                &&& msg@ == data@.subrange(0, reason_end(data@))
                &&& sig@ == data@.subrange(reason_end(data@), reason_end(data@) + 64)
            },
            Err(e) => read_packet(data@) == Err::<PacketModel, Seq<char>>(e@),
        },
{
    if data.len() < MIN_PACKET_SIZE {
        return Err("packet too short");
    }
    let magic = MAGIC;
    if !crate::relay::crypto::same_bytes(slice_subrange(data, 0, 4), &magic) {
        return Err("invalid magic");
    }
    if data[4] != VERSION {
        return Err("unknown version");
    }
    let packet_type = match PacketType::from_byte(data[5]) {
        Some(t) => t,
        None => {
            assert(PacketType::Kill.byte() != data@[5] && PacketType::Ack.byte() != data@[5]);
            return Err("unknown packet type");
        },
    };
    let timestamp = read_be(slice_subrange(data, 6, 14));
    let nonce = bytes16(data, 14);
    let sender_id = bytes32(data, 30);
    let reason_len = read_be(slice_subrange(data, 62, 64)) as usize;
    proof {
        be_value_bound(data@.subrange(62, 64));
        assert(pow256(2) == 65536) by {
            reveal_with_fuel(pow256, 3);
        }
    }
    if reason_len > MAX_REASON_LEN {
        return Err("reason too long");
    }
    if data.len() < HEADER_SIZE + reason_len + SIGNATURE_SIZE {
        return Err("packet truncated");
    }
    let end: usize = HEADER_SIZE + reason_len;
    let reason = match utf8(slice_subrange(data, HEADER_SIZE, end)) {
        Some(s) => s.to_owned(),
        None => {
            return Err("reason not valid UTF-8");
        },
    };
    let msg = slice_subrange(data, 0, end);
    let sig = bytes64(data, end);
    Ok((Packet { packet_type, timestamp, nonce, sender_id, reason }, msg, sig))
}

// ---- what holds of datagrams ---------------------------------------------

/// A packet is read back from the datagram it was written to, whatever the
/// signature, together with the bytes that were signed and the signature.
/// A reason has to fit: one that takes more than 256 bytes is cut off.
pub proof fn packets_round_trip(p: PacketModel, signature: Seq<u8>)
    requires
        p.nonce.len() == 16,
        p.sender_id.len() == 32,
        signature.len() == 64,
        encode_utf8(p.reason).len() <= MAX_REASON_LEN,
    ensures
        read_packet(message(p) + signature) == Ok::<PacketModel, Seq<char>>(p),
        (message(p) + signature).subrange(0, reason_end(message(p) + signature)) == message(p),
        (message(p) + signature).subrange(
            reason_end(message(p) + signature),
            reason_end(message(p) + signature) + 64,
        ) == signature,
{
    let b = encode_utf8(p.reason);
    let n = b.len() as int;
    let data = message(p) + signature;
    be_len(p.timestamp as nat, 8);
    be_len(b.len(), 2);
    assert(pow256(2) == 65536) by {
        reveal_with_fuel(pow256, 3);
    }
    assert(pow256(8) == 0x1_0000_0000_0000_0000) by {
        reveal_with_fuel(pow256, 9);
    }
    be_round_trip(p.timestamp as nat, 8);
    be_round_trip(b.len(), 2);
    assert(data.subrange(0, 4) =~= MAGIC@);
    assert(data[4] == VERSION);
    assert(data[5] == p.packet_type.byte());
    assert(data.subrange(6, 14) =~= be_bytes(p.timestamp as nat, 8));
    assert(data.subrange(14, 30) =~= p.nonce);
    assert(data.subrange(30, 62) =~= p.sender_id);
    assert(data.subrange(62, 64) =~= be_bytes(b.len(), 2));
    assert(data.subrange(64, 64 + n) =~= b);
    encode_utf8_valid_utf8(p.reason);
    encode_utf8_decode_utf8(p.reason);
    assert(data.subrange(0, 64 + n) =~= message(p));
    assert(data.subrange(64 + n, 64 + n + 64) =~= signature);
}

/// A datagram never takes more than the largest size.
pub proof fn datagrams_fit(p: PacketModel, signature: Seq<u8>)
    requires
        p.nonce.len() == 16,
        p.sender_id.len() == 32,
        signature.len() == 64,
    ensures
        MIN_PACKET_SIZE <= (message(p) + signature).len() <= MAX_PACKET_SIZE,
{
    be_len(p.timestamp as nat, 8);
    be_len(wire_reason(p.reason).len(), 2);
}

/// What is read out of a datagram stands in the bytes that its signature
/// covers: two datagrams with the same signed bytes say the same.
pub proof fn the_signature_covers_everything(a: Seq<u8>, b: Seq<u8>)
    requires
        read_packet(a) is Ok,
        read_packet(b) is Ok,
        a.subrange(0, reason_end(a)) == b.subrange(0, reason_end(b)),
    ensures
        read_packet(a) == read_packet(b),
{
    let x = a.subrange(0, reason_end(a));
    let y = b.subrange(0, reason_end(b));
    assert(a.subrange(62, 64) =~= x.subrange(62, 64));
    assert(b.subrange(62, 64) =~= y.subrange(62, 64));
    assert(a.subrange(6, 14) =~= x.subrange(6, 14));
    assert(b.subrange(6, 14) =~= y.subrange(6, 14));
    assert(a.subrange(14, 30) =~= x.subrange(14, 30));
    assert(b.subrange(14, 30) =~= y.subrange(14, 30));
    assert(a.subrange(30, 62) =~= x.subrange(30, 62));
    assert(b.subrange(30, 62) =~= y.subrange(30, 62));
    let n = be_value(a.subrange(62, 64));
    assert(a.subrange(64, (64 + n) as int) =~= x.subrange(64, (64 + n) as int));
    assert(b.subrange(64, (64 + n) as int) =~= y.subrange(64, (64 + n) as int));
    assert(a[5] == x[5]);
    assert(b[5] == y[5]);
}

proof fn two_bytes(data: Seq<u8>, at: int)
    requires
        0 <= at,
        at + 2 <= data.len(),
    ensures
        be_value(data.subrange(at, at + 2)) == data[at] * 256 + data[at + 1],
{
    let s = data.subrange(at, at + 2);
    assert(s.drop_last() =~= data.subrange(at, at + 1));
    assert(s.drop_last().drop_last() =~= Seq::<u8>::empty());
    reveal_with_fuel(be_value, 3);
}

proof fn eight_bytes(data: Seq<u8>, at: int)
    requires
        0 <= at,
        at + 8 <= data.len(),
    ensures
        be_value(data.subrange(at, at + 8)) == data[at] * 0x100_0000_0000_0000 + data[at + 1]
            * 0x1_0000_0000_0000 + data[at + 2] * 0x100_0000_0000 + data[at + 3] * 0x1_0000_0000
            + data[at + 4] * 0x100_0000 + data[at + 5] * 0x1_0000 + data[at + 6] * 0x100 + data[at
            + 7],
{
    let s8 = data.subrange(at, at + 8);
    let s7 = data.subrange(at, at + 7);
    let s6 = data.subrange(at, at + 6);
    let s5 = data.subrange(at, at + 5);
    let s4 = data.subrange(at, at + 4);
    let s3 = data.subrange(at, at + 3);
    let s2 = data.subrange(at, at + 2);
    assert(s8.drop_last() =~= s7);
    assert(s7.drop_last() =~= s6);
    assert(s6.drop_last() =~= s5);
    assert(s5.drop_last() =~= s4);
    assert(s4.drop_last() =~= s3);
    assert(s3.drop_last() =~= s2);
    two_bytes(data, at);
    assert(be_value(s3) == be_value(s2) * 256 + data[at + 2]);
    assert(be_value(s4) == be_value(s3) * 256 + data[at + 3]);
    assert(be_value(s5) == be_value(s4) * 256 + data[at + 4]);
    assert(be_value(s6) == be_value(s5) * 256 + data[at + 5]);
    assert(be_value(s7) == be_value(s6) * 256 + data[at + 6]);
    assert(be_value(s8) == be_value(s7) * 256 + data[at + 7]);
}

/// The time that eight bytes of a datagram say, the highest first.
pub open spec fn time_in(data: Seq<u8>) -> int {
    data[6] * 0x100_0000_0000_0000 + data[7] * 0x1_0000_0000_0000 + data[8] * 0x100_0000_0000
        + data[9] * 0x1_0000_0000 + data[10] * 0x100_0000 + data[11] * 0x1_0000 + data[12] * 0x100
        + data[13]
}

/// How a datagram is laid out, byte by byte: `PKRL`, version 1, the type (1 a KILL, 2
/// an ACK), the time in eight bytes and the length of the reason in two, the highest
/// first, the nonce, the sender and the reason. Whatever is laid out so is read, and
/// nothing else.
pub proof fn a_datagram_is_laid_out_so(data: Seq<u8>)
    ensures
        read_packet(data) is Ok <==> {
            let n = data[62] * 256 + data[63];
            &&& data.len() >= 128
            &&& data[0] == 0x50 && data[1] == 0x4B && data[2] == 0x52 && data[3] == 0x4C
            &&& data[4] == 1
            &&& data[5] == 1 || data[5] == 2
            &&& n <= 256
            &&& data.len() >= 128 + n
            &&& valid_utf8(data.subrange(64, 64 + n))
        },
        read_packet(data) matches Ok(p) ==> {
            &&& p.packet_type is Kill <==> data[5] == 1
            &&& p.timestamp == time_in(data)
            &&& p.nonce == data.subrange(14, 30)
            &&& p.sender_id == data.subrange(30, 62)
            &&& p.reason == decode_utf8(data.subrange(64, 64 + data[62] * 256 + data[63]))
            &&& reason_end(data) == 64 + data[62] * 256 + data[63]
        },
{
    if data.len() >= 128 {
        two_bytes(data, 62);
        eight_bytes(data, 6);
        be_value_bound(data.subrange(6, 14));
        assert(pow256(8) == 0x1_0000_0000_0000_0000) by {
            reveal_with_fuel(pow256, 9);
        }
        let head = data.subrange(0, 4);
        if head == MAGIC@ {
            assert(data[0] == head[0] && data[1] == head[1]);
            assert(data[2] == head[2] && data[3] == head[3]);
        }
        if data[0] == 0x50 && data[1] == 0x4B && data[2] == 0x52 && data[3] == 0x4C {
            assert(head =~= MAGIC@);
        }
    }
}

/// What is signed and sent of a packet, byte by byte. Of a reason that is too long its
/// first 256 bytes go out.
pub proof fn a_packet_is_sent_so(p: PacketModel)
    requires
        p.nonce.len() == 16,
        p.sender_id.len() == 32,
    ensures
        ({
            let m = message(p);
            let b = encode_utf8(p.reason);
            &&& m.len() == 64 + (if b.len() <= 256 {
                b.len() as int
            } else {
                256
            })
            &&& m[0] == 0x50 && m[1] == 0x4B && m[2] == 0x52 && m[3] == 0x4C
            &&& m[4] == 1
            &&& m[5] == if p.packet_type is Kill {
                1u8
            } else {
                2u8
            }
            &&& time_in(m) == p.timestamp
            &&& m.subrange(14, 30) == p.nonce
            &&& m.subrange(30, 62) == p.sender_id
            &&& m[62] * 256 + m[63] == m.len() - 64
            &&& m.subrange(64, m.len() as int) == b.take(m.len() - 64)
        }),
{
    let m = message(p);
    let b = encode_utf8(p.reason);
    let w = wire_reason(p.reason);
    be_len(p.timestamp as nat, 8);
    be_len(w.len(), 2);
    assert(pow256(2) == 65536) by {
        reveal_with_fuel(pow256, 3);
    }
    assert(pow256(8) == 0x1_0000_0000_0000_0000) by {
        reveal_with_fuel(pow256, 9);
    }
    be_round_trip(p.timestamp as nat, 8);
    be_round_trip(w.len(), 2);
    assert(m.subrange(6, 14) =~= be_bytes(p.timestamp as nat, 8));
    assert(m.subrange(62, 64) =~= be_bytes(w.len(), 2));
    two_bytes(m, 62);
    eight_bytes(m, 6);
    assert(m.subrange(14, 30) =~= p.nonce);
    assert(m.subrange(30, 62) =~= p.sender_id);
    assert(m.subrange(64, m.len() as int) =~= w);
    assert(w =~= b.take(m.len() - 64));
}

} // verus!
