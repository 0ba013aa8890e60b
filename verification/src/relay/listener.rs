//! What to do about a datagram that arrived.
//!
//! The caller owns the socket and the clock; `Listener` decides.

use vstd::prelude::*;

use crate::relay::config::PeerConfig;
use crate::relay::crypto::{base64_read, ed25519_accepts, random_nonce, remember, verify, NonceCache};
use crate::relay::protocol::{
    deserialize, message, packets_round_trip, read_packet, PacketModel, PacketType,
};
use crate::relay::sender::{authentic, find_peer, peer_with, signed, signed_packet};
use crate::text::cat2;

verus! {

/// How many seconds a datagram's time may be off.
pub const TIMESTAMP_WINDOW_SECS: u64 = 5;

/// Why a datagram was dropped.
#[derive(Debug, Clone, PartialEq, Eq)]
pub enum Dropped {
    /// It is no packet.
    Unreadable,
    /// No peer has the key it names.
    UnknownSender,
    /// It is not signed with the key it names. Holds the peer's name.
    BadSignature(String),
    /// Its time is too far off. Holds the peer's name and by how much.
    Stale(String, u64),
    /// Its nonce was seen before.
    Replayed,
}

/// What to do about a datagram.
#[derive(Debug, Clone, PartialEq, Eq)]
pub enum Reaction {
    /// Nothing.
    Drop(Dropped),
    /// An answer: nothing waits for it here.
    Ignore,
    /// A KILL: answer it, and pass it on and kill where it says so.
    Kill(Kill),
}

/// A KILL that was accepted.
#[derive(Debug, Clone, PartialEq, Eq)]
pub struct Kill {
    /// Who sent it.
    pub peer: String,
    /// The nonce that the answer has to name.
    pub nonce: [u8; 16],
    /// The sender's key, which is left out when the KILL is passed on.
    pub sender: [u8; 32],
    /// Why.
    pub reason: String,
    /// What the KILL is passed on with.
    pub relay_reason: String,
    /// Whether to pass it on and kill. A dry run only answers.
    pub act: bool,
}

/// How far apart two times are.
pub open spec fn apart(a: u64, b: u64) -> u64 {
    if a > b {
        (a - b) as u64
    } else {
        (b - a) as u64
    }
}

/// Whether a datagram gets past everything but the replay check: it is a
/// packet, from a known peer, signed by it, and recent.
pub open spec fn trusted(data: Seq<u8>, peers: Seq<PeerConfig>, now: u64) -> bool {
    read_packet(data) matches Ok(p) && {
        &&& peer_with(peers, p.sender_id, 0) is Some
        &&& authentic(data)
        &&& apart(now, p.timestamp) <= TIMESTAMP_WINDOW_SECS
    }
}

/// The nonces remembered after a datagram: only one that is trusted leaves its
/// nonce behind.
pub open spec fn remembered(
    data: Seq<u8>,
    peers: Seq<PeerConfig>,
    now: u64,
    seen: Seq<Seq<u8>>,
) -> Seq<Seq<u8>> {
    if trusted(data, peers, now) {
        remember(seen, read_packet(data)->Ok_0.nonce)
    } else {
        seen
    }
}

/// Whether a reaction is the right one.
pub open spec fn reacts(
    r: Reaction,
    data: Seq<u8>,
    peers: Seq<PeerConfig>,
    now: u64,
    seen: Seq<Seq<u8>>,
    dry_run: bool,
) -> bool {
    match read_packet(data) {
        Err(_) => r == Reaction::Drop(Dropped::Unreadable),
        Ok(p) => match peer_with(peers, p.sender_id, 0) {
            None => r == Reaction::Drop(Dropped::UnknownSender),
            Some(peer) => if !authentic(data) {
                r == Reaction::Drop(Dropped::BadSignature(peer.name))
            } else if apart(now, p.timestamp) > TIMESTAMP_WINDOW_SECS {
                r == Reaction::Drop(Dropped::Stale(peer.name, apart(now, p.timestamp)))
            } else if seen.contains(p.nonce) {
                r == Reaction::Drop(Dropped::Replayed)
            } else {
                match p.packet_type {
                    PacketType::Ack => r == Reaction::Ignore,
                    PacketType::Kill => r matches Reaction::Kill(k) && {
                        &&& k.peer == peer.name
                        &&& k.nonce@ == p.nonce
                        &&& k.sender@ == p.sender_id
                        &&& k.reason@ == p.reason
                        &&& k.relay_reason@ == "relay:"@ + p.reason
                        &&& k.act == !dry_run
                    },
                }
            },
        },
    }
}

/// The relay's memory of what it has heard.
#[derive(Debug)]
pub struct Listener {
    cache: NonceCache,
}

impl Listener {
    /// The nonces it remembers.
    pub closed spec fn seen(&self) -> Seq<Seq<u8>> {
        self.cache@
    }

    /// Whether its memory is in order.
    pub closed spec fn wf(&self) -> bool {
        self.cache.wf()
    }

    /// A listener that has heard nothing.
    pub fn new() -> (r: Listener)
        ensures
            r.seen().len() == 0,
            r.wf(),
    {
        Listener { cache: NonceCache::new() }
    }

    /// Decide about a datagram that arrived at `now`. In a dry run a KILL is checked and
    /// answered, but neither passed on nor acted on.
    pub fn hear(
        &mut self,
        data: &[u8],
        peers: &[PeerConfig],
        now: u64,
        dry_run: bool,
    ) -> (r: Reaction)
        requires
            old(self).wf(),
        ensures
            reacts(r, data@, peers@, now, old(self).seen(), dry_run),
            final(self).seen() == remembered(data@, peers@, now, old(self).seen()),
            final(self).wf(),
    {
        let (packet, msg, sig) = match deserialize(data) {
            Ok(parts) => parts,
            Err(_) => {
                return Reaction::Drop(Dropped::Unreadable);
            },
        };
        let peer = match find_peer(peers, &packet.sender_id) {
            Some(p) => p,
            None => {
                return Reaction::Drop(Dropped::UnknownSender);
            },
        };
        if !verify(&packet.sender_id, msg, &sig) {
            return Reaction::Drop(Dropped::BadSignature(peer.name.clone()));
        }
        let diff: u64 = if now > packet.timestamp {
            now - packet.timestamp
        } else {
            packet.timestamp - now
        };
        if diff > TIMESTAMP_WINDOW_SECS {
            return Reaction::Drop(Dropped::Stale(peer.name.clone(), diff));
        }
        if self.cache.check_and_insert(&packet.nonce) {
            return Reaction::Drop(Dropped::Replayed);
        }
        match packet.packet_type {
            PacketType::Ack => Reaction::Ignore,
            PacketType::Kill => {
                let relay_reason = cat2("relay:", packet.reason.as_str());
                Reaction::Kill(
                    Kill {
                        peer: peer.name.clone(),
                        nonce: packet.nonce,
                        sender: packet.sender_id,
                        reason: packet.reason,
                        relay_reason,
                        act: !dry_run,
                    },
                )
            },
        }
    }
}

/// The packet that answers a KILL: it names the KILL by its nonce, in hex.
pub open spec fn answered(
    kill_nonce: Seq<u8>,
    timestamp: u64,
    ack_nonce: Seq<u8>,
    our_pubkey: Seq<u8>,
    private_key: Seq<u8>,
) -> Seq<u8> {
    signed(
        PacketModel {
            packet_type: PacketType::Ack,
            timestamp,
            nonce: ack_nonce,
            sender_id: our_pubkey,
            reason: crate::relay::crypto::hex_text(kill_nonce),
        },
        private_key,
    )
}

/// The answer to a KILL: an ACK that names its nonce. `ack_nonce` is the
/// answer's own.
pub fn ack_packet(
    kill_nonce: &[u8; 16],
    timestamp: u64,
    ack_nonce: &[u8; 16],
    our_pubkey: &[u8; 32],
    private_key: &[u8; 32],
) -> (r: Vec<u8>)
    ensures
        r@ == answered(kill_nonce@, timestamp, ack_nonce@, our_pubkey@, private_key@),
{
    let reason = crate::relay::crypto::hex_encode(kill_nonce);
    signed_packet(
        PacketType::Ack,
        timestamp,
        ack_nonce,
        our_pubkey,
        reason.as_str(),
        private_key,
    )
}

/// The answer to a KILL, under a nonce of its own.
pub fn answer(
    kill_nonce: &[u8; 16],
    timestamp: u64,
    our_pubkey: &[u8; 32],
    private_key: &[u8; 32],
) -> (r: Vec<u8>)
    ensures
        exists|ack_nonce: Seq<u8>|
            ack_nonce.len() == 16 && #[trigger] answered(
                kill_nonce@,
                timestamp,
                ack_nonce,
                our_pubkey@,
                private_key@,
            ) == r@,
{
    let ack_nonce = random_nonce();
    let r = ack_packet(kill_nonce, timestamp, &ack_nonce, our_pubkey, private_key);
    assert(answered(kill_nonce@, timestamp, ack_nonce@, our_pubkey@, private_key@) == r@);
    r
}

// ---- what holds of a listener --------------------------------------------

/// Only an authentic, recent datagram of a known peer, with a nonce not seen
/// before, makes a machine kill.
pub proof fn only_a_trusted_kill_kills(
    r: Reaction,
    data: Seq<u8>,
    peers: Seq<PeerConfig>,
    now: u64,
    seen: Seq<Seq<u8>>,
    dry_run: bool,
)
    requires
        reacts(r, data, peers, now, seen, dry_run),
    ensures
        r matches Reaction::Kill(k) ==> k.act == !dry_run,
        r is Kill <==> trusted(data, peers, now) && !seen.contains(read_packet(data)->Ok_0.nonce)
            && read_packet(data)->Ok_0.packet_type == PacketType::Kill,
{
}

/// The same datagram does not kill twice: after it was heard it is a replay.
pub proof fn a_kill_is_heard_once(
    first: Reaction,
    again: Reaction,
    data: Seq<u8>,
    peers: Seq<PeerConfig>,
    now: u64,
    later: u64,
    seen: Seq<Seq<u8>>,
    dry_run: bool,
)
    requires
        seen.len() <= crate::relay::crypto::NONCE_CACHE_SIZE,
        seen.no_duplicates(),
        reacts(first, data, peers, now, seen, dry_run),
        first is Kill,
        reacts(again, data, peers, later, remembered(data, peers, now, seen), dry_run),
    ensures
        !(again is Kill),
        apart(later, read_packet(data)->Ok_0.timestamp) <= TIMESTAMP_WINDOW_SECS ==> again
            == Reaction::Drop(Dropped::Replayed),
{
    crate::relay::crypto::a_replay_is_recognised(seen, read_packet(data)->Ok_0.nonce);
}

/// A datagram that is not trusted leaves no trace: a forger cannot fill the
/// memory of nonces.
pub proof fn strangers_leave_no_trace(
    data: Seq<u8>,
    peers: Seq<PeerConfig>,
    now: u64,
    seen: Seq<Seq<u8>>,
)
    requires
        !trusted(data, peers, now),
    ensures
        remembered(data, peers, now, seen) == seen,
{
}

/// A KILL that a peer signed reaches its machines: heard within the window for
/// the first time, it kills, for the reason that was sent.
pub proof fn an_honest_kill_is_heard(
    r: Reaction,
    peers: Seq<PeerConfig>,
    p: PacketModel,
    signature: Seq<u8>,
    now: u64,
    seen: Seq<Seq<u8>>,
    dry_run: bool,
)
    requires
        p.packet_type == PacketType::Kill,
        p.nonce.len() == 16,
        p.sender_id.len() == 32,
        signature.len() == 64,
        vstd::utf8::encode_utf8(p.reason).len() <= crate::relay::protocol::MAX_REASON_LEN,
        ed25519_accepts(p.sender_id, message(p), signature),
        peer_with(peers, p.sender_id, 0) is Some,
        apart(now, p.timestamp) <= TIMESTAMP_WINDOW_SECS,
        !seen.contains(p.nonce),
        reacts(r, message(p) + signature, peers, now, seen, dry_run),
    ensures
        r matches Reaction::Kill(k) && k.reason@ == p.reason && k.nonce@ == p.nonce && k.act
            == !dry_run,
{
    packets_round_trip(p, signature);
}

/// Whether a peer's key, in base64, is this one.
spec fn holds_key(p: PeerConfig, key: Seq<u8>) -> bool {
    base64_read(p.pubkey@) == Ok::<Seq<u8>, Seq<char>>(key)
}

/// A datagram kills exactly where all of this holds: it is a packet of type KILL,
/// some peer has the key it names, its signature covers all before it, its time is
/// at most five seconds off either way, and its nonce is new. The answer to it names
/// its nonce, and what is passed on is its reason behind `relay:`.
pub proof fn a_kill_is_accepted_exactly_when(
    r: Reaction,
    data: Seq<u8>,
    peers: Seq<PeerConfig>,
    now: u64,
    seen: Seq<Seq<u8>>,
    dry_run: bool,
    p: PacketModel,
)
    requires
        reacts(r, data, peers, now, seen, dry_run),
        read_packet(data) == Ok::<PacketModel, Seq<char>>(p),
    ensures
        r is Kill <==> {
            let end = 64 + data[62] * 256 + data[63];
            &&& p.packet_type is Kill
            &&& exists|i: int|
                0 <= i < peers.len() && base64_read((#[trigger] peers[i]).pubkey@) == Ok::<
                    Seq<u8>,
                    Seq<char>,
                >(p.sender_id)
            &&& ed25519_accepts(
                p.sender_id,
                data.subrange(0, end),
                data.subrange(end, end + 64),
            )
            &&& p.timestamp <= now + 5
            &&& now <= p.timestamp + 5
            &&& !seen.contains(p.nonce)
        },
        r matches Reaction::Kill(k) ==> {
            &&& k.reason@ == p.reason
            &&& k.nonce@ == p.nonce
            &&& k.sender@ == p.sender_id
            &&& k.relay_reason@ == "relay:"@ + p.reason
            &&& k.act == !dry_run
            &&& exists|i: int|
                0 <= i < peers.len() && (#[trigger] peers[i]).name == k.peer && base64_read(
                    peers[i].pubkey@,
                ) == Ok::<Seq<u8>, Seq<char>>(p.sender_id)
        },
{
    crate::relay::protocol::a_datagram_is_laid_out_so(data);
    key_is_found(peers, p.sender_id, 0);
    assert(p.sender_id.len() == 32);
    if peer_with(peers, p.sender_id, 0) is Some {
        let i = key_is_at(peers, p.sender_id, 0);
        assert(holds_key(peers[i], p.sender_id));
    }
}

/// A datagram that is no packet never kills.
pub proof fn what_is_no_packet_is_dropped(
    r: Reaction,
    data: Seq<u8>,
    peers: Seq<PeerConfig>,
    now: u64,
    seen: Seq<Seq<u8>>,
    dry_run: bool,
)
    requires
        reacts(r, data, peers, now, seen, dry_run),
    ensures
        read_packet(data) is Err <==> r == Reaction::Drop(Dropped::Unreadable),
        r matches Reaction::Drop(Dropped::Stale(_, off)) ==> {
            let sent = read_packet(data)->Ok_0.timestamp;
            &&& off > 5
            &&& now == sent + off || sent == now + off
        },
        r is Drop && r->Drop_0 is Replayed ==> seen.contains(read_packet(data)->Ok_0.nonce),
        r is Ignore ==> read_packet(data)->Ok_0.packet_type is Ack,
{
}

/// The time of a datagram that is otherwise in order decides by how far it is off,
/// whichever clock is ahead: up to five seconds it counts, beyond that it is stale.
pub proof fn the_window_is_the_same_either_way(
    r: Reaction,
    data: Seq<u8>,
    peers: Seq<PeerConfig>,
    now: u64,
    seen: Seq<Seq<u8>>,
    dry_run: bool,
)
    requires
        reacts(r, data, peers, now, seen, dry_run),
        r is Kill || r is Ignore || (r is Drop && (r->Drop_0 is Stale || r->Drop_0 is Replayed)),
    ensures
        ({
            let sent = read_packet(data)->Ok_0.timestamp;
            r is Drop && r->Drop_0 is Stale <==> !(sent <= now + 5 && now <= sent + 5)
        }),
{
}

/// What is remembered: the nonce of a datagram that was let in or is a replay, with
/// every nonce known before, but for the oldest where a thousand are known.
pub proof fn what_was_let_in_is_remembered(
    r: Reaction,
    data: Seq<u8>,
    peers: Seq<PeerConfig>,
    now: u64,
    seen: Seq<Seq<u8>>,
    dry_run: bool,
)
    requires
        reacts(r, data, peers, now, seen, dry_run),
    ensures
        ({
            let after = remembered(data, peers, now, seen);
            let nonce = read_packet(data)->Ok_0.nonce;
            if r is Kill || r is Ignore {
                &&& after.last() == nonce
                &&& seen.len() < 1000 ==> after.drop_last() == seen
                &&& seen.len() >= 1000 ==> after.drop_last() == seen.skip(1)
            } else {
                after == seen
            }
        }),
{
    let after = remembered(data, peers, now, seen);
    if r is Kill || r is Ignore {
        if seen.len() < 1000 {
            assert(after.drop_last() =~= seen);
        } else {
            assert(after.drop_last() =~= seen.skip(1));
        }
    }
}

/// A peer with the key is found.
proof fn key_is_found(peers: Seq<PeerConfig>, key: Seq<u8>, i: int)
    requires
        0 <= i,
    ensures
        key.len() == 32 && (exists|k: int|
            i <= k < peers.len() && base64_read((#[trigger] peers[k]).pubkey@) == Ok::<
                Seq<u8>,
                Seq<char>,
            >(key)) ==> peer_with(peers, key, i) is Some,
    decreases peers.len() - i,
{
    if i < peers.len() {
        key_is_found(peers, key, i + 1);
    }
}

/// Where the peer with the key stands.
proof fn key_is_at(peers: Seq<PeerConfig>, key: Seq<u8>, i: int) -> (at: int)
    requires
        0 <= i,
        peer_with(peers, key, i) is Some,
    ensures
        i <= at < peers.len(),
        peers[at] == peer_with(peers, key, i)->0,
        holds_key(peers[at], key),
    decreases peers.len() - i,
{
    if crate::relay::config::has_key(peers[i], key) {
        i
    } else {
        key_is_at(peers, key, i + 1)
    }
}

/// What is said of a datagram that is dropped: that no peer has the key it names, that
/// the signature is not that key's, that its time is more than five seconds off and by
/// how much, or that its nonce was seen; the first of these that holds is the one. An
/// ACK that none of them stops is ignored.
pub proof fn a_drop_says_why(
    r: Reaction,
    data: Seq<u8>,
    peers: Seq<PeerConfig>,
    now: u64,
    seen: Seq<Seq<u8>>,
    dry_run: bool,
    p: PacketModel,
)
    requires
        reacts(r, data, peers, now, seen, dry_run),
        read_packet(data) == Ok::<PacketModel, Seq<char>>(p),
    ensures
        ({
            let end = 64 + data[62] * 256 + data[63];
            let known = exists|i: int|
                0 <= i < peers.len() && base64_read((#[trigger] peers[i]).pubkey@) == Ok::<
                    Seq<u8>,
                    Seq<char>,
                >(p.sender_id);
            let signed = ed25519_accepts(
                p.sender_id,
                data.subrange(0, end),
                data.subrange(end, end + 64),
            );
            let timely = p.timestamp <= now + 5 && now <= p.timestamp + 5;
            &&& !known <==> r == Reaction::Drop(Dropped::UnknownSender)
            &&& known && !signed <==> (r matches Reaction::Drop(Dropped::BadSignature(_)))
            &&& known && signed && !timely <==> (r matches Reaction::Drop(Dropped::Stale(_, _)))
            &&& r matches Reaction::Drop(Dropped::Stale(_, d)) ==> now == p.timestamp + d
                || p.timestamp == now + d
            &&& known && signed && timely && seen.contains(p.nonce) <==> r == Reaction::Drop(
                Dropped::Replayed,
            )
            &&& known && signed && timely && !seen.contains(p.nonce) && p.packet_type is Ack <==> r
                == Reaction::Ignore
            &&& r != Reaction::Drop(Dropped::Unreadable)
        }),
{
    crate::relay::protocol::a_datagram_is_laid_out_so(data);
    key_is_found(peers, p.sender_id, 0);
    assert(p.sender_id.len() == 32);
    if peer_with(peers, p.sender_id, 0) is Some {
        let i = key_is_at(peers, p.sender_id, 0);
        assert(holds_key(peers[i], p.sender_id));
    }
}

} // verus!
