//! Sending a KILL to every peer, and waiting for the answers.
//!
//! `FanOut` decides who is sent to, which answers count and when to try again.
//! The caller owns the socket: it sends, waits, and hands in what arrives.

use vstd::prelude::*;
use vstd::utf8::encode_utf8;

use crate::relay::config::{has_key, Config, PeerConfig};
use crate::relay::crypto::{
    base64_read, ed25519_accepts, ed25519_signature, hex_encode, hex_text, random_nonce, same_bytes, sign,
    verify,
};
use crate::relay::protocol::{
    deserialize, message, read_packet, reason_end, serialize, PacketModel, PacketType,
    Signature,
};
use crate::text::{listed, same, views};

verus! {

/// Which peers ACKed and which timed out.
#[derive(Debug, PartialEq, Eq)]
pub struct FanOutResult {
    pub acked: Vec<String>,
    pub timed_out: Vec<String>,
}

/// The datagram that a machine sends: the packet, signed with its key.
pub open spec fn signed(p: PacketModel, private_key: Seq<u8>) -> Seq<u8> {
    message(p) + ed25519_signature(private_key, message(p))
}

/// A signed datagram.
pub fn signed_packet(
    packet_type: PacketType,
    timestamp: u64,
    nonce: &[u8; 16],
    our_pubkey: &[u8; 32],
    reason: &str,
    private_key: &[u8; 32],
) -> (r: Vec<u8>)
    ensures
        r@ == signed(
            PacketModel {
                packet_type,
                timestamp,
                nonce: nonce@,
                sender_id: our_pubkey@,
                reason: reason@,
            },
            private_key@,
        ),
{
    let key = private_key;
    let with_key = |msg: &[u8]| -> (s: Signature)
        ensures
            s@ == ed25519_signature(key@, msg@),
    {
        sign(key, msg)
    };
    serialize(packet_type, timestamp, nonce, our_pubkey, reason, with_key)
}

/// A new KILL: its nonce, by which answers name it, and the signed packet. Nothing is
/// known of the nonce; whatever it is, the packet carries it.
pub fn kill_packet(
    timestamp: u64,
    our_pubkey: &[u8; 32],
    reason: &str,
    private_key: &[u8; 32],
) -> (r: ([u8; 16], Vec<u8>))
    ensures
        r.1@ == signed(
            PacketModel {
                packet_type: PacketType::Kill,
                timestamp,
                nonce: r.0@,
                sender_id: our_pubkey@,
                reason: reason@,
            },
            private_key@,
        ),
{
    let nonce = random_nonce();
    let packet = signed_packet(
        PacketType::Kill,
        timestamp,
        &nonce,
        our_pubkey,
        reason,
        private_key,
    );
    (nonce, packet)
}

/// The first peer, at or after position `i`, with this public key.
pub open spec fn peer_with(peers: Seq<PeerConfig>, key: Seq<u8>, i: int) -> Option<PeerConfig>
    decreases peers.len() - i,
{
    if i >= peers.len() || i < 0 {
        None
    } else if has_key(peers[i], key) {
        Some(peers[i])
    } else {
        peer_with(peers, key, i + 1)
    }
}

/// Whether a peer has this public key.
fn is_key_of(p: &PeerConfig, key: &[u8; 32]) -> (r: bool)
    ensures
        r == has_key(*p, key@),
{
    match p.decode_pubkey() {
        Ok(k) => same_bytes(&k, key),
        Err(_) => false,
    }
}

/// The first peer with this public key.
pub fn find_peer<'a>(peers: &'a [PeerConfig], key: &[u8; 32]) -> (r: Option<&'a PeerConfig>)
    ensures
        match r {
            Some(p) => peer_with(peers@, key@, 0) == Some(*p),
            None => peer_with(peers@, key@, 0) is None,
        },
{
    let mut i: usize = 0;
    while i < peers.len()
        invariant
            i <= peers@.len(),
            peer_with(peers@, key@, 0) == peer_with(peers@, key@, i as int),
        decreases peers@.len() - i,
    {
        if is_key_of(&peers[i], key) {
            return Some(&peers[i]);
        }
        i += 1;
    }
    None
}

/// Whether the signature of a datagram is accepted under its sender's key.
pub open spec fn authentic(data: Seq<u8>) -> bool {
    read_packet(data) matches Ok(p) && ed25519_accepts(
        p.sender_id,
        data.subrange(0, reason_end(data)),
        data.subrange(reason_end(data), reason_end(data) + 64),
    )
}

/// The peer whose answer to our nonce a datagram is: an authentic ACK from a
/// known peer that names the nonce.
pub open spec fn acked_by(
    data: Seq<u8>,
    nonce: Seq<u8>,
    peers: Seq<PeerConfig>,
) -> Option<PeerConfig> {
    match read_packet(data) {
        Ok(p) => if p.packet_type == PacketType::Ack && authentic(data) && p.reason == hex_text(
            nonce,
        ) {
            peer_with(peers, p.sender_id, 0)
        } else {
            None
        },
        Err(_) => None,
    }
}

/// Check if a received packet is a valid ACK for our nonce. Returns peer name if valid.
pub fn check_ack(data: &[u8], expected_nonce: &[u8; 16], peers: &[PeerConfig]) -> (r: Option<
    String,
>)
    ensures
        match r {
            Some(name) => acked_by(data@, expected_nonce@, peers@) matches Some(p) && name
                == p.name,
            None => acked_by(data@, expected_nonce@, peers@) is None,
        },
{
    let (packet, msg, sig) = match deserialize(data) {
        Ok(parts) => parts,
        Err(_) => {
            return None;
        },
    };
    if packet.packet_type != PacketType::Ack {
        return None;
    }
    let peer = match find_peer(peers, &packet.sender_id) {
        Some(p) => p,
        None => {
            return None;
        },
    };
    if !verify(&packet.sender_id, msg, &sig) {
        return None;
    }
    let expected = hex_encode(expected_nonce);
    if !same(packet.reason.as_str(), expected.as_str()) {
        return None;
    }
    Some(peer.name.clone())
}

// ---- who is sent to ------------------------------------------------------

/// Whether a peer is sent to: it has an address, and is not the one that is
/// left out.
pub open spec fn reached(p: PeerConfig, exclude: Option<Seq<u8>>) -> bool {
    p.addresses@.len() > 0 && !(exclude matches Some(key) && has_key(p, key))
}

/// Where a peer of this name stands in a list of positions, or its length.
pub open spec fn slot_of(peers: Seq<PeerConfig>, slots: Seq<usize>, name: Seq<char>, i: int) -> int
    decreases slots.len() - i,
{
    if i >= slots.len() || i < 0 {
        slots.len() as int
    } else if peers[slots[i] as int].name@ == name {
        i
    } else {
        slot_of(peers, slots, name, i + 1)
    }
}

/// The positions of the first `n` peers that are sent to. Of two with one name
/// the later takes the place of the earlier.
pub open spec fn targets(peers: Seq<PeerConfig>, exclude: Option<Seq<u8>>, n: int) -> Seq<usize>
    decreases n,
{
    if n <= 0 {
        Seq::empty()
    } else {
        let front = targets(peers, exclude, n - 1);
        let p = peers[n - 1];
        let at = slot_of(peers, front, p.name@, 0);
        if !reached(p, exclude) {
            front
        } else if at < front.len() {
            front.update(at, (n - 1) as usize)
        } else {
            front.push((n - 1) as usize)
        }
    }
}

/// The names of the peers at these positions.
pub open spec fn names_at(peers: Seq<PeerConfig>, slots: Seq<usize>) -> Seq<Seq<char>> {
    slots.map_values(|s: usize| peers[s as int].name@)
}

/// A public key that may be left out, as its bytes.
pub open spec fn left_out(exclude: Option<&[u8; 32]>) -> Option<Seq<u8>> {
    match exclude {
        Some(key) => Some(key@),
        None => None,
    }
}

/// What is left of a list of positions without the peers of these names.
pub open spec fn still_pending(
    peers: Seq<PeerConfig>,
    slots: Seq<usize>,
    acked: Seq<Seq<char>>,
) -> Seq<usize> {
    slots.filter(|s: usize| !acked.contains(peers[s as int].name@))
}

/// What taking in an answer does to the names that have answered, and what it reports.
pub open spec fn takes_in(
    before: Seq<Seq<char>>,
    after: Seq<Seq<char>>,
    r: Option<String>,
    who: Option<PeerConfig>,
) -> bool {
    match who {
        Some(p) => if before.contains(p.name@) {
            r is None && after == before
        } else {
            r == Some(p.name) && after == before.push(p.name@)
        },
        None => r is None && after == before,
    }
}

/// What the end of a round decides, from how many are left and how many rounds there
/// have been.
pub open spec fn ends_round(left: int, was: int, is: int, max: int, r: NextStep) -> bool {
    if left == 0 || was == max {
        r is Finish && is == was
    } else {
        r is Resend && is == was + 1
    }
}

/// A KILL under way: who has not answered, who has, and how often it was sent.
#[derive(Debug)]
pub struct FanOut {
    pending: Vec<usize>,
    acked: Vec<String>,
    retry: u32,
}

/// What to do next.
#[derive(Debug, Clone, Copy, PartialEq, Eq, Structural)]
pub enum NextStep {
    /// Send again to everyone who is pending.
    Resend,
    /// Give up waiting.
    Finish,
}

impl FanOut {
    /// The positions of the peers that have not answered.
    pub closed spec fn pending(&self) -> Seq<usize> {
        self.pending@
    }

    /// The names of the peers that have answered, in the order they did.
    pub closed spec fn acked(&self) -> Seq<Seq<char>> {
        views(self.acked@)
    }

    /// How many rounds of waiting are over.
    pub closed spec fn rounds(&self) -> nat {
        self.retry as nat
    }

    /// Every pending position is a peer's, no name is pending twice, and nobody
    /// answered twice.
    pub open spec fn wf(&self, peers: Seq<PeerConfig>) -> bool {
        &&& forall|i: int|
            0 <= i < self.pending().len() ==> #[trigger] self.pending()[i] < peers.len()
        &&& names_at(peers, self.pending()).no_duplicates()
        &&& self.acked().no_duplicates()
    }

    /// Whether nobody is lost: the name of everyone who is to be sent to is pending or
    /// has answered, and only those who are to be sent to are pending.
    pub open spec fn accounts_for(
        &self,
        peers: Seq<PeerConfig>,
        exclude: Option<Seq<u8>>,
    ) -> bool {
        let all = targets(peers, exclude, peers.len() as int);
        &&& forall|name: Seq<char>| #[trigger]
            names_at(peers, all).contains(name) ==> names_at(peers, self.pending()).contains(name)
                || self.acked().contains(name)
        &&& forall|i: int|
            0 <= i < self.pending().len() ==> all.contains(#[trigger] self.pending()[i])
    }

    /// Whether nobody who answered is pending.
    pub open spec fn settled(&self, peers: Seq<PeerConfig>) -> bool {
        forall|i: int|
            0 <= i < self.pending().len() ==> !self.acked().contains(
                peers[(#[trigger] self.pending()[i]) as int].name@,
            )
    }

    /// Start a KILL: everyone with an address is pending, but for the peer with
    /// the excluded key (it is where the KILL came from).
    pub fn start(peers: &[PeerConfig], exclude: Option<&[u8; 32]>) -> (r: FanOut)
        ensures
            r.pending() == targets(peers@, left_out(exclude), peers@.len() as int),
            r.acked().len() == 0,
            r.rounds() == 0,
            r.wf(peers@),
            r.accounts_for(peers@, left_out(exclude)),
            r.settled(peers@),
    {
        let mut pending: Vec<usize> = Vec::new();
        let ghost out = left_out(exclude);
        let mut i: usize = 0;
        while i < peers.len()
            invariant
                i <= peers@.len(),
                out == left_out(exclude),
                pending@ == targets(peers@, out, i as int),
                forall|k: int| 0 <= k < pending@.len() ==> #[trigger] pending@[k] < i,
            decreases peers@.len() - i,
        {
            let p = &peers[i];
            let skip = match exclude {
                Some(key) => is_key_of(p, key),
                None => false,
            };
            if p.addresses.len() > 0 && !skip {
                let mut k: usize = 0;
                while k < pending.len() && !same(peers[pending[k]].name.as_str(), p.name.as_str())
                    invariant
                        k <= pending@.len(),
                        i < peers@.len(),
                        *p == peers@[i as int],
                        forall|j: int| 0 <= j < pending@.len() ==> #[trigger] pending@[j] < i,
                        slot_of(peers@, pending@, p.name@, 0) == slot_of(
                            peers@,
                            pending@,
                            p.name@,
                            k as int,
                        ),
                    decreases pending@.len() - k,
                {
                    k += 1;
                }
                if k < pending.len() {
                    pending[k] = i;
                } else {
                    pending.push(i);
                }
            }
            i += 1;
        }
        let acked: Vec<String> = Vec::new();
        proof {
            targets_are_distinct(peers@, out, peers@.len() as int);
            assert(views(acked@) =~= Seq::<Seq<char>>::empty());
        }
        let r = FanOut { pending, acked, retry: 0 };
        assert forall|k: int| 0 <= k < r.pending().len() implies targets(
            peers@,
            out,
            peers@.len() as int,
        ).contains(#[trigger] r.pending()[k]) by {
            assert(r.pending()[k] == targets(peers@, out, peers@.len() as int)[k]);
        }
        r
    }

    /// The positions of the peers to send to.
    pub fn to_send(&self) -> (r: &[usize])
        ensures
            r@ == self.pending(),
    {
        self.pending.as_slice()
    }

    /// Whether nobody is left to wait for.
    pub fn is_done(&self) -> (r: bool)
        ensures
            r == (self.pending().len() == 0),
    {
        self.pending.len() == 0
    }

    /// Take in a datagram that arrived. Returns the peer whose answer it is,
    /// the first time that peer answers.
    pub fn receive(&mut self, data: &[u8], nonce: &[u8; 16], peers: &[PeerConfig]) -> (r: Option<
        String,
    >)
        requires
            old(self).wf(peers@),
        ensures
            final(self).pending() == old(self).pending(),
            final(self).rounds() == old(self).rounds(),
            final(self).wf(peers@),
            forall|exclude: Option<Seq<u8>>|
                old(self).accounts_for(peers@, exclude) ==> #[trigger] final(self).accounts_for(
                    peers@,
                    exclude,
                ),
            match acked_by(data@, nonce@, peers@) {
                Some(p) => if old(self).acked().contains(p.name@) {
                    r is None && final(self).acked() == old(self).acked()
                } else {
                    r == Some(p.name) && final(self).acked() == old(self).acked().push(p.name@)
                },
                None => r is None && final(self).acked() == old(self).acked(),
            },
            takes_in(
                old(self).acked(),
                final(self).acked(),
                r,
                acked_by(data@, nonce@, peers@),
            ),
    {
        let ghost before = self.acked();
        match check_ack(data, nonce, peers) {
            Some(name) => {
                if listed(self.acked.as_slice(), name.as_str()) {
                    None
                } else {
                    self.acked.push(name.clone());
                    assert(self.acked() =~= before.push(name@));
                    assert forall|x: Seq<char>|
                        before.contains(x) implies #[trigger] self.acked().contains(x) by {
                        let k = choose|k: int| 0 <= k < before.len() && before[k] == x;
                        assert(self.acked()[k] == x);
                    }
                    Some(name)
                }
            },
            None => None,
        }
    }

    /// The wait of one round is over: whoever answered is no longer pending, and
    /// the KILL goes out again unless nobody is left or it was the last round.
    pub fn round_over(&mut self, peers: &[PeerConfig], max_retries: u32) -> (r: NextStep)
        requires
            old(self).wf(peers@),
            old(self).rounds() <= max_retries,
        ensures
            final(self).pending() == still_pending(
                peers@,
                old(self).pending(),
                old(self).acked(),
            ),
            final(self).acked() == old(self).acked(),
            final(self).wf(peers@),
            r == if final(self).pending().len() == 0 || old(self).rounds() == max_retries {
                NextStep::Finish
            } else {
                NextStep::Resend
            },
            r is Resend ==> final(self).rounds() == old(self).rounds() + 1
                && final(self).rounds() <= max_retries,
            r is Finish ==> final(self).rounds() == old(self).rounds(),
            ends_round(
                final(self).pending().len() as int,
                old(self).rounds() as int,
                final(self).rounds() as int,
                max_retries as int,
                r,
            ),
            final(self).settled(peers@),
            forall|exclude: Option<Seq<u8>>|
                old(self).accounts_for(peers@, exclude) ==> #[trigger] final(self).accounts_for(
                    peers@,
                    exclude,
                ),
    {
        let mut left: Vec<usize> = Vec::new();
        let ghost all = self.pending@;
        let ghost keep = |s: usize| !self.acked().contains(peers@[s as int].name@);
        let mut i: usize = 0;
        proof {
            reveal(Seq::filter);
            assert(all.take(0) =~= Seq::<usize>::empty());
        }
        while i < self.pending.len()
            invariant
                i <= all.len(),
                all == self.pending@,
                *self == *old(self),
                self.wf(peers@),
                self.pending() == all,
                keep == (|s: usize| !self.acked().contains(peers@[s as int].name@)),
                left@ == all.take(i as int).filter(keep),
            decreases all.len() - i,
        {
            proof {
                reveal(Seq::filter);
                assert(all.take(i + 1).drop_last() =~= all.take(i as int));
                assert(self.pending()[i as int] < peers@.len());
            }
            let s = self.pending[i];
            if !listed(self.acked.as_slice(), peers[s].name.as_str()) {
                left.push(s);
            }
            i += 1;
        }
        assert(all.take(i as int) =~= all);
        proof {
            filter_keeps_distinct(peers@, all, keep);
            let left_names = names_at(peers@, left@);
            assert forall|name: Seq<char>|
                (#[trigger] names_at(peers@, all).contains(name)) && !self.acked().contains(name)
                implies left_names.contains(name) by {
                an_answer_is_never_a_timeout(peers@, all, self.acked(), name);
            }
            assert forall|x: usize| left@.contains(x) implies #[trigger] all.contains(x) by {
                let k = choose|k: int| 0 <= k < left@.len() && left@[k] == x;
                assert(all.contains(all.filter(keep)[k]));
            }
        }
        let done = left.len() == 0 || self.retry == max_retries;
        self.pending = left;
        if done {
            NextStep::Finish
        } else {
            self.retry = self.retry + 1;
            NextStep::Resend
        }
    }

    /// Who answered and who did not.
    pub fn finish(self, peers: &[PeerConfig]) -> (r: FanOutResult)
        requires
            self.wf(peers@),
        ensures
            views(r.acked@) == self.acked(),
            views(r.timed_out@) == names_at(peers@, self.pending()),
    {
        let mut timed_out: Vec<String> = Vec::new();
        let mut i: usize = 0;
        while i < self.pending.len()
            invariant
                i <= self.pending@.len(),
                self.wf(peers@),
                self.pending() == self.pending@,
                timed_out@.len() == i,
                forall|k: int|
                    0 <= k < i ==> (#[trigger] timed_out@[k])@
                        == peers@[self.pending@[k] as int].name@,
            decreases self.pending@.len() - i,
        {
            assert(self.pending()[i as int] < peers@.len());
            timed_out.push(peers[self.pending[i]].name.clone());
            i += 1;
        }
        assert(views(timed_out@) =~= names_at(peers@, self.pending()));
        FanOutResult { acked: self.acked, timed_out }
    }
}

/// The names of all peers.
pub open spec fn all_names(peers: Seq<PeerConfig>) -> Seq<Seq<char>> {
    peers.map_values(|p: PeerConfig| p.name@)
}

/// The result where nothing could be sent at all: everyone timed out.
pub fn nothing_sent(config: &Config) -> (r: FanOutResult)
    ensures
        r.acked@.len() == 0,
        views(r.timed_out@) == all_names(config.peers@),
{
    let mut timed_out: Vec<String> = Vec::new();
    let mut i: usize = 0;
    while i < config.peers.len()
        invariant
            i <= config.peers@.len(),
            timed_out@.len() == i,
            forall|k: int| 0 <= k < i ==> (#[trigger] timed_out@[k])@ == config.peers@[k].name@,
        decreases config.peers@.len() - i,
    {
        timed_out.push(config.peers[i].name.clone());
        i += 1;
    }
    assert(views(timed_out@) =~= all_names(config.peers@));
    FanOutResult { acked: Vec::new(), timed_out }
}

// ---- what holds of a fan-out ---------------------------------------------

proof fn slot_of_is_first(peers: Seq<PeerConfig>, slots: Seq<usize>, name: Seq<char>, i: int)
    requires
        0 <= i <= slots.len(),
    ensures
        i <= slot_of(peers, slots, name, i) <= slots.len(),
        slot_of(peers, slots, name, i) < slots.len() ==> peers[slots[slot_of(
            peers,
            slots,
            name,
            i,
        )] as int].name@ == name,
        forall|k: int|
            i <= k < slot_of(peers, slots, name, i) ==> peers[(#[trigger] slots[k]) as int].name@
                != name,
    decreases slots.len() - i,
{
    if i < slots.len() && peers[slots[i] as int].name@ != name {
        slot_of_is_first(peers, slots, name, i + 1);
    }
}

/// Nobody is sent to twice, and every position is a peer's that is to be
/// reached.
pub proof fn targets_are_distinct(peers: Seq<PeerConfig>, exclude: Option<Seq<u8>>, n: int)
    requires
        0 <= n <= peers.len() <= usize::MAX,
    ensures
        names_at(peers, targets(peers, exclude, n)).no_duplicates(),
        forall|i: int|
            0 <= i < targets(peers, exclude, n).len() ==> #[trigger] targets(peers, exclude, n)[i]
                < n && reached(peers[targets(peers, exclude, n)[i] as int], exclude),
    decreases n,
{
    if n > 0 {
        targets_are_distinct(peers, exclude, n - 1);
        let front = targets(peers, exclude, n - 1);
        let all = targets(peers, exclude, n);
        let p = peers[n - 1];
        slot_of_is_first(peers, front, p.name@, 0);
        let at = slot_of(peers, front, p.name@, 0);
        let before = names_at(peers, front);
        let after = names_at(peers, all);
        assert forall|i: int, j: int|
            0 <= i < after.len() && 0 <= j < after.len() && i != j implies after[i] != after[j] by {
            if !reached(p, exclude) {
                assert(after[i] == before[i] && after[j] == before[j]);
            } else if at < front.len() {
                assert(after[i] == before[i]);
                assert(after[j] == before[j]);
            } else {
                if i < front.len() {
                    assert(front[i] == all[i]);
                    assert(after[i] == before[i]);
                    assert(peers[front[i] as int].name@ != p.name@);
                }
                if j < front.len() {
                    assert(front[j] == all[j]);
                    assert(after[j] == before[j]);
                    assert(peers[front[j] as int].name@ != p.name@);
                }
            }
        }
        assert forall|i: int| 0 <= i < all.len() implies #[trigger] all[i] < n && reached(
            peers[all[i] as int],
            exclude,
        ) by {
            if i < front.len() {
                assert(front[i] < n - 1 && reached(peers[front[i] as int], exclude));
            }
        }
    }
}

/// Everyone who is to be reached is sent to, by name.
pub proof fn everyone_reachable_is_a_target(
    peers: Seq<PeerConfig>,
    exclude: Option<Seq<u8>>,
    n: int,
    i: int,
)
    requires
        0 <= i < n <= peers.len() <= usize::MAX,
        reached(peers[i], exclude),
    ensures
        names_at(peers, targets(peers, exclude, n)).contains(peers[i].name@),
    decreases n,
{
    let front = targets(peers, exclude, n - 1);
    let all = targets(peers, exclude, n);
    let p = peers[n - 1];
    slot_of_is_first(peers, front, p.name@, 0);
    let at = slot_of(peers, front, p.name@, 0);
    let names = names_at(peers, all);
    if i == n - 1 {
        if at < front.len() {
            assert(names[at] == p.name@);
        } else {
            assert(names[front.len() as int] == p.name@);
        }
    } else {
        everyone_reachable_is_a_target(peers, exclude, n - 1, i);
        let before = names_at(peers, front);
        let k = choose|k: int| 0 <= k < before.len() && before[k] == peers[i].name@;
        assert(names[k] == before[k]);
    }
}

/// Leaving some out keeps the names distinct.
proof fn filter_keeps_distinct(
    peers: Seq<PeerConfig>,
    slots: Seq<usize>,
    keep: spec_fn(usize) -> bool,
)
    requires
        names_at(peers, slots).no_duplicates(),
        forall|i: int| 0 <= i < slots.len() ==> #[trigger] slots[i] < peers.len(),
    ensures
        names_at(peers, slots.filter(keep)).no_duplicates(),
        forall|i: int|
            0 <= i < slots.filter(keep).len() ==> #[trigger] slots.filter(keep)[i] < peers.len()
                && slots.contains(slots.filter(keep)[i]) && keep(slots.filter(keep)[i]),
    decreases slots.len(),
{
    reveal(Seq::filter);
    if slots.len() > 0 {
        let front = slots.drop_last();
        assert forall|i: int, j: int|
            0 <= i < front.len() && 0 <= j < front.len() && i != j implies names_at(peers, front)[i]
            != names_at(peers, front)[j] by {
            assert(names_at(peers, front)[i] == names_at(peers, slots)[i]);
            assert(names_at(peers, front)[j] == names_at(peers, slots)[j]);
        }
        filter_keeps_distinct(peers, front, keep);
        let kept = slots.filter(keep);
        let fk = front.filter(keep);
        assert forall|i: int| 0 <= i < kept.len() implies #[trigger] kept[i] < peers.len()
            && slots.contains(kept[i]) && keep(kept[i]) by {
            if i < fk.len() {
                assert(front.contains(fk[i]));
                let k = choose|k: int| 0 <= k < front.len() && front[k] == fk[i];
                assert(slots[k] == kept[i]);
            } else {
                assert(slots[slots.len() - 1] == kept[i]);
            }
        }
        let names = names_at(peers, kept);
        assert forall|i: int, j: int|
            0 <= i < names.len() && 0 <= j < names.len() && i != j implies names[i] != names[j] by {
            if i < fk.len() && j < fk.len() {
                assert(names_at(peers, fk)[i] == names[i] && names_at(peers, fk)[j] == names[j]);
            } else {
                let other = if i < fk.len() {
                    i
                } else {
                    j
                };
                assert(front.contains(fk[other]));
                let k = choose|k: int| 0 <= k < front.len() && front[k] == fk[other];
                assert(names_at(peers, slots)[k] == names[other]);
                assert(names_at(peers, slots)[slots.len() - 1] == peers[slots.last() as int].name@);
            }
        }
    }
}

/// Whoever answered is not reported as timed out, and whoever was pending is
/// reported one way or the other.
pub proof fn an_answer_is_never_a_timeout(
    peers: Seq<PeerConfig>,
    slots: Seq<usize>,
    acked: Seq<Seq<char>>,
    name: Seq<char>,
)
    requires
        names_at(peers, slots).contains(name),
    ensures
        acked.contains(name) != names_at(peers, still_pending(peers, slots, acked)).contains(name),
{
    broadcast use vstd::seq_lib::group_filter_ensures;

    let keep = |s: usize| !acked.contains(peers[s as int].name@);
    let left = still_pending(peers, slots, acked);
    let k = choose|k: int| 0 <= k < slots.len() && names_at(peers, slots)[k] == name;
    assert(slots.contains(slots[k]));
    if !acked.contains(name) {
        assert(keep(slots[k]));
        assert(left.contains(slots[k]));
        let j = choose|j: int| 0 <= j < left.len() && left[j] == slots[k];
        assert(names_at(peers, left)[j] == name);
    }
    if names_at(peers, left).contains(name) {
        let j = choose|j: int| 0 <= j < left.len() && names_at(peers, left)[j] == name;
        assert(keep(left[j]));
    }
}

/// When the last round is over, the names reported as timed out are exactly those of
/// the peers that were to be sent to and did not answer: nobody who was to be reached
/// goes unreported, and nobody else is reported.
pub proof fn the_timed_out_are_who_did_not_answer(
    fan: FanOut,
    peers: Seq<PeerConfig>,
    exclude: Option<Seq<u8>>,
    r: FanOutResult,
    name: Seq<char>,
)
    requires
        fan.accounts_for(peers, exclude),
        fan.settled(peers),
        views(r.acked@) == fan.acked(),
        views(r.timed_out@) == names_at(peers, fan.pending()),
    ensures
        views(r.timed_out@).contains(name) <==> names_at(
            peers,
            targets(peers, exclude, peers.len() as int),
        ).contains(name) && !views(r.acked@).contains(name),
{
    let all = targets(peers, exclude, peers.len() as int);
    let names = names_at(peers, fan.pending());
    if names.contains(name) {
        let k = choose|k: int| 0 <= k < names.len() && names[k] == name;
        let slot = fan.pending()[k];
        assert(all.contains(slot));
        let j = choose|j: int| 0 <= j < all.len() && all[j] == slot;
        assert(names_at(peers, all)[j] == name);
    }
}

/// The answer that a machine with a peer's key sends to a KILL is counted as
/// that peer's, whatever its own nonce and time.
pub proof fn an_honest_answer_counts(
    peers: Seq<PeerConfig>,
    private_key: Seq<u8>,
    kill_nonce: Seq<u8>,
    timestamp: u64,
    ack_nonce: Seq<u8>,
    signature: Seq<u8>,
)
    requires
        kill_nonce.len() == 16,
        ack_nonce.len() == 16,
        signature.len() == 64,
        crate::relay::crypto::ed25519_public(private_key).len() == 32,
        peer_with(peers, crate::relay::crypto::ed25519_public(private_key), 0) is Some,
        ed25519_accepts(
            crate::relay::crypto::ed25519_public(private_key),
            message(
                PacketModel {
                    packet_type: PacketType::Ack,
                    timestamp,
                    nonce: ack_nonce,
                    sender_id: crate::relay::crypto::ed25519_public(private_key),
                    reason: hex_text(kill_nonce),
                },
            ),
            signature,
        ),
    ensures
        acked_by(
            message(
                PacketModel {
                    packet_type: PacketType::Ack,
                    timestamp,
                    nonce: ack_nonce,
                    sender_id: crate::relay::crypto::ed25519_public(private_key),
                    reason: hex_text(kill_nonce),
                },
            ) + signature,
            kill_nonce,
            peers,
        ) == peer_with(peers, crate::relay::crypto::ed25519_public(private_key), 0),
{
    let p = PacketModel {
        packet_type: PacketType::Ack,
        timestamp,
        nonce: ack_nonce,
        sender_id: crate::relay::crypto::ed25519_public(private_key),
        reason: hex_text(kill_nonce),
    };
    crate::relay::crypto::hex_text_len(kill_nonce);
    hex_text_is_ascii(kill_nonce);
    vstd::utf8::is_ascii_chars_encode_utf8(p.reason);
    crate::relay::protocol::packets_round_trip(p, signature);
}

/// Hexadecimal digits are ASCII.
proof fn hex_text_is_ascii(b: Seq<u8>)
    ensures
        vstd::utf8::is_ascii_chars(hex_text(b)),
    decreases b.len(),
{
    if b.len() > 0 {
        hex_text_is_ascii(b.drop_last());
        let s = hex_text(b);
        let front = hex_text(b.drop_last());
        assert forall|i: int| 0 <= i < s.len() implies '\0' <= #[trigger] s[i] <= '\u{7f}' by {
            if i < front.len() {
                assert(s[i] == front[i]);
            }
        }
    }
}

/// Where no two peers share a name, a KILL is sent to exactly those that have an
/// address, however many, and whose key is not the one left out.
pub proof fn everyone_with_an_address_is_sent_to(
    peers: Seq<PeerConfig>,
    exclude: Option<Seq<u8>>,
    n: int,
)
    requires
        0 <= n <= peers.len() <= usize::MAX,
        exclude matches Some(key) ==> key.len() == 32,
        forall|i: int, j: int|
            0 <= i < j < peers.len() ==> (#[trigger] peers[i]).name@ != (#[trigger] peers[j]).name@,
    ensures
        forall|i: usize| #[trigger]
            targets(peers, exclude, n).contains(i) <==> i < n && peers[i as int].addresses@.len() >= 1
                && !(exclude matches Some(key) && base64_read(peers[i as int].pubkey@) == Ok::<
                Seq<u8>,
                Seq<char>,
            >(key)),
        targets(peers, exclude, n).no_duplicates(),
    decreases n,
{
    if n > 0 {
        everyone_with_an_address_is_sent_to(peers, exclude, n - 1);
        targets_are_distinct(peers, exclude, n - 1);
        let front = targets(peers, exclude, n - 1);
        let all = targets(peers, exclude, n);
        let p = peers[n - 1];
        slot_of_is_first(peers, front, p.name@, 0);
        let at = slot_of(peers, front, p.name@, 0);
        if at < front.len() {
            assert(front[at] < n - 1);
            assert(peers[front[at] as int].name@ != p.name@);
        }
        assert forall|i: usize| #[trigger]
            all.contains(i) <==> i < n && peers[i as int].addresses@.len() >= 1 && !(
            exclude matches Some(key) && base64_read(peers[i as int].pubkey@) == Ok::<
                Seq<u8>,
                Seq<char>,
            >(key)) by {
            assert(front.contains(i) <==> i < n - 1 && peers[i as int].addresses@.len() >= 1 && !(
            exclude matches Some(key) && base64_read(peers[i as int].pubkey@) == Ok::<
                Seq<u8>,
                Seq<char>,
            >(key)));
            if all != front {
                assert(all == front.push((n - 1) as usize));
                if front.contains(i) {
                    let k = choose|k: int| 0 <= k < front.len() && front[k] == i;
                    assert(all[k] == i);
                }
                if i == n - 1 {
                    assert(all[front.len() as int] == i);
                }
                if all.contains(i) && i != n - 1 {
                    let k = choose|k: int| 0 <= k < all.len() && all[k] == i;
                    assert(front[k] == i);
                }
            }
        }
        if all != front {
            assert(!front.contains((n - 1) as usize));
        }
    }
}

/// An answer counts exactly where it is an ACK that gives the KILL's nonce in
/// hexadecimal as its reason, some peer has the key it names, and its signature covers
/// all before it.
pub proof fn an_answer_counts_exactly_when(
    data: Seq<u8>,
    nonce: Seq<u8>,
    peers: Seq<PeerConfig>,
    p: PacketModel,
)
    requires
        read_packet(data) == Ok::<PacketModel, Seq<char>>(p),
    ensures
        acked_by(data, nonce, peers) is Some <==> {
            let end = 64 + data[62] * 256 + data[63];
            &&& p.packet_type is Ack
            &&& p.reason == hex_text(nonce)
            &&& ed25519_accepts(p.sender_id, data.subrange(0, end), data.subrange(end, end + 64))
            &&& exists|i: int|
                0 <= i < peers.len() && base64_read((#[trigger] peers[i]).pubkey@) == Ok::<
                    Seq<u8>,
                    Seq<char>,
                >(p.sender_id)
        },
        acked_by(data, nonce, peers) matches Some(peer) ==> base64_read(peer.pubkey@) == Ok::<
            Seq<u8>,
            Seq<char>,
        >(p.sender_id) && peers.contains(peer),
{
    crate::relay::protocol::a_datagram_is_laid_out_so(data);
    first_with_the_key(peers, p.sender_id, 0);
}

proof fn first_with_the_key(peers: Seq<PeerConfig>, key: Seq<u8>, i: int)
    requires
        0 <= i,
        key.len() == 32,
    ensures
        peer_with(peers, key, i) is Some <==> exists|k: int|
            i <= k < peers.len() && base64_read((#[trigger] peers[k]).pubkey@) == Ok::<
                Seq<u8>,
                Seq<char>,
            >(key),
        peer_with(peers, key, i) matches Some(p) ==> base64_read(p.pubkey@) == Ok::<
            Seq<u8>,
            Seq<char>,
        >(key) && peers.contains(p),
    decreases peers.len() - i,
{
    if i < peers.len() {
        first_with_the_key(peers, key, i + 1);
        if has_key(peers[i], key) {
            assert(base64_read(peers[i].pubkey@) == Ok::<Seq<u8>, Seq<char>>(key));
        }
    }
}

/// Where nothing could be sent, every peer is reported, in order.
pub proof fn all_names_are_reported(peers: Seq<PeerConfig>)
    ensures
        all_names(peers).len() == peers.len(),
        forall|i: int| 0 <= i < peers.len() ==> #[trigger] all_names(peers)[i] == peers[i].name@,
{
}

/// A signed datagram is what is signed, and behind it the signature of just that.
pub proof fn the_signature_is_of_what_goes_before(p: PacketModel, private_key: Seq<u8>)
    requires
        p.nonce.len() == 16,
        p.sender_id.len() == 32,
        encode_utf8(p.reason).len() <= 256,
        ed25519_signature(private_key, message(p)).len() == 64,
    ensures
        read_packet(signed(p, private_key)) == Ok::<PacketModel, Seq<char>>(p),
        ({
            let data = signed(p, private_key);
            let end = 64 + data[62] * 256 + data[63];
            data.subrange(end, end + 64) == ed25519_signature(private_key, data.subrange(0, end))
        }),
{
    let data = signed(p, private_key);
    crate::relay::protocol::packets_round_trip(p, ed25519_signature(private_key, message(p)));
    crate::relay::protocol::a_datagram_is_laid_out_so(data);
}

/// An answer is reported the first time that its peer answers, and never again; one that
/// counts for nobody is not reported and changes nothing.
pub proof fn an_answer_is_reported_once(
    a: Seq<Seq<char>>,
    b: Seq<Seq<char>>,
    c: Seq<Seq<char>>,
    r: Option<String>,
    q: Option<String>,
    who: Option<PeerConfig>,
)
    requires
        takes_in(a, b, r, who),
        takes_in(b, c, q, who),
    ensures
        who is None ==> r is None && b == a,
        who matches Some(p) ==> b.contains(p.name@) && (r is Some <==> !a.contains(p.name@)) && (
        r matches Some(n) ==> n@ == p.name@),
        q is None && c == b,
        a.len() <= b.len() <= a.len() + 1,
        b.take(a.len() as int) == a,
{
    if let Some(p) = who {
        if !a.contains(p.name@) {
            assert(b[a.len() as int] == p.name@);
        }
    }
    assert(b.take(a.len() as int) =~= a);
}

/// A KILL is sent again exactly while somebody has not answered and fewer rounds are over
/// than there may be retries, so that it is sent once more than that at most.
pub proof fn a_kill_is_sent_again_while_somebody_is_missing(
    left: int,
    was: int,
    is: int,
    max: int,
    r: NextStep,
)
    requires
        0 <= left,
        0 <= was <= max,
        ends_round(left, was, is, max, r),
    ensures
        r is Resend <==> left > 0 && was < max,
        r is Resend ==> is == was + 1 && is <= max,
        r is Finish ==> is == was,
        left > 0 && r is Finish ==> was == max,
{
}

/// Whoever has answered is no longer waited for, and everyone else still is.
pub proof fn who_has_answered_is_not_waited_for(
    peers: Seq<PeerConfig>,
    slots: Seq<usize>,
    acked: Seq<Seq<char>>,
    s: usize,
)
    ensures
        still_pending(peers, slots, acked).contains(s) <==> slots.contains(s) && !acked.contains(
            peers[s as int].name@,
        ),
{
    crate::order::a_pick_holds_what_passes(
        slots,
        |s: usize| !acked.contains(peers[s as int].name@),
        s,
    );
}

/// A key is left out where one is given.
pub proof fn a_key_is_left_out_where_one_is_given(key: &[u8; 32])
    ensures
        left_out(Some(key)) == Some(key@),
        left_out(None) is None,
{
}

} // verus!
