//! Keys, signatures and nonces.

use base64::prelude::{Engine, BASE64_STANDARD};
use ed25519_dalek::{Signer, SigningKey, Verifier, VerifyingKey};
use rand::rngs::OsRng;
use rand::RngCore;
use std::collections::VecDeque;
use vstd::prelude::*;

use crate::number::{digit, digit_char};
use crate::text::cat5;

verus! {

/// How many nonces are remembered.
pub const NONCE_CACHE_SIZE: usize = 1000;

// ---- ed25519 -------------------------------------------------------------

/// The public key that `ed25519_dalek` derives from a private key.
pub uninterp spec fn ed25519_public(private_key: Seq<u8>) -> Seq<u8>;

/// The signature that `ed25519_dalek` makes of a message with a private key.
pub uninterp spec fn ed25519_signature(private_key: Seq<u8>, message: Seq<u8>) -> Seq<u8>;

/// Whether `ed25519_dalek` accepts a signature of a message under a public key.
pub uninterp spec fn ed25519_accepts(
    public_key: Seq<u8>,
    message: Seq<u8>,
    signature: Seq<u8>,
) -> bool;

/// Generate a new ed25519 keypair, `SigningKey::generate` on the system's
/// random numbers. Returns (private_key_bytes, public_key_bytes): whatever
/// comes out, the second is the public key of the first.
#[verifier::external_body]
pub fn generate_keypair() -> (r: ([u8; 32], [u8; 32]))
    ensures
        r.1@ == ed25519_public(r.0@),
{
    let signing_key = SigningKey::generate(&mut OsRng);
    (signing_key.to_bytes(), signing_key.verifying_key().to_bytes())
}

/// The public key of a private key, `SigningKey::verifying_key`.
#[verifier::external_body]
pub fn public_key(private_key: &[u8; 32]) -> (r: [u8; 32])
    ensures
        r@ == ed25519_public(private_key@),
{
    SigningKey::from_bytes(private_key).verifying_key().to_bytes()
}

/// Sign a message with a private key, `SigningKey::sign`. Returns a 64-byte
/// signature: the same key and message give the same one, and it is accepted
/// under the key's public key.
#[verifier::external_body]
pub fn sign(private_key: &[u8; 32], message: &[u8]) -> (r: [u8; 64])
    ensures
        r@ == ed25519_signature(private_key@, message@),
        ed25519_accepts(ed25519_public(private_key@), message@, r@),
{
    SigningKey::from_bytes(private_key).sign(message).to_bytes()
}

/// Verify a signature against a public key and message, `VerifyingKey::verify`.
/// False too where the bytes are no public key.
#[verifier::external_body]
pub fn verify(public_key: &[u8; 32], message: &[u8], signature: &[u8; 64]) -> (r: bool)
    ensures
        r == ed25519_accepts(public_key@, message@, signature@),
{
    let sig = ed25519_dalek::Signature::from_bytes(signature);
    VerifyingKey::from_bytes(public_key).is_ok_and(|key| key.verify(message, &sig).is_ok())
}

/// Generate a random 16-byte nonce, `fill_bytes` of the thread's generator.
/// Nothing is known of it.
#[verifier::external_body]
pub fn random_nonce() -> [u8; 16] {
    let mut nonce = [0u8; 16];
    rand::thread_rng().fill_bytes(&mut nonce);
    nonce
}

// ---- base64 --------------------------------------------------------------

/// What the standard base64 engine decodes a text to, or why it does not.
pub uninterp spec fn base64_read(text: Seq<char>) -> Result<Seq<u8>, Seq<char>>;

/// What the standard base64 engine encodes bytes as.
pub uninterp spec fn base64_text(bytes: Seq<u8>) -> Seq<char>;

/// Whether a text decodes to these bytes.
pub open spec fn decodes_to(text: Seq<char>, bytes: Seq<u8>) -> bool {
    base64_read(text) == Ok::<Seq<u8>, Seq<char>>(bytes)
}

/// `Engine::decode` of the standard base64 engine.
#[verifier::external_body]
pub(crate) fn base64_decode(text: &str) -> (r: Result<Vec<u8>, String>)
    ensures
        match r {
            Ok(b) => base64_read(text@) == Ok::<Seq<u8>, Seq<char>>(b@),
            Err(e) => base64_read(text@) == Err::<Seq<u8>, Seq<char>>(e@),
        },
{
    BASE64_STANDARD.decode(text).map_err(|e| e.to_string())
}

/// A key in base64, `Engine::encode` of the standard engine. Decoding gives
/// the key back.
#[verifier::external_body]
pub(crate) fn base64_encode(key: &[u8; 32]) -> (r: String)
    ensures
        r@ == base64_text(key@),
        decodes_to(r@, key@),
{
    BASE64_STANDARD.encode(key)
}

/// A key as people paste it.
pub fn key_text(key: &[u8; 32]) -> (r: String)
    ensures
        r@ == base64_text(key@),
        decodes_to(r@, key@),
{
    base64_encode(key)
}

/// A new key pair, as it is shown: whatever comes out, the public key shown is that
/// of the private key shown.
pub fn generate_keys() -> (r: String)
    ensures
        exists|private_key: Seq<u8>|
            private_key.len() == 32 && #[trigger] keys_shown(
                private_key,
                ed25519_public(private_key),
            ) == r@,
{
    let (private_key, public_key) = generate_keypair();
    assert(private_key@.len() == 32);
    keys_output(&private_key, &public_key)
}

// ---- hexadecimal ---------------------------------------------------------

/// What is shown of a key pair.
pub open spec fn keys_shown(private_key: Seq<u8>, public_key: Seq<u8>) -> Seq<char> {
    "Private key (store in SOPS, deploy to private_key_file):\n"@ + base64_text(private_key)
        + "\n\nPublic key (add to peers config):\n"@ + base64_text(public_key) + "\n"@
}

/// What is shown of a key pair.
pub fn keys_output(private_key: &[u8; 32], public_key: &[u8; 32]) -> (r: String)
    ensures
        r@ == keys_shown(private_key@, public_key@),
{
    cat5(
        "Private key (store in SOPS, deploy to private_key_file):\n",
        key_text(private_key).as_str(),
        "\n\nPublic key (add to peers config):\n",
        key_text(public_key).as_str(),
        "\n",
    )
}

/// Bytes in hexadecimal, two digits each, lower case.
pub open spec fn hex_text(b: Seq<u8>) -> Seq<char>
    decreases b.len(),
{
    if b.len() == 0 {
        Seq::empty()
    } else {
        hex_text(b.drop_last()).push(digit_char((b.last() / 16) as nat)).push(
            digit_char((b.last() % 16) as nat),
        )
    }
}

/// Print bytes in hexadecimal.
pub fn hex_encode(b: &[u8]) -> (r: String)
    ensures
        r@ == hex_text(b@),
{
    let mut out = String::new();
    let mut i: usize = 0;
    assert(b@.take(0) =~= Seq::<u8>::empty());
    while i < b.len()
        invariant
            i <= b@.len(),
            out@ == hex_text(b@.take(i as int)),
        decreases b@.len() - i,
    {
        assert(b@.take(i + 1).drop_last() =~= b@.take(i as int));
        out.push(digit(b[i] / 16));
        out.push(digit(b[i] % 16));
        i += 1;
    }
    assert(b@.take(i as int) =~= b@);
    out
}

/// Different bytes of one length print differently.
pub proof fn hex_text_tells_apart(a: Seq<u8>, b: Seq<u8>)
    requires
        hex_text(a) == hex_text(b),
    ensures
        a == b,
    decreases a.len(),
{
    hex_text_len(a);
    hex_text_len(b);
    if a.len() > 0 {
        let x = hex_text(a);
        let y = hex_text(b);
        let n = x.len();
        assert(x.take(n - 2) =~= hex_text(a.drop_last()));
        assert(y.take(n - 2) =~= hex_text(b.drop_last()));
        hex_text_tells_apart(a.drop_last(), b.drop_last());
        assert(x[n - 2] == digit_char((a.last() / 16) as nat));
        assert(y[n - 2] == digit_char((b.last() / 16) as nat));
        assert(x[n - 1] == digit_char((a.last() % 16) as nat));
        assert(y[n - 1] == digit_char((b.last() % 16) as nat));
        crate::number::digit_round_trip((a.last() / 16) as nat);
        crate::number::digit_round_trip((b.last() / 16) as nat);
        crate::number::digit_round_trip((a.last() % 16) as nat);
        crate::number::digit_round_trip((b.last() % 16) as nat);
        assert(a.last() == b.last());
        assert(a =~= a.drop_last().push(a.last()));
        assert(b =~= b.drop_last().push(b.last()));
    } else {
        assert(a =~= b);
    }
}

/// Two digits for each byte.
pub proof fn hex_text_len(b: Seq<u8>)
    ensures
        hex_text(b).len() == 2 * b.len(),
    decreases b.len(),
{
    if b.len() > 0 {
        hex_text_len(b.drop_last());
    }
}

// ---- nonces --------------------------------------------------------------

/// Whether two byte arrays hold the same bytes.
pub(crate) fn same_bytes(a: &[u8], b: &[u8]) -> (r: bool)
    ensures
        r == (a@ == b@),
{
    if a.len() != b.len() {
        return false;
    }
    let mut i: usize = 0;
    while i < a.len()
        invariant
            i <= a@.len(),
            a@.len() == b@.len(),
            forall|k: int| 0 <= k < i ==> a@[k] == b@[k],
        decreases a@.len() - i,
    {
        if a[i] != b[i] {
            return false;
        }
        i += 1;
    }
    assert(a@ =~= b@);
    true
}

/// Ring buffer of recently seen nonces for replay protection.
#[derive(Debug)]
pub struct NonceCache {
    seen: VecDeque<[u8; 16]>,
}

impl View for NonceCache {
    type V = Seq<Seq<u8>>;

    closed spec fn view(&self) -> Seq<Seq<u8>> {
        self.seen@.map_values(|n: [u8; 16]| n@)
    }
}

/// The nonces remembered after one more came in: the oldest goes where there
/// are as many as are kept.
pub open spec fn remember(seen: Seq<Seq<u8>>, nonce: Seq<u8>) -> Seq<Seq<u8>> {
    if seen.contains(nonce) {
        seen
    } else if seen.len() >= NONCE_CACHE_SIZE {
        seen.skip(1).push(nonce)
    } else {
        seen.push(nonce)
    }
}

impl NonceCache {
    /// At most as many nonces as are kept, each once.
    pub open spec fn wf(&self) -> bool {
        self@.len() <= NONCE_CACHE_SIZE && self@.no_duplicates()
    }

    /// A cache that has seen nothing.
    pub fn new() -> (r: NonceCache)
        ensures
            r@.len() == 0,
            r.wf(),
    {
        NonceCache { seen: VecDeque::new() }
    }

    /// Whether a nonce is remembered.
    fn contains(&self, nonce: &[u8; 16]) -> (r: bool)
        ensures
            r == self@.contains(nonce@),
    {
        let mut i: usize = 0;
        while i < self.seen.len()
            invariant
                i <= self.seen@.len(),
                forall|k: int| 0 <= k < i ==> self@[k] != nonce@,
            decreases self.seen@.len() - i,
        {
            assert(self@[i as int] == self.seen@[i as int]@);
            if same_bytes(&self.seen[i], nonce) {
                return true;
            }
            i += 1;
        }
        false
    }

    /// Returns true if the nonce was already seen. Inserts it if new.
    pub fn check_and_insert(&mut self, nonce: &[u8; 16]) -> (r: bool)
        requires
            old(self).wf(),
        ensures
            r == old(self)@.contains(nonce@),
            final(self)@ == remember(old(self)@, nonce@),
            final(self).wf(),
    {
        let ghost before = self@;
        proof {
            remember_keeps(before, nonce@);
        }
        if self.contains(nonce) {
            return true;
        }
        if self.seen.len() >= NONCE_CACHE_SIZE {
            let _ = self.seen.pop_front();
            assert(self@ =~= before.skip(1));
        }
        let ghost shorter = self@;
        self.seen.push_back(*nonce);
        assert(self@ =~= shorter.push(nonce@));
        false
    }
}

/// Remembering keeps the cache within its size, and nothing twice.
proof fn remember_keeps(seen: Seq<Seq<u8>>, nonce: Seq<u8>)
    requires
        seen.len() <= NONCE_CACHE_SIZE,
        seen.no_duplicates(),
    ensures
        remember(seen, nonce).len() <= NONCE_CACHE_SIZE,
        remember(seen, nonce).no_duplicates(),
        remember(seen, nonce).contains(nonce),
{
    let r = remember(seen, nonce);
    if !seen.contains(nonce) {
        assert(r.last() == nonce);
        assert(r[r.len() - 1] == nonce);
        let off: int = if seen.len() >= NONCE_CACHE_SIZE {
            1
        } else {
            0
        };
        assert forall|i: int, j: int| 0 <= i < r.len() && 0 <= j < r.len() && i != j implies r[i]
            != r[j] by {
            if i < r.len() - 1 {
                assert(r[i] == seen[i + off]);
            }
            if j < r.len() - 1 {
                assert(r[j] == seen[j + off]);
            }
        }
    }
}

/// A nonce that was taken in is recognised when it comes again.
pub proof fn a_replay_is_recognised(seen: Seq<Seq<u8>>, nonce: Seq<u8>)
    requires
        seen.len() <= NONCE_CACHE_SIZE,
        seen.no_duplicates(),
    ensures
        remember(seen, nonce).contains(nonce),
{
    remember_keeps(seen, nonce);
}

/// The nonces remembered after a run of them came in.
pub open spec fn remember_all(seen: Seq<Seq<u8>>, nonces: Seq<Seq<u8>>) -> Seq<Seq<u8>>
    decreases nonces.len(),
{
    if nonces.len() == 0 {
        seen
    } else {
        remember(remember_all(seen, nonces.drop_last()), nonces.last())
    }
}

/// A nonce stays recognised while fewer than the cache's size come after it.
pub proof fn a_replay_is_recognised_within_the_window(
    seen: Seq<Seq<u8>>,
    nonce: Seq<u8>,
    later: Seq<Seq<u8>>,
)
    requires
        seen.len() <= NONCE_CACHE_SIZE,
        seen.no_duplicates(),
        !seen.contains(nonce),
        later.len() < NONCE_CACHE_SIZE,
    ensures
        remember_all(remember(seen, nonce), later).contains(nonce),
{
    let at = position_after(seen, nonce, later);
    assert(remember_all(remember(seen, nonce), later)[at] == nonce);
}

/// Where the nonce stands after a run: it moves at most one place forward each
/// time.
proof fn position_after(seen: Seq<Seq<u8>>, nonce: Seq<u8>, later: Seq<Seq<u8>>) -> (at: int)
    requires
        seen.len() <= NONCE_CACHE_SIZE,
        seen.no_duplicates(),
        !seen.contains(nonce),
        later.len() < NONCE_CACHE_SIZE,
    ensures
        ({
            let all = remember_all(remember(seen, nonce), later);
            &&& all.len() <= NONCE_CACHE_SIZE
            &&& all.no_duplicates()
            &&& 0 <= at < all.len()
            &&& all[at] == nonce
            &&& all.len() == NONCE_CACHE_SIZE ==> at >= NONCE_CACHE_SIZE - 1 - later.len()
            &&& all.len() < NONCE_CACHE_SIZE ==> at >= 0
        }),
    decreases later.len(),
{
    let first = remember(seen, nonce);
    remember_keeps(seen, nonce);
    if later.len() == 0 {
        assert(first.last() == nonce);
        first.len() - 1
    } else {
        let before = remember_all(first, later.drop_last());
        let at = position_after(seen, nonce, later.drop_last());
        remember_keeps(before, later.last());
        if before.contains(later.last()) || before.len() < NONCE_CACHE_SIZE {
            let now = remember(before, later.last());
            if now.len() == NONCE_CACHE_SIZE && before.len() < NONCE_CACHE_SIZE {
                full_means_late(seen, nonce, later, at);
            }
            at
        } else {
            at - 1
        }
    }
}

/// When the cache fills up only now, the nonce stands no further forward than
/// the run that followed it is long.
proof fn full_means_late(seen: Seq<Seq<u8>>, nonce: Seq<u8>, later: Seq<Seq<u8>>, at: int)
    requires
        later.len() > 0,
        seen.len() <= NONCE_CACHE_SIZE,
        seen.no_duplicates(),
        !seen.contains(nonce),
        later.len() < NONCE_CACHE_SIZE,
        ({
            let before = remember_all(remember(seen, nonce), later.drop_last());
            &&& before.len() < NONCE_CACHE_SIZE
            &&& 0 <= at < before.len()
            &&& before[at] == nonce
            &&& before.no_duplicates()
        }),
    ensures
        at >= remember_all(remember(seen, nonce), later.drop_last()).len() - later.len(),
{
    grows_slowly(remember(seen, nonce), later.drop_last(), nonce);
    let before = remember_all(remember(seen, nonce), later.drop_last());
    let first = remember(seen, nonce);
    assert(first[first.len() - 1] == nonce);
    prefix_while_short(first, later.drop_last());
    assert(before[first.len() - 1] == first[first.len() - 1]);
}

/// Each nonce that comes in makes the cache at most one longer.
proof fn grows_slowly(seen: Seq<Seq<u8>>, later: Seq<Seq<u8>>, nonce: Seq<u8>)
    ensures
        remember_all(seen, later).len() <= seen.len() + later.len(),
    decreases later.len(),
{
    if later.len() > 0 {
        grows_slowly(seen, later.drop_last(), nonce);
    }
}

/// While the cache has not been full, it has forgotten nothing.
proof fn prefix_while_short(seen: Seq<Seq<u8>>, later: Seq<Seq<u8>>)
    requires
        remember_all(seen, later).len() < NONCE_CACHE_SIZE,
    ensures
        seen.len() <= remember_all(seen, later).len(),
        forall|i: int| 0 <= i < seen.len() ==> remember_all(seen, later)[i] == seen[i],
    decreases later.len(),
{
    if later.len() > 0 {
        let before = remember_all(seen, later.drop_last());
        assert(before.len() < NONCE_CACHE_SIZE);
        prefix_while_short(seen, later.drop_last());
    }
}


/// Each byte prints as two digits, the upper half first.
pub proof fn each_byte_prints_as_two_digits(b: Seq<u8>, i: int)
    requires
        0 <= i < b.len(),
    ensures
        hex_text(b).len() == 2 * b.len(),
        hex_text(b)[2 * i] == if b[i] / 16 < 10 {
            (48 + b[i] / 16) as char
        } else {
            (87 + b[i] / 16) as char
        },
        hex_text(b)[2 * i + 1] == if b[i] % 16 < 10 {
            (48 + b[i] % 16) as char
        } else {
            (87 + b[i] % 16) as char
        },
    decreases b.len(),
{
    hex_text_len(b);
    if i < b.len() - 1 {
        each_byte_prints_as_two_digits(b.drop_last(), i);
    } else {
        hex_text_len(b.drop_last());
    }
}

/// A nonce is known afterwards exactly if it was known before or is the new one, but
/// that the oldest of a thousand makes way.
pub proof fn what_is_known_after_one_more(seen: Seq<Seq<u8>>, nonce: Seq<u8>, x: Seq<u8>)
    requires
        seen.no_duplicates(),
    ensures
        seen.len() < 1000 || seen.contains(nonce) ==> (remember(seen, nonce).contains(x)
            <==> seen.contains(x) || x == nonce),
        seen.len() >= 1000 && !seen.contains(nonce) ==> (remember(seen, nonce).contains(x)
            <==> (seen.contains(x) && x != seen[0]) || x == nonce),
{
    let r = remember(seen, nonce);
    if !seen.contains(nonce) {
        assert(r[r.len() - 1] == nonce);
        let off: int = if seen.len() >= 1000 {
            1
        } else {
            0
        };
        if seen.contains(x) {
            let k = choose|k: int| 0 <= k < seen.len() && seen[k] == x;
            if k >= off {
                assert(r[k - off] == x);
            }
        }
        if r.contains(x) && x != nonce {
            let k = choose|k: int| 0 <= k < r.len() && r[k] == x;
            assert(seen[k + off] == x);
        }
    }
}

/// What is shown of a key pair is both keys, each under what it is for.
pub proof fn both_keys_are_shown(private_key: Seq<u8>, public_key: Seq<u8>)
    ensures
        keys_shown(private_key, public_key)
            == "Private key (store in SOPS, deploy to private_key_file):\n"@ + base64_text(private_key)
            + "\n\nPublic key (add to peers config):\n"@ + base64_text(public_key) + "\n"@,
{
}

} // verus!
