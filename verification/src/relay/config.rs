//! The relay's configuration.

use vstd::prelude::*;

use crate::number::{dec, decimal};
use crate::relay::crypto::{
    base64_decode, base64_read, base64_text, ed25519_public, key_text, public_key,
};
use crate::relay::protocol::bytes32;
use crate::text::{cat2, cat3, cat4, cat5, chars, find, first_at_is_first, same, text, trim,
    trimmed};

verus! {

/// The whole configuration.
#[derive(Debug, PartialEq, Eq)]
pub struct Config {
    pub general: GeneralConfig,
    pub retry: RetryConfig,
    pub peers: Vec<PeerConfig>,
}

/// `[general]`. Paths are kept as the text they are written as.
#[derive(Debug, PartialEq, Eq)]
pub struct GeneralConfig {
    pub listen_port: u16,
    pub plugkill_socket: String,
    pub poll_interval_ms: u64,
    pub private_key_file: Option<String>,
}

impl GeneralConfig {
    /// Whether this is `[general]` with nothing set.
    pub open spec fn is_default(self) -> bool {
        &&& self.listen_port == 7654
        &&& self.plugkill_socket@ == "/run/plugkill/plugkill.sock"@
        &&& self.poll_interval_ms == 250
        &&& self.private_key_file is None
    }
}

impl Default for GeneralConfig {
    fn default() -> (r: GeneralConfig)
        ensures
            r.is_default(),
    {
        GeneralConfig {
            listen_port: 7654,
            plugkill_socket: "/run/plugkill/plugkill.sock".to_owned(),
            poll_interval_ms: 250,
            private_key_file: None,
        }
    }
}

/// `[retry]`
#[derive(Debug, PartialEq, Eq)]
pub struct RetryConfig {
    pub ack_timeout_ms: u64,
    pub max_retries: u32,
}

impl RetryConfig {
    /// Whether this is `[retry]` with nothing set.
    pub open spec fn is_default(self) -> bool {
        self.ack_timeout_ms == 50 && self.max_retries == 3
    }
}

impl Default for RetryConfig {
    fn default() -> (r: RetryConfig)
        ensures
            r.is_default(),
    {
        RetryConfig { ack_timeout_ms: 50, max_retries: 3 }
    }
}

/// One machine of the mesh. Without addresses it only sends.
#[derive(Debug, PartialEq, Eq)]
pub struct PeerConfig {
    pub name: String,
    pub pubkey: String,
    pub addresses: Vec<String>,
}

/// The public key of a peer, or why there is none.
pub open spec fn peer_key(p: PeerConfig) -> Result<Seq<u8>, Seq<char>> {
    match base64_read(p.pubkey@) {
        Err(e) => Err("peer '"@ + p.name@ + "': invalid base64 pubkey: "@ + e),
        Ok(b) => if b.len() == 32 {
            Ok(b)
        } else {
            Err("peer '"@ + p.name@ + "': pubkey must be 32 bytes, got "@ + dec(b.len()))
        },
    }
}

/// Whether a peer has this public key.
pub open spec fn has_key(p: PeerConfig, key: Seq<u8>) -> bool {
    peer_key(p) == Ok::<Seq<u8>, Seq<char>>(key)
}

impl PeerConfig {
    /// The public key, out of its base64 form.
    pub fn decode_pubkey(&self) -> (r: Result<[u8; 32], String>)
        ensures
            match r {
                Ok(key) => peer_key(*self) == Ok::<Seq<u8>, Seq<char>>(key@),
                Err(e) => peer_key(*self) == Err::<Seq<u8>, Seq<char>>(e@),
            },
    {
        match base64_decode(self.pubkey.as_str()) {
            Err(e) => Err(
                cat4("peer '", self.name.as_str(), "': invalid base64 pubkey: ", e.as_str()),
            ),
            Ok(b) => {
                if b.len() == 32 {
                    let key = bytes32(b.as_slice(), 0);
                    assert(b@.subrange(0, 32) =~= b@);
                    Ok(key)
                } else {
                    let n = decimal(b.len() as u64);
                    Err(
                        cat4(
                            "peer '",
                            self.name.as_str(),
                            "': pubkey must be 32 bytes, got ",
                            n.as_str(),
                        ),
                    )
                }
            },
        }
    }
}

/// The private key in a key file, or why there is none.
pub open spec fn private_key(contents: Seq<char>) -> Result<Seq<u8>, Seq<char>> {
    match base64_read(trimmed(contents)) {
        Err(e) => Err("private key is not valid base64: "@ + e),
        Ok(b) => if b.len() == 32 {
            Ok(b)
        } else {
            Err("private key must be 32 bytes, got "@ + dec(b.len()))
        },
    }
}

/// The private key in the text of a key file.
pub fn load_private_key(contents: &str) -> (r: Result<[u8; 32], String>)
    ensures
        match r {
            Ok(key) => private_key(contents@) == Ok::<Seq<u8>, Seq<char>>(key@),
            Err(e) => private_key(contents@) == Err::<Seq<u8>, Seq<char>>(e@),
        },
{
    let all = chars(contents);
    let inner = text(trim(all.as_slice()));
    match base64_decode(inner.as_str()) {
        Err(e) => Err(cat2("private key is not valid base64: ", e.as_str())),
        Ok(b) => {
            if b.len() == 32 {
                let key = bytes32(b.as_slice(), 0);
                assert(b@.subrange(0, 32) =~= b@);
                Ok(key)
            } else {
                let n = decimal(b.len() as u64);
                Err(cat2("private key must be 32 bytes, got ", n.as_str()))
            }
        },
    }
}

/// The public key that belongs to the private key in the text of a key file, in
/// base64.
pub fn show_pubkey(contents: &str) -> (r: Result<String, String>)
    ensures
        match private_key(contents@) {
            Ok(key) => r matches Ok(s) && s@ == base64_text(ed25519_public(key)),
            Err(e) => r matches Err(m) && m@ == e,
        },
{
    match load_private_key(contents) {
        Ok(key) => Ok(key_text(&public_key(&key))),
        Err(e) => Err(e),
    }
}

/// What is wrong with the first address, at or after position `i`, that names
/// no port.
pub open spec fn address_complaint(p: PeerConfig, i: int) -> Option<Seq<char>>
    decreases p.addresses@.len() - i,
{
    if i >= p.addresses@.len() || i < 0 {
        None
    } else if !p.addresses@[i]@.contains(':') {
        Some(
            "peer '"@ + p.name@ + "': address '"@ + p.addresses@[i]@
                + "' must include a port (host:port)"@,
        )
    } else {
        address_complaint(p, i + 1)
    }
}

/// Whether an earlier peer has the same name.
pub open spec fn named_before(peers: Seq<PeerConfig>, i: int) -> bool {
    exists|j: int| 0 <= j < i && (#[trigger] peers[j]).name@ == peers[i].name@
}

/// What is wrong with the peer at position `i`.
pub open spec fn complaint_on(peers: Seq<PeerConfig>, i: int) -> Option<Seq<char>> {
    let p = peers[i];
    if p.name@.len() == 0 {
        Some("peer name must not be empty"@)
    } else if named_before(peers, i) {
        Some("duplicate peer name: '"@ + p.name@ + "'"@)
    } else {
        match peer_key(p) {
            Err(e) => Some(e),
            Ok(_) => address_complaint(p, 0),
        }
    }
}

/// What is wrong with the first peer, at or after position `i`, that anything
/// is wrong with.
pub open spec fn peers_complaint(peers: Seq<PeerConfig>, i: int) -> Option<Seq<char>>
    decreases peers.len() - i,
{
    if i >= peers.len() || i < 0 {
        None
    } else if complaint_on(peers, i) is Some {
        complaint_on(peers, i)
    } else {
        peers_complaint(peers, i + 1)
    }
}

/// What is wrong with a configuration.
pub open spec fn complaint(c: Config) -> Option<Seq<char>> {
    match c.general.private_key_file {
        None => Some("general.private_key_file is required"@),
        Some(path) => if !(path@.len() > 0 && path@[0] == '/') {
            Some("private_key_file must be an absolute path, got: "@ + path@)
        } else if c.general.poll_interval_ms < 50 {
            Some("poll_interval_ms must be >= 50"@)
        } else if c.general.poll_interval_ms > 10000 {
            Some("poll_interval_ms must be <= 10000"@)
        } else if c.retry.ack_timeout_ms < 10 {
            Some("ack_timeout_ms must be >= 10"@)
        } else if c.retry.max_retries > 10 {
            Some("max_retries must be <= 10"@)
        } else {
            peers_complaint(c.peers@, 0)
        },
    }
}

fn check_addresses(p: &PeerConfig) -> (r: Result<(), String>)
    ensures
        match r {
            Ok(_) => address_complaint(*p, 0) is None,
            Err(e) => address_complaint(*p, 0) == Some(e@),
        },
{
    let mut i: usize = 0;
    while i < p.addresses.len()
        invariant
            i <= p.addresses@.len(),
            address_complaint(*p, 0) == address_complaint(*p, i as int),
        decreases p.addresses@.len() - i,
    {
        let cs = chars(p.addresses[i].as_str());
        let at = find(cs.as_slice(), ':');
        proof {
            first_at_is_first(cs@, ':', 0);
            if cs@.contains(':') {
                let k = choose|k: int| 0 <= k < cs@.len() && cs@[k] == ':';
                assert(at <= k);
            }
        }
        if at == cs.len() {
            return Err(
                cat5(
                    "peer '",
                    p.name.as_str(),
                    "': address '",
                    p.addresses[i].as_str(),
                    "' must include a port (host:port)",
                ),
            );
        }
        assert(cs@[at as int] == ':');
        i += 1;
    }
    Ok(())
}

fn check_peer(peers: &[PeerConfig], i: usize) -> (r: Result<(), String>)
    requires
        i < peers@.len(),
    ensures
        match r {
            Ok(_) => complaint_on(peers@, i as int) is None,
            Err(e) => complaint_on(peers@, i as int) == Some(e@),
        },
{
    let p = &peers[i];
    if p.name.as_str().is_empty() {
        return Err("peer name must not be empty".to_owned());
    }
    let mut j: usize = 0;
    while j < i
        invariant
            j <= i,
            i < peers@.len(),
            *p == peers@[i as int],
            p.name@.len() > 0,
            forall|k: int| 0 <= k < j ==> (#[trigger] peers@[k]).name@ != p.name@,
        decreases i - j,
    {
        if same(peers[j].name.as_str(), p.name.as_str()) {
            assert(named_before(peers@, i as int));
            return Err(cat3("duplicate peer name: '", p.name.as_str(), "'"));
        }
        j += 1;
    }
    assert(!named_before(peers@, i as int));
    match p.decode_pubkey() {
        Err(e) => Err(e),
        Ok(_) => check_addresses(p),
    }
}

/// Whether a configuration can be run with, or what is wrong with it.
pub fn validate(config: &Config) -> (r: Result<(), String>)
    ensures
        match r {
            Ok(_) => complaint(*config) is None,
            Err(e) => complaint(*config) == Some(e@),
        },
{
    let path = match &config.general.private_key_file {
        None => {
            return Err("general.private_key_file is required".to_owned());
        },
        Some(path) => path,
    };
    let cs = chars(path.as_str());
    if cs.len() == 0 || cs[0] != '/' {
        return Err(cat2("private_key_file must be an absolute path, got: ", path.as_str()));
    }
    if config.general.poll_interval_ms < 50 {
        return Err("poll_interval_ms must be >= 50".to_owned());
    }
    if config.general.poll_interval_ms > 10000 {
        return Err("poll_interval_ms must be <= 10000".to_owned());
    }
    if config.retry.ack_timeout_ms < 10 {
        return Err("ack_timeout_ms must be >= 10".to_owned());
    }
    if config.retry.max_retries > 10 {
        return Err("max_retries must be <= 10".to_owned());
    }
    let mut i: usize = 0;
    while i < config.peers.len()
        invariant
            i <= config.peers@.len(),
            complaint(*config) == peers_complaint(config.peers@, 0),
            peers_complaint(config.peers@, 0) == peers_complaint(config.peers@, i as int),
        decreases config.peers@.len() - i,
    {
        if let Err(e) = check_peer(config.peers.as_slice(), i) {
            return Err(e);
        }
        i += 1;
    }
    Ok(())
}

/// A configuration that is accepted gives every peer a name of its own and a
/// readable key.
pub proof fn accepted_peers_are_distinct(c: Config, i: int, j: int)
    requires
        complaint(c) is None,
        0 <= i < j < c.peers@.len(),
    ensures
        c.peers@[i].name@ != c.peers@[j].name@,
        peer_key(c.peers@[i]) is Ok,
        peer_key(c.peers@[j]) is Ok,
        c.retry.max_retries <= 10,
{
    no_complaint_until(c.peers@, 0, i);
    no_complaint_until(c.peers@, 0, j);
    assert(!named_before(c.peers@, j));
}

proof fn no_complaint_until(peers: Seq<PeerConfig>, i: int, at: int)
    requires
        0 <= i <= at < peers.len(),
        peers_complaint(peers, i) is None,
    ensures
        complaint_on(peers, at) is None,
    decreases at - i,
{
    if i < at {
        no_complaint_until(peers, i + 1, at);
    }
}

/// A starting point for a configuration file.
pub fn default_config_toml() -> (r: &'static str)
    ensures
        r@ == DEFAULT_CONFIG_TOML@,
{
    DEFAULT_CONFIG_TOML
}

/// A starting point for a configuration file.
pub const DEFAULT_CONFIG_TOML: &'static str = "# plugkill-relay configuration\n\n[general]\n# UDP port to listen on\nlisten_port = 7654\n\n# Path to plugkill's Unix socket\nplugkill_socket = \"/run/plugkill/plugkill.sock\"\n\n# How often to poll plugkill status (ms, 50-10000)\npoll_interval_ms = 250\n\n# Path to this node's ed25519 private key (base64, 32 bytes)\nprivate_key_file = \"/etc/plugkill-relay/key.priv\"\n\n[retry]\n# Time to wait for ACK before retrying (ms)\nack_timeout_ms = 50\n\n# Maximum retry attempts per peer\nmax_retries = 3\n\n# [[peers]]\n# name = \"ted\"\n# pubkey = \"base64-encoded-ed25519-pubkey\"\n# addresses = [\"ted.tail12345.ts.net:7654\", \"192.168.1.10:7654\"]\n#\n# [[peers]]\n# name = \"android\"\n# pubkey = \"base64-encoded-ed25519-pubkey\"\n# # send-only peer \u{2014} no addresses needed\n";

/// What a configuration has to be to be accepted: a private key file by an absolute
/// path, a poll interval of 50 to 10000 ms, an answer awaited for at least 10 ms and at
/// most ten retries, and peers with a name each of its own, a public key of 32 bytes
/// in base64, and addresses that name a port.
pub proof fn a_config_is_accepted_exactly_when(c: Config)
    ensures
        complaint(c) is None <==> {
            &&& c.general.private_key_file matches Some(path) && path@.len() > 0 && path@[0] == '/'
            &&& 50 <= c.general.poll_interval_ms <= 10000
            &&& c.retry.ack_timeout_ms >= 10
            &&& c.retry.max_retries <= 10
            &&& forall|i: int| 0 <= i < c.peers@.len() ==> {
                &&& (#[trigger] c.peers@[i]).name@.len() > 0
                &&& base64_read(c.peers@[i].pubkey@) matches Ok(b) && b.len() == 32
                &&& forall|k: int|
                    0 <= k < c.peers@[i].addresses@.len()
                        ==> (#[trigger] c.peers@[i].addresses@[k])@.contains(':')
            }
            &&& forall|i: int, j: int|
                0 <= i < j < c.peers@.len() ==> (#[trigger] c.peers@[i]).name@ != (
                #[trigger] c.peers@[j]).name@
        },
{
    peers_are_fine_exactly_when(c.peers@, 0);
}

proof fn addresses_are_fine_exactly_when(p: PeerConfig, i: int)
    requires
        0 <= i,
    ensures
        address_complaint(p, i) is None <==> forall|k: int|
            i <= k < p.addresses@.len() ==> (#[trigger] p.addresses@[k])@.contains(':'),
    decreases p.addresses@.len() - i,
{
    if i < p.addresses@.len() {
        addresses_are_fine_exactly_when(p, i + 1);
    }
}

proof fn peers_are_fine_exactly_when(peers: Seq<PeerConfig>, i: int)
    requires
        0 <= i,
    ensures
        peers_complaint(peers, i) is None <==> forall|k: int| i <= k < peers.len() ==> {
            &&& (#[trigger] peers[k]).name@.len() > 0
            &&& base64_read(peers[k].pubkey@) matches Ok(b) && b.len() == 32
            &&& forall|a: int|
                0 <= a < peers[k].addresses@.len() ==> (#[trigger] peers[k].addresses@[a])@.contains(
                    ':',
                )
            &&& forall|j: int| 0 <= j < k ==> (#[trigger] peers[j]).name@ != peers[k].name@
        },
    decreases peers.len() - i,
{
    if i < peers.len() {
        peers_are_fine_exactly_when(peers, i + 1);
        addresses_are_fine_exactly_when(peers[i], 0);
    }
}

/// The private key is the 32 bytes that the text of its file, trimmed, is the base64
/// of, and nothing else is one.
pub proof fn a_private_key_is_thirty_two_bytes(contents: Seq<char>, key: Seq<u8>)
    ensures
        private_key(contents) == Ok::<Seq<u8>, Seq<char>>(key) <==> base64_read(trimmed(contents))
            == Ok::<Seq<u8>, Seq<char>>(key) && key.len() == 32,
{
}

} // verus!
