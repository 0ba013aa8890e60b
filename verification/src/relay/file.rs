//! The relay's configuration file. A key that the file leaves out takes its default;
//! a key that nobody knows, or a value of the wrong kind, makes the section it stands
//! in unreadable. A section may also be a list of its values in the order of its
//! keys.

use vstd::prelude::*;

use super::config::{complaint, validate, Config, GeneralConfig, PeerConfig, RetryConfig};
use crate::decode::{
    field, field_of, held, is_table, number_or, read_if_any, read_number_or, read_text_or,
    read_texts, table_of, text_if_any, text_or, texts_in, told,
};
use crate::document::{read, toml_read};
use crate::json::Json;
use crate::text::{cat2, cat4, views};

verus! {

/// The sections.
pub const SECTIONS: [&'static str; 3] = ["general", "retry", "peers"];

/// The keys of `[general]`, `[retry]` and one of `[[peers]]`.
pub const GENERAL: [&'static str; 4] = [
    "listen_port",
    "plugkill_socket",
    "poll_interval_ms",
    "private_key_file",
];

pub const RETRY: [&'static str; 2] = ["ack_timeout_ms", "max_retries"];

pub const PEER: [&'static str; 3] = ["name", "pubkey", "addresses"];

/// Whether a value is a table of known keys, or a list of at least so many values.
pub open spec fn section(j: Json, known: Seq<&'static str>, least: int) -> bool {
    match j {
        Json::Array(v) => v@.len() >= least,
        _ => table_of(j, known),
    }
}

fn is_section(j: &Json, known: &[&'static str], least: usize) -> (r: bool)
    ensures
        r == section(*j, known@, least as int),
{
    match j {
        Json::Array(v) => v.len() >= least,
        _ => is_table(j, known),
    }
}

/// A number no greater than a bound, or its default.
pub open spec fn bounded(j: Option<Json>, d: u64, most: u64) -> Option<u64> {
    match number_or(j, d) {
        Some(n) => if n <= most {
            Some(n)
        } else {
            None
        },
        None => None,
    }
}

fn read_bounded(j: Option<&Json>, d: u64, most: u64) -> (r: Option<u64>)
    ensures
        r == bounded(held(j), d, most),
{
    match read_number_or(j, d) {
        Some(n) => if n <= most {
            Some(n)
        } else {
            None
        },
        None => None,
    }
}

// ---- [general] -----------------------------------------------------------

/// Whether a value is `[general]`.
pub open spec fn general_reads(j: Json) -> bool {
    &&& section(j, GENERAL@, 4)
    &&& bounded(field(j, "listen_port"@, 0), 7654, 65535) is Some
    &&& text_or(field(j, "plugkill_socket"@, 1), "/run/plugkill/plugkill.sock"@) is Some
    &&& number_or(field(j, "poll_interval_ms"@, 2), 250) is Some
    &&& text_if_any(field(j, "private_key_file"@, 3)) is Some
}

/// Whether this is the `[general]` a value holds.
pub open spec fn general_is(g: GeneralConfig, j: Json) -> bool {
    &&& bounded(field(j, "listen_port"@, 0), 7654, 65535) == Some(g.listen_port as u64)
    &&& text_or(field(j, "plugkill_socket"@, 1), "/run/plugkill/plugkill.sock"@) == Some(
        g.plugkill_socket@,
    )
    &&& number_or(field(j, "poll_interval_ms"@, 2), 250) == Some(g.poll_interval_ms)
    &&& text_if_any(field(j, "private_key_file"@, 3)) == Some(told(g.private_key_file))
}

fn read_general(j: &Json) -> (r: Option<GeneralConfig>)
    ensures
        match r {
            Some(g) => general_reads(*j) && general_is(g, *j),
            None => !general_reads(*j),
        },
{
    if !is_section(j, GENERAL.as_slice(), 4) {
        return None;
    }
    match (
        read_bounded(field_of(j, "listen_port", 0), 7654, 65535),
        read_text_or(field_of(j, "plugkill_socket", 1), "/run/plugkill/plugkill.sock"),
        read_number_or(field_of(j, "poll_interval_ms", 2), 250),
        read_if_any(field_of(j, "private_key_file", 3)),
    ) {
        (Some(port), Some(plugkill_socket), Some(poll_interval_ms), Some(private_key_file)) => Some(
            GeneralConfig {
                listen_port: port as u16,
                plugkill_socket,
                poll_interval_ms,
                private_key_file,
            },
        ),
        _ => None,
    }
}

// ---- [retry] -------------------------------------------------------------

/// Whether a value is `[retry]`.
pub open spec fn retry_reads(j: Json) -> bool {
    &&& section(j, RETRY@, 0)
    &&& number_or(field(j, "ack_timeout_ms"@, 0), 50) is Some
    &&& bounded(field(j, "max_retries"@, 1), 3, u32::MAX as u64) is Some
}

/// Whether this is the `[retry]` a value holds.
pub open spec fn retry_is(r: RetryConfig, j: Json) -> bool {
    &&& number_or(field(j, "ack_timeout_ms"@, 0), 50) == Some(r.ack_timeout_ms)
    &&& bounded(field(j, "max_retries"@, 1), 3, u32::MAX as u64) == Some(r.max_retries as u64)
}

fn read_retry(j: &Json) -> (r: Option<RetryConfig>)
    ensures
        match r {
            Some(c) => retry_reads(*j) && retry_is(c, *j),
            None => !retry_reads(*j),
        },
{
    if !is_section(j, RETRY.as_slice(), 0) {
        return None;
    }
    match (
        read_number_or(field_of(j, "ack_timeout_ms", 0), 50),
        read_bounded(field_of(j, "max_retries", 1), 3, u32::MAX as u64),
    ) {
        (Some(ack_timeout_ms), Some(n)) => Some(
            RetryConfig { ack_timeout_ms, max_retries: n as u32 },
        ),
        _ => None,
    }
}

// ---- [[peers]] -----------------------------------------------------------

/// Whether a value is a peer.
pub open spec fn peer_reads(j: Json) -> bool {
    &&& section(j, PEER@, 2)
    &&& text_if_any(field(j, "name"@, 0)) matches Some(Some(_))
    &&& text_if_any(field(j, "pubkey"@, 1)) matches Some(Some(_))
    &&& texts_in(field(j, "addresses"@, 2)) is Some
}

/// Whether this is the peer a value holds.
pub open spec fn peer_is(p: PeerConfig, j: Json) -> bool {
    &&& text_if_any(field(j, "name"@, 0)) == Some(Some(p.name@))
    &&& text_if_any(field(j, "pubkey"@, 1)) == Some(Some(p.pubkey@))
    &&& texts_in(field(j, "addresses"@, 2)) == Some(views(p.addresses@))
}

fn read_peer(j: &Json) -> (r: Option<PeerConfig>)
    ensures
        match r {
            Some(p) => peer_reads(*j) && peer_is(p, *j),
            None => !peer_reads(*j),
        },
{
    if !is_section(j, PEER.as_slice(), 2) {
        return None;
    }
    match (
        read_if_any(field_of(j, "name", 0)),
        read_if_any(field_of(j, "pubkey", 1)),
        read_texts(field_of(j, "addresses", 2)),
    ) {
        (Some(Some(name)), Some(Some(pubkey)), Some(addresses)) => Some(
            PeerConfig { name, pubkey, addresses },
        ),
        _ => None,
    }
}

/// Whether each of these is a peer.
pub open spec fn all_peers(v: Seq<Json>) -> bool {
    forall|i: int| 0 <= i < v.len() ==> peer_reads(#[trigger] v[i])
}

/// Whether these are the peers that values hold.
pub open spec fn peers_are(ps: Seq<PeerConfig>, v: Seq<Json>) -> bool {
    &&& ps.len() == v.len()
    &&& forall|i: int| 0 <= i < ps.len() ==> peer_is(#[trigger] ps[i], v[i])
}

fn read_peers(v: &[Json]) -> (r: Option<Vec<PeerConfig>>)
    ensures
        match r {
            Some(ps) => all_peers(v@) && peers_are(ps@, v@),
            None => !all_peers(v@),
        },
{
    let mut out: Vec<PeerConfig> = Vec::new();
    let mut i: usize = 0;
    while i < v.len()
        invariant
            i <= v@.len(),
            out@.len() == i,
            forall|k: int| 0 <= k < i ==> peer_reads(#[trigger] v@[k]) && peer_is(out@[k], v@[k]),
        decreases v@.len() - i,
    {
        match read_peer(&v[i]) {
            Some(p) => {
                out.push(p);
            },
            None => {
                assert(!all_peers(v@));
                return None;
            },
        }
        i += 1;
    }
    assert forall|k: int| 0 <= k < out@.len() implies peer_is(#[trigger] out@[k], v@[k]) by {
        assert(peer_reads(v@[k]));
    }
    Some(out)
}

// ---- the file ------------------------------------------------------------

/// Whether a file has the shape of a configuration: known sections, each of which can
/// be read.
pub open spec fn in_shape(j: Json) -> bool {
    &&& table_of(j, SECTIONS@)
    &&& j.at("general"@) matches Some(g) ==> general_reads(g)
    &&& j.at("retry"@) matches Some(r) ==> retry_reads(r)
    &&& j.at("peers"@) matches Some(p) ==> p.items() matches Some(v) && all_peers(v)
}

/// Whether this is the configuration a file holds.
pub open spec fn config_is(c: Config, j: Json) -> bool {
    &&& match j.at("general"@) {
        Some(g) => general_is(c.general, g),
        None => c.general.is_default(),
    }
    &&& match j.at("retry"@) {
        Some(r) => retry_is(c.retry, r),
        None => c.retry.is_default(),
    }
    &&& match j.at("peers"@) {
        Some(p) => p.items() matches Some(v) && peers_are(c.peers@, v),
        None => c.peers@.len() == 0,
    }
}

/// The configuration a file holds, `None` where it has another shape.
pub fn read_config(j: &Json) -> (r: Option<Config>)
    ensures
        match r {
            Some(c) => in_shape(*j) && config_is(c, *j),
            None => !in_shape(*j),
        },
{
    if !is_table(j, SECTIONS.as_slice()) {
        return None;
    }
    let general = match j.get("general") {
        Some(g) => match read_general(g) {
            Some(g) => g,
            None => {
                return None;
            },
        },
        None => GeneralConfig::default(),
    };
    let retry = match j.get("retry") {
        Some(t) => match read_retry(t) {
            Some(t) => t,
            None => {
                return None;
            },
        },
        None => RetryConfig::default(),
    };
    let peers = match j.get("peers") {
        Some(p) => {
            let read = match p.as_array() {
                Some(v) => read_peers(v),
                None => None,
            };
            match read {
                Some(ps) => ps,
                None => {
                    return None;
                },
            }
        },
        None => Vec::new(),
    };
    Some(Config { general, retry, peers })
}

/// Whether a file was taken for what it holds: refused for its shape, in the words
/// given for that, or for what is wrong with the configuration, and otherwise loaded.
pub open spec fn loaded(r: Result<Config, String>, j: Json, words: Seq<char>) -> bool {
    if in_shape(j) {
        exists|c: Config| #[trigger] config_is(c, j) && settled(r, c)
    } else {
        r matches Err(m) && m@ == "failed to parse config: "@ + words
    }
}

/// Whether a configuration was checked.
pub open spec fn settled(r: Result<Config, String>, c: Config) -> bool {
    match complaint(c) {
        Some(e) => r matches Err(m) && m@ == e,
        None => r == Ok::<Config, String>(c),
    }
}

/// Whether a text was parsed for what it holds.
pub open spec fn parsed(r: Result<Config, String>, text: Seq<char>, words: Seq<char>) -> bool {
    match toml_read(text) {
        Err(e) => r matches Err(m) && m@ == "failed to parse config: "@ + e,
        Ok(m) => exists|j: Json| #[trigger] j.model() == m && loaded(r, j, words),
    }
}

/// Load a configuration out of the value its file holds. `words` say what is wrong
/// with its shape.
pub fn load_value(j: &Json, words: &str) -> (r: Result<Config, String>)
    ensures
        loaded(r, *j, words@),
{
    match read_config(j) {
        None => Err(cat2("failed to parse config: ", words)),
        Some(config) => {
            assert(config_is(config, *j));
            match validate(&config) {
                Ok(_) => Ok(config),
                Err(e) => Err(e),
            }
        },
    }
}

/// Load a configuration file. `contents` is its text, or why it could not be read.
/// Where the text is TOML of another shape, the refusal is in `words`: what a reader
/// that knows the keys and their lines says of it.
pub fn load(path: &str, contents: Result<String, String>, words: &str) -> (r: Result<
    Config,
    String,
>)
    ensures
        match contents {
            Err(e) => r matches Err(m) && m@ == "failed to read config "@ + path@ + ": "@ + e@,
            Ok(text) => parsed(r, text@, words@),
        },
{
    let text = match contents {
        Ok(text) => text,
        Err(e) => {
            return Err(cat4("failed to read config ", path, ": ", e.as_str()));
        },
    };
    match read(text.as_str()) {
        Ok(j) => {
            let r = load_value(&j, words);
            assert(j.model() == toml_read(text@)->Ok_0);
            r
        },
        Err(e) => Err(cat2("failed to parse config: ", e.as_str())),
    }
}

/// A configuration that loads is one nothing is wrong with.
pub proof fn what_loads_is_sound(r: Result<Config, String>, text: Seq<char>, words: Seq<char>)
    requires
        parsed(r, text, words),
    ensures
        r matches Ok(c) ==> complaint(c) is None,
{
}

/// A setting of the relay is what its key says, and its default where the key, or the
/// section, is left out.
pub proof fn a_setting_is_what_its_key_says(c: Config, j: Json)
    requires
        config_is(c, j),
    ensures
        j.at("general"@) is None ==> c.general.listen_port == 7654 && c.general.poll_interval_ms == 250
            && c.general.plugkill_socket@ == "/run/plugkill/plugkill.sock"@
            && c.general.private_key_file is None,
        j.at("general"@) matches Some(g) ==> (g is Object ==> {
            &&& g.at("listen_port"@) == Some(Json::Uint(c.general.listen_port as u64)) || (g.at(
                "listen_port"@,
            ) is None && c.general.listen_port == 7654)
            &&& g.at("poll_interval_ms"@) == Some(Json::Uint(c.general.poll_interval_ms)) || (g.at(
                "poll_interval_ms"@,
            ) is None && c.general.poll_interval_ms == 250)
            &&& (g.at("plugkill_socket"@) matches Some(Json::Str(s)) && s@
                == c.general.plugkill_socket@) || (g.at("plugkill_socket"@) is None
                && c.general.plugkill_socket@ == "/run/plugkill/plugkill.sock"@)
            &&& match c.general.private_key_file {
                Some(p) => g.at("private_key_file"@) matches Some(Json::Str(s)) && s@ == p@,
                None => g.at("private_key_file"@) is None,
            }
        }),
        j.at("retry"@) is None ==> c.retry.ack_timeout_ms == 50 && c.retry.max_retries == 3,
        j.at("retry"@) matches Some(r) ==> (r is Object ==> {
            &&& r.at("ack_timeout_ms"@) == Some(Json::Uint(c.retry.ack_timeout_ms)) || (r.at(
                "ack_timeout_ms"@,
            ) is None && c.retry.ack_timeout_ms == 50)
            &&& r.at("max_retries"@) == Some(Json::Uint(c.retry.max_retries as u64)) || (r.at(
                "max_retries"@,
            ) is None && c.retry.max_retries == 3)
        }),
        j.at("peers"@) is None ==> c.peers@.len() == 0,
{
}

/// A peer is what its table says: the name, the key, and the addresses in order.
pub proof fn a_peer_is_what_its_table_says(c: Config, j: Json, i: int)
    requires
        config_is(c, j),
        0 <= i < c.peers@.len(),
    ensures
        ({
            let p = c.peers@[i];
            &&& j.at("peers"@) matches Some(Json::Array(v))
            &&& v@.len() == c.peers@.len()
            &&& v@[i] is Object ==> {
                &&& v@[i].at("name"@) matches Some(Json::Str(s)) && s@ == p.name@
                &&& v@[i].at("pubkey"@) matches Some(Json::Str(s)) && s@ == p.pubkey@
                &&& v@[i].at("addresses"@) is None ==> p.addresses@.len() == 0
                &&& v@[i].at("addresses"@) matches Some(a) ==> (a matches Json::Array(w) && w@.len()
                    == p.addresses@.len() && forall|k: int|
                    0 <= k < w@.len() ==> (#[trigger] w@[k] matches Json::Str(s) && s@
                        == p.addresses@[k]@))
            }
        }),
{
    let p = c.peers@[i];
    let v = j.at("peers"@)->0->Array_0@;
    assert(peer_is(p, v[i]));
    assert(views(p.addresses@).len() == p.addresses@.len());
    if v[i] is Object {
        if let Some(a) = v[i].at("addresses"@) {
            crate::decode::texts_are_read_one_by_one(a);
            let w = a->Array_0@;
            assert forall|k: int| 0 <= k < w.len() implies (#[trigger] w[k] matches Json::Str(s) && s@
                == p.addresses@[k]@) by {
                assert(views(p.addresses@)[k] == p.addresses@[k]@);
            }
        }
    }
}

/// The settings of a relay file that is read are each of their kind, a port is one that
/// there is, and each peer has a name and a key.
pub proof fn every_setting_is_of_its_kind(j: Json, i: int)
    requires
        in_shape(j),
    ensures
        j is Object,
        j.at("general"@) matches Some(g) ==> (g is Object ==> {
            &&& g.at("listen_port"@) is None || (g.at("listen_port"@) matches Some(Json::Uint(n)) && n
                <= 65535)
            &&& g.at("poll_interval_ms"@) is None || (g.at("poll_interval_ms"@) matches Some(
                Json::Uint(_),
            ))
            &&& g.at("plugkill_socket"@) is None || (g.at("plugkill_socket"@) matches Some(
                Json::Str(_),
            ))
            &&& g.at("private_key_file"@) is None || (g.at("private_key_file"@) matches Some(
                Json::Str(_),
            ))
        }),
        j.at("general"@) matches Some(g) ==> g is Object || (g matches Json::Array(v) && v@.len() >= 4),
        j.at("retry"@) matches Some(r) ==> (r is Object ==> {
            &&& r.at("ack_timeout_ms"@) is None || (r.at("ack_timeout_ms"@) matches Some(Json::Uint(_)))
            &&& r.at("max_retries"@) is None || (r.at("max_retries"@) matches Some(Json::Uint(n)) && n
                <= 4294967295)
        }),
        j.at("peers"@) matches Some(p) ==> (p matches Json::Array(v) && (0 <= i < v@.len()
            && v@[i] is Object ==> (v@[i].at("name"@) matches Some(Json::Str(_))) && (v@[i].at(
            "pubkey"@,
        ) matches Some(Json::Str(_))))),
{
    if let Some(p) = j.at("peers"@) {
        if let Json::Array(v) = p {
            if 0 <= i < v@.len() {
                assert(peer_reads(v@[i]));
            }
        }
    }
}

/// The keys that the relay's sections know.
pub proof fn the_keys_of_each_section(k: Seq<char>)
    ensures
        crate::decode::is_known(k, SECTIONS@) <==> k == "general"@ || k == "retry"@ || k == "peers"@,
        crate::decode::is_known(k, RETRY@) <==> k == "ack_timeout_ms"@ || k == "max_retries"@,
        crate::decode::is_known(k, PEER@) <==> k == "name"@ || k == "pubkey"@ || k == "addresses"@,
        crate::decode::is_known(k, GENERAL@) <==> k == "listen_port"@ || k == "plugkill_socket"@ || k
            == "poll_interval_ms"@ || k == "private_key_file"@,
{
    known_by_place(k, SECTIONS@);
    known_by_place(k, RETRY@);
    known_by_place(k, PEER@);
    known_by_place(k, GENERAL@);
}

proof fn known_by_place(k: Seq<char>, known: Seq<&'static str>)
    requires
        2 <= known.len() <= 4,
    ensures
        crate::decode::is_known(k, known) <==> known[0]@ == k || known[1]@ == k || (known.len() > 2
            && known[2]@ == k) || (known.len() > 3 && known[3]@ == k),
{
    if crate::decode::is_known(k, known) {
        let n = choose|n: int| 0 <= n < known.len() && (#[trigger] known[n])@ == k;
        assert(n == 0 || n == 1 || n == 2 || n == 3);
    }
}

/// A number is taken up to its bound, the bound itself too, and what is left out is the
/// default.
pub proof fn a_number_is_taken_up_to_its_bound(n: u64, d: u64, most: u64)
    ensures
        n <= most ==> bounded(Some(Json::Uint(n)), d, most) == Some(n),
        n > most ==> bounded(Some(Json::Uint(n)), d, most) is None,
        d <= most ==> bounded(None, d, most) == Some(d),
{
}

/// A section is read exactly where its keys are known and its values of their kind and
/// within their bounds.
pub proof fn a_section_is_read_exactly_when(j: Json)
    requires
        j is Object,
    ensures
        general_reads(j) <==> table_of(j, GENERAL@) && (j.at("listen_port"@) is None || (j.at(
            "listen_port"@,
        ) matches Some(Json::Uint(n)) && n <= 65535)) && (j.at("plugkill_socket"@) is None || (j.at(
            "plugkill_socket"@,
        ) matches Some(Json::Str(_)))) && (j.at("poll_interval_ms"@) is None || (j.at(
            "poll_interval_ms"@,
        ) matches Some(Json::Uint(_)))) && (j.at("private_key_file"@) is None || (j.at(
            "private_key_file"@,
        ) matches Some(Json::Str(_)))),
        retry_reads(j) <==> table_of(j, RETRY@) && (j.at("ack_timeout_ms"@) is None || (j.at(
            "ack_timeout_ms"@,
        ) matches Some(Json::Uint(_)))) && (j.at("max_retries"@) is None || (j.at(
            "max_retries"@,
        ) matches Some(Json::Uint(n)) && n <= 4294967295)),
{
}

} // verus!
