use vstd::prelude::*;
use vstd::utf8::encode_utf8;
use crate::crypto::{
    append_bytes, base64_decode, base64_encode, base64_standard_decode, base64_standard_encode,
    ed25519_accepts, ed25519_key_valid, ed25519_parse_key, ed25519_verify, hex_decode, hex_decoded,
    hex_error_text, hmac_sha256, hmac_sha256_tag, hmac_sha256_verify, json_string_field, json_top_string, field_view,
    lossy_text, utf8_lossy,
};
use crate::number::{parse_i64, parse_i64_spec, i64_decimal, signed_decimal};
use crate::text::{has_prefix, str_eq, str_starts_with, to_chars, from_chars, sub_chars};
use crate::error::AgentError;

verus! {

/// `s` without the prefix `p`, when it starts with it.
pub open spec fn strip_prefix_spec(s: Seq<char>, p: Seq<char>) -> Option<Seq<char>> {
    if has_prefix(s, p) { Some(s.subrange(p.len() as int, s.len() as int)) } else { None }
}

/// `s` without the prefix `p`, when it starts with it.
pub fn strip_prefix(s: &str, p: &str) -> (r: Option<String>)
    ensures
        r matches Some(t) ==> strip_prefix_spec(s@, p@) == Some(t@),
        r is None ==> strip_prefix_spec(s@, p@) is None,
{
    if str_starts_with(s, p) {
        let v = to_chars(s);
        let n = to_chars(p).len();
        let rest = sub_chars(v.as_slice(), n, v.len());
        Some(from_chars(rest.as_slice()))
    } else {
        None
    }
}

/// A timestamp is too far from the clock: `|now - t| > max_skew`.
pub open spec fn out_of_skew(now: int, t: int, max_skew: int) -> bool {
    now - t > max_skew || t - now > max_skew
}

fn skew_exceeded(now: i64, t: i64, max_skew: i64) -> (r: bool)
    ensures
        r == out_of_skew(now as int, t as int, max_skew as int),
{
    let d: i128 = now as i128 - t as i128;
    d > max_skew as i128 || -d > max_skew as i128
}

/// The shared-secret check: with a secret configured, the request must carry
/// it in `x-agentim-secret`.
pub open spec fn shared_verdict(expected: Option<Seq<char>>, provided: Option<Seq<char>>) -> Result<(), Seq<char>> {
    match expected {
        None => Ok(()),
        Some(e) => if provided == Some(e) { Ok(()) } else { Err("missing or invalid x-agentim-secret"@) },
    }
}

/// With a shared secret configured, a request is accepted exactly when it
/// carries that secret; without one, every request is.
pub proof fn lemma_shared_needs_the_secret(expected: Option<Seq<char>>, provided: Option<Seq<char>>)
    ensures
        shared_verdict(expected, provided) is Ok <==> (expected is None || provided == expected),
{
}

/// The view of an optional string slice.
pub open spec fn oview(o: Option<&str>) -> Option<Seq<char>> {
    match o {
        Some(s) => Some(s@),
        None => None,
    }
}

/// A `Result` with a `String` error, taken by the view of its error.
pub open spec fn rview(r: Result<(), String>) -> Result<(), Seq<char>> {
    match r {
        Ok(()) => Ok(()),
        Err(e) => Err(e@),
    }
}

/// Checks the shared secret of a request (`x-agentim-secret`) against the
/// configured one.
pub fn authorize_shared(expected: Option<&str>, provided: Option<&str>) -> (r: Result<(), String>)
    ensures
        rview(r) == shared_verdict(oview(expected), oview(provided)),
{
    match expected {
        None => Ok(()),
        Some(e) => {
            let ok = match provided {
                Some(p) => str_eq(p, e),
                None => false,
            };
            if ok {
                Ok(())
            } else {
                Err(String::from_str("missing or invalid x-agentim-secret"))
            }
        },
    }
}

/// The secret that the metrics endpoint asks for: its own, else the shared
/// webhook secret.
pub fn effective_metrics_secret<'a>(metrics_secret: Option<&'a str>, webhook_secret: Option<&'a str>) -> (r: Option<&'a str>)
    ensures
        oview(r) == match oview(metrics_secret) {
            Some(m) => Some(m),
            None => oview(webhook_secret),
        },
{
    match metrics_secret {
        Some(m) => Some(m),
        None => webhook_secret,
    }
}

/// Whether a request may read the metrics: no secret configured, or the
/// request carries the effective one.
pub fn authorize_metrics(metrics_secret: Option<&str>, webhook_secret: Option<&str>, provided: Option<&str>) -> (r: bool)
    ensures
        r == (shared_verdict(match oview(metrics_secret) {
            Some(m) => Some(m),
            None => oview(webhook_secret),
        }, oview(provided)) is Ok),
{
    let expected = effective_metrics_secret(metrics_secret, webhook_secret);
    authorize_shared(expected, provided).is_ok()
}

/// The records of a replay cache: key and request timestamp, in insertion
/// order.
pub type CacheView = Seq<(Seq<char>, i64)>;

/// The cache holds a record under `k`.
pub open spec fn cache_has(s: CacheView, k: Seq<char>) -> bool {
    exists|i: int| 0 <= i < s.len() && #[trigger] s[i].0 == k
}

/// The records whose timestamp is not older than `oldest_allowed`, in order.
pub open spec fn pruned(s: CacheView, oldest_allowed: int) -> CacheView
    decreases s.len(),
{
    if s.len() == 0 {
        s
    } else {
        let r = pruned(s.drop_last(), oldest_allowed);
        if (s.last().1 as int) < oldest_allowed { r } else { r.push(s.last()) }
    }
}

/// The records after storing `t` under `k`: in place when `k` is there,
/// at the end otherwise.
pub open spec fn cache_insert(s: CacheView, k: Seq<char>, t: i64) -> CacheView {
    if cache_has(s, k) {
        s.update(cache_pos(s, k), (k, t))
    } else {
        s.push((k, t))
    }
}

/// The position of the record under `k` (meaningful when `cache_has(s, k)`).
pub open spec fn cache_pos(s: CacheView, k: Seq<char>) -> int {
    choose|i: int| 0 <= i < s.len() && #[trigger] s[i].0 == k
}

/// Keys of `s` are pairwise distinct.
pub open spec fn cache_keys_unique(s: CacheView) -> bool {
    forall|i: int, j: int| 0 <= i < s.len() && 0 <= j < s.len() && i != j ==> s[i].0 != s[j].0
}

/// The signed requests seen recently, by `"{timestamp}:{nonce}"`, with the
/// timestamp each carried.
pub struct ReplayCache {
    entries: Vec<(String, i64)>,
}

impl ReplayCache {
    /// The records of the cache.
    pub closed spec fn records(&self) -> CacheView {
        self.entries@.map_values(|e: (String, i64)| (e.0@, e.1))
    }

    #[verifier::type_invariant]
    closed spec fn inv(&self) -> bool {
        cache_keys_unique(self.records())
    }

    /// An empty cache.
    pub fn new() -> (r: Self)
        ensures
            r.records().len() == 0,
    {
        let r = ReplayCache { entries: Vec::new() };
        assert(r.records() =~= Seq::<(Seq<char>, i64)>::empty());
        r
    }

    /// The number of records.
    pub fn len(&self) -> (n: usize)
        ensures
            n == self.records().len(),
    {
        self.entries.len()
    }

    /// Whether a record is kept under `key`.
    pub fn contains(&self, key: &str) -> (r: bool)
        ensures
            r == cache_has(self.records(), key@),
    {
        let mut i: usize = 0;
        while i < self.entries.len()
            invariant
                0 <= i <= self.entries@.len(),
                forall|j: int| 0 <= j < i ==> self.records()[j].0 != key@,
            decreases self.entries@.len() - i,
        {
            if str_eq(self.entries[i].0.as_str(), key) {
                assert(self.records()[i as int].0 == key@);
                return true;
            }
            i = i + 1;
        }
        false
    }

    /// Removes the records older than `oldest_allowed`.
    pub fn prune(&mut self, oldest_allowed: i128)
        ensures
            final(self).records() == pruned(old(self).records(), oldest_allowed as int),
    {
        proof { use_type_invariant(&*self); }
        let ghost before = self.records();
        let mut entries: Vec<(String, i64)> = Vec::new();
        std::mem::swap(&mut entries, &mut self.entries);
        let mut kept: Vec<(String, i64)> = Vec::new();
        let mut i: usize = 0;
        while i < entries.len()
            invariant
                entries@.map_values(|e: (String, i64)| (e.0@, e.1)) == before,
                0 <= i <= entries@.len(),
                kept@.map_values(|e: (String, i64)| (e.0@, e.1)) == pruned(before.subrange(0, i as int), oldest_allowed as int),
            decreases entries@.len() - i,
        {
            assert(before.subrange(0, i + 1).drop_last() =~= before.subrange(0, i as int));
            if (entries[i].1 as i128) >= oldest_allowed {
                let ghost b = kept@.map_values(|e: (String, i64)| (e.0@, e.1));
                kept.push((entries[i].0.clone(), entries[i].1));
                assert(kept@.map_values(|e: (String, i64)| (e.0@, e.1)) =~= b.push(before[i as int]));
            }
            i = i + 1;
        }
        assert(before.subrange(0, entries@.len() as int) =~= before);
        proof { lemma_pruned_unique(before, oldest_allowed as int); }
        self.entries = kept;
    }

    fn position(&self, key: &str) -> (r: Option<usize>)
        ensures
            r matches Some(i) ==> i < self.records().len() && self.records()[i as int].0 == key@,
            r is None ==> !cache_has(self.records(), key@),
    {
        let mut i: usize = 0;
        while i < self.entries.len()
            invariant
                0 <= i <= self.entries@.len(),
                forall|j: int| 0 <= j < i ==> self.records()[j].0 != key@,
            decreases self.entries@.len() - i,
        {
            if str_eq(self.entries[i].0.as_str(), key) {
                return Some(i);
            }
            i = i + 1;
        }
        None
    }

    /// Records `timestamp` under `key`, replacing an earlier record there.
    pub fn insert(&mut self, key: String, timestamp: i64)
        ensures
            final(self).records() == cache_insert(old(self).records(), key@, timestamp),
    {
        proof { use_type_invariant(&*self); }
        let ghost before = self.records();
        let ghost kv = key@;
        let found = self.position(key.as_str());
        let mut entries: Vec<(String, i64)> = Vec::new();
        std::mem::swap(&mut entries, &mut self.entries);
        assert(entries@.map_values(|e: (String, i64)| (e.0@, e.1)) == before);
        match found {
            Some(j) => {
                proof {
                    let c = cache_pos(before, kv);
                    assert(c == j);
                }
                entries.set(j, (key, timestamp));
                assert(entries@.map_values(|e: (String, i64)| (e.0@, e.1)) =~= before.update(j as int, (kv, timestamp)));
            },
            None => {
                entries.push((key, timestamp));
                assert(entries@.map_values(|e: (String, i64)| (e.0@, e.1)) =~= before.push((kv, timestamp)));
            },
        }
        self.entries = entries;
    }
}

proof fn lemma_pruned_subset(s: CacheView, c: int)
    ensures
        forall|i: int| 0 <= i < pruned(s, c).len() ==> s.contains(#[trigger] pruned(s, c)[i]),
    decreases s.len(),
{
    if s.len() > 0 {
        lemma_pruned_subset(s.drop_last(), c);
        let r = pruned(s.drop_last(), c);
        assert forall|i: int| 0 <= i < pruned(s, c).len() implies s.contains(#[trigger] pruned(s, c)[i]) by {
            if i < r.len() {
                assert(s.drop_last().contains(r[i]));
                let j = choose|j: int| 0 <= j < s.drop_last().len() && s.drop_last()[j] == r[i];
                assert(s[j] == r[i]);
            } else {
                assert(s[s.len() - 1] == s.last());
            }
        }
    }
}

proof fn lemma_pruned_unique(s: CacheView, c: int)
    requires
        cache_keys_unique(s),
    ensures
        cache_keys_unique(pruned(s, c)),
    decreases s.len(),
{
    if s.len() > 0 {
        let p = s.drop_last();
        assert(cache_keys_unique(p));
        lemma_pruned_unique(p, c);
        lemma_pruned_subset(p, c);
        let r = pruned(p, c);
        if !((s.last().1 as int) < c) {
            assert forall|i: int| 0 <= i < r.len() implies #[trigger] r[i].0 != s.last().0 by {
                assert(p.contains(r[i]));
                let j = choose|j: int| 0 <= j < p.len() && p[j] == r[i];
                assert(s[j] == p[j]);
                assert(s[s.len() - 1] == s.last());
            }
            assert(cache_keys_unique(r.push(s.last())));
        }
    }
}

proof fn lemma_pruned_keeps(s: CacheView, c: int, i: int)
    requires
        0 <= i < s.len(),
        s[i].1 as int >= c,
    ensures
        cache_has(pruned(s, c), s[i].0),
    decreases s.len(),
{
    if i < s.len() - 1 {
        lemma_pruned_keeps(s.drop_last(), c, i);
        let r = pruned(s.drop_last(), c);
        let j = choose|j: int| 0 <= j < r.len() && #[trigger] r[j].0 == s[i].0;
        if (s.last().1 as int) >= c {
            assert(pruned(s, c)[j] == r[j]);
        }
    } else {
        let r = pruned(s.drop_last(), c);
        assert(pruned(s, c)[r.len() as int] == s.last());
    }
}

proof fn lemma_insert_has(s: CacheView, k: Seq<char>, t: i64)
    ensures
        exists|i: int| 0 <= i < cache_insert(s, k, t).len() && #[trigger] cache_insert(s, k, t)[i] == (k, t),
{
    if cache_has(s, k) {
        let i = cache_pos(s, k);
        assert(cache_insert(s, k, t)[i] == (k, t));
    } else {
        assert(cache_insert(s, k, t)[s.len() as int] == (k, t));
    }
}

/// A signed request that was accepted is refused as a replay when it comes
/// again at the same time, whatever the cache held before.
pub proof fn lemma_replay_refused(secret: Option<Seq<char>>, timestamp: Option<Seq<char>>, nonce: Option<Seq<char>>,
    signature: Option<Seq<char>>, body: Seq<u8>, now: int, max_skew: int, cache: CacheView)
    requires
        secret is Some,
        signed_verdict(secret, timestamp, nonce, signature, body, now, max_skew, cache).0 is Ok,
    ensures
        signed_verdict(secret, timestamp, nonce, signature, body, now, max_skew,
            signed_verdict(secret, timestamp, nonce, signature, body, now, max_skew, cache).1).0
            == Err::<(), Seq<char>>("replayed webhook request"@),
{
    let ts = timestamp->0;
    let t = parse_i64_spec(ts)->0;
    let key = replay_key(t, nonce->0);
    let p = pruned(cache, now - max_skew);
    let after = cache_insert(p, key, t as i64);
    lemma_insert_has(p, key, t as i64);
    let i = choose|i: int| 0 <= i < after.len() && #[trigger] after[i] == (key, t as i64);
    lemma_pruned_keeps(after, now - max_skew, i);
}

/// A signed request that was accepted is refused when it comes again at any
/// later clock reading (or any other): as a replay while its timestamp is
/// still within the allowed skew, as out of range after that.
pub proof fn lemma_replay_refused_later(secret: Option<Seq<char>>, timestamp: Option<Seq<char>>, nonce: Option<Seq<char>>,
    signature: Option<Seq<char>>, body: Seq<u8>, now: int, later: int, max_skew: int, cache: CacheView)
    requires
        secret is Some,
        signed_verdict(secret, timestamp, nonce, signature, body, now, max_skew, cache).0 is Ok,
    ensures
        signed_verdict(secret, timestamp, nonce, signature, body, later, max_skew,
            signed_verdict(secret, timestamp, nonce, signature, body, now, max_skew, cache).1).0
            == Err::<(), Seq<char>>(
                if out_of_skew(later, parse_i64_spec(timestamp->0)->0, max_skew) {
                    "signed webhook timestamp out of range"@
                } else {
                    "replayed webhook request"@
                }),
{
    let ts = timestamp->0;
    let t = parse_i64_spec(ts)->0;
    let key = replay_key(t, nonce->0);
    let p = pruned(cache, now - max_skew);
    let after = cache_insert(p, key, t as i64);
    lemma_insert_has(p, key, t as i64);
    if !out_of_skew(later, t, max_skew) {
        let i = choose|i: int| 0 <= i < after.len() && #[trigger] after[i] == (key, t as i64);
        lemma_pruned_keeps(after, later - max_skew, i);
    }
}

/// The replay key of a signed request: `"{timestamp}:{nonce}"`, the
/// timestamp written back as a number.
pub open spec fn replay_key(t: int, nonce: Seq<char>) -> Seq<char> {
    signed_decimal(t) + seq![':'] + nonce
}

/// What a signed request's signature covers: timestamp, newline, nonce,
/// newline, body.
pub open spec fn signed_payload(timestamp: Seq<char>, nonce: Seq<char>, body: Seq<u8>) -> Seq<u8> {
    encode_utf8(timestamp) + seq![10u8] + encode_utf8(nonce) + seq![10u8] + body
}

/// The hexadecimal part of `x-agentim-signature`: without `sha256=` when it
/// starts with it.
pub open spec fn signature_hex(sig: Seq<char>) -> Seq<char> {
    match strip_prefix_spec(sig, "sha256="@) {
        Some(rest) => rest,
        None => sig,
    }
}

/// The verdict on a signed request and the replay cache afterwards. Without
/// a signing secret every request passes. Otherwise the three headers must be
/// there, the timestamp must parse and lie within `max_skew` seconds of
/// `now`; then records older than `now - max_skew` leave the cache, the
/// request must not have been seen, and its signature must be the hex
/// HMAC-SHA256 of the signed payload; a request that passes is recorded.
pub open spec fn signed_verdict(secret: Option<Seq<char>>, timestamp: Option<Seq<char>>, nonce: Option<Seq<char>>,
    signature: Option<Seq<char>>, body: Seq<u8>, now: int, max_skew: int, cache: CacheView) -> (Result<(), Seq<char>>, CacheView)
{
    match secret {
        None => (Ok(()), cache),
        Some(secret) => match (timestamp, nonce, signature) {
            (None, _, _) => (Err("missing x-agentim-timestamp"@), cache),
            (Some(_), None, _) => (Err("missing x-agentim-nonce"@), cache),
            (Some(_), Some(_), None) => (Err("missing x-agentim-signature"@), cache),
            (Some(ts), Some(nonce), Some(sig)) => match parse_i64_spec(ts) {
                None => (Err("invalid x-agentim-timestamp"@), cache),
                Some(t) => if out_of_skew(now, t, max_skew) {
                    (Err("signed webhook timestamp out of range"@), cache)
                } else {
                    let p = pruned(cache, now - max_skew);
                    let key = replay_key(t, nonce);
                    if cache_has(p, key) {
                        (Err("replayed webhook request"@), p)
                    } else {
                        match hex_decoded(signature_hex(sig)) {
                            None => (Err("invalid x-agentim-signature encoding"@), p),
                            Some(tag) => if tag == hmac_sha256(encode_utf8(secret), signed_payload(ts, nonce, body)) {
                                (Ok(()), cache_insert(p, key, t as i64))
                            } else {
                                (Err("invalid x-agentim-signature"@), p)
                            },
                        }
                    }
                },
            },
        },
    }
}

/// With a signing secret, a signed request is accepted only when its three
/// headers are there, its timestamp lies within `max_skew` of `now`, it was
/// not seen within that window, and the hex in its signature (after an
/// optional `sha256=`) decodes to the HMAC-SHA256, keyed by the secret, of
/// the timestamp, a newline, the nonce, a newline and the body; the accepted
/// request is then in the cache, and a refused one adds nothing to it.
pub proof fn lemma_signed_accepts_only_its_hmac(secret: Option<Seq<char>>, timestamp: Option<Seq<char>>, nonce: Option<Seq<char>>,
    signature: Option<Seq<char>>, body: Seq<u8>, now: int, max_skew: int, cache: CacheView)
    ensures ({
        let (v, c2) = signed_verdict(secret, timestamp, nonce, signature, body, now, max_skew, cache);
        &&& secret is None ==> v is Ok && c2 == cache
        &&& secret is Some && v is Ok ==> {
            &&& timestamp is Some && nonce is Some && signature is Some
            &&& parse_i64_spec(timestamp->0) matches Some(t) && !out_of_skew(now, t, max_skew)
                && !cache_has(pruned(cache, now - max_skew), signed_decimal(t) + seq![':'] + nonce->0)
                && cache_has(c2, signed_decimal(t) + seq![':'] + nonce->0)
            &&& hex_decoded(signature_hex(signature->0)) == Some(hmac_sha256(encode_utf8(secret->0),
                    encode_utf8(timestamp->0) + seq![10u8] + encode_utf8(nonce->0) + seq![10u8] + body))
        }
        &&& v is Err ==> (c2 == cache || c2 == pruned(cache, now - max_skew))
    }),
{
    if secret is Some && signed_verdict(secret, timestamp, nonce, signature, body, now, max_skew, cache).0 is Ok {
        let t = parse_i64_spec(timestamp->0)->0;
        let key = replay_key(t, nonce->0);
        let p = pruned(cache, now - max_skew);
        lemma_insert_has(p, key, t as i64);
        let c2 = cache_insert(p, key, t as i64);
        let i = choose|i: int| 0 <= i < c2.len() && #[trigger] c2[i] == (key, t as i64);
        assert(c2[i].0 == key);
        assert(cache_has(c2, key));
        assert(key == signed_decimal(t) + seq![':'] + nonce->0);
    }
}

fn owned(s: &str) -> (r: String)
    ensures
        r@ == s@,
{
    String::from_str(s)
}

/// Checks a signed request (`x-agentim-timestamp`, `x-agentim-nonce`,
/// `x-agentim-signature`) against the signing secret at time `now` (seconds)
/// and records it in the replay cache; see `signed_verdict`.
pub fn authorize_signed_webhook_at(secret: Option<&str>, timestamp: Option<&str>, nonce: Option<&str>,
    signature: Option<&str>, body: &[u8], now: i64, max_skew: i64, cache: &mut ReplayCache) -> (r: Result<(), String>)
    ensures
        rview(r) == signed_verdict(oview(secret), oview(timestamp), oview(nonce), oview(signature), body@,
            now as int, max_skew as int, old(cache).records()).0,
        final(cache).records() == signed_verdict(oview(secret), oview(timestamp), oview(nonce), oview(signature), body@,
            now as int, max_skew as int, old(cache).records()).1,
{
    let secret = match secret {
        Some(s) => s,
        None => return Ok(()),
    };
    let ts = match timestamp {
        Some(t) => t,
        None => return Err(owned("missing x-agentim-timestamp")),
    };
    let nonce = match nonce {
        Some(n) => n,
        None => return Err(owned("missing x-agentim-nonce")),
    };
    let sig = match signature {
        Some(s) => s,
        None => return Err(owned("missing x-agentim-signature")),
    };
    let tv = match parse_i64(to_chars(ts).as_slice()) {
        Some(v) => v,
        None => return Err(owned("invalid x-agentim-timestamp")),
    };
    if skew_exceeded(now, tv, max_skew) {
        return Err(owned("signed webhook timestamp out of range"));
    }
    cache.prune(now as i128 - max_skew as i128);
    let mut key = i64_decimal(tv);
    key.push(':');
    crate::text::append_str(&mut key, nonce);
    let key = from_chars(key.as_slice());
    assert(key@ == replay_key(tv as int, nonce@));
    assert(cache.records() == pruned(old(cache).records(), now - max_skew));
    if cache.contains(key.as_str()) {
        return Err(owned("replayed webhook request"));
    }
    let hex_part = match strip_prefix(sig, "sha256=") {
        Some(rest) => rest,
        None => owned(sig),
    };
    assert(hex_part@ == signature_hex(sig@));
    let tag = match hex_decode(hex_part.as_str()) {
        Ok(v) => v,
        Err(_) => return Err(owned("invalid x-agentim-signature encoding")),
    };
    let mut msg: Vec<u8> = Vec::new();
    append_bytes(&mut msg, ts.as_bytes());
    msg.push(10u8);
    append_bytes(&mut msg, nonce.as_bytes());
    msg.push(10u8);
    append_bytes(&mut msg, body);
    assert(msg@ =~= signed_payload(ts@, nonce@, body@));
    if !hmac_sha256_verify(secret.as_bytes(), msg.as_slice(), tag.as_slice()) {
        return Err(owned("invalid x-agentim-signature"));
    }
    cache.insert(key, tv);
    Ok(())
}

/// Checks a signed request against the clock; see
/// `authorize_signed_webhook_at`.
pub fn authorize_signed_webhook(secret: Option<&str>, timestamp: Option<&str>, nonce: Option<&str>,
    signature: Option<&str>, body: &[u8], max_skew: i64, cache: &mut ReplayCache) -> (r: Result<(), String>)
    ensures
        exists|now: i64| rview(r) == #[trigger] signed_verdict(oview(secret), oview(timestamp), oview(nonce), oview(signature), body@,
            now as int, max_skew as int, old(cache).records()).0
            && final(cache).records() == signed_verdict(oview(secret), oview(timestamp), oview(nonce), oview(signature), body@,
            now as int, max_skew as int, old(cache).records()).1,
{
    let now = crate::clock::now_seconds();
    authorize_signed_webhook_at(secret, timestamp, nonce, signature, body, now, max_skew, cache)
}


/// What Slack's signature covers: `"v0:{timestamp}:{body}"`, the body read
/// as UTF-8 with invalid sequences replaced.
pub open spec fn slack_base(timestamp: Seq<char>, body: Seq<u8>) -> Seq<u8> {
    encode_utf8("v0:"@ + timestamp + seq![':'] + utf8_lossy(body))
}

/// The result of checking a Slack signature (`v0=` and the hex HMAC-SHA256 of
/// the base string under the signing secret); the errors carry the text that
/// a `ChannelError` gets.
pub open spec fn slack_signature_result(secret: Seq<char>, body: Seq<u8>, timestamp: Seq<char>, signature: Seq<char>) -> Result<bool, Seq<char>> {
    match strip_prefix_spec(signature, "v0="@) {
        None => Err("Slack signature must start with v0="@),
        Some(h) => match hex_decoded(h) {
            None => Err("Invalid Slack signature encoding: "@ + hex_error_text(h)),
            Some(tag) => Ok(tag == hmac_sha256(encode_utf8(secret), slack_base(timestamp, body))),
        },
    }
}

/// Checks a Slack request signature against the signing secret.
pub fn verify_signature_with_secret(secret: &str, body: &[u8], timestamp: &str, signature: &str) -> (r: Result<bool, AgentError>)
    ensures
        r matches Ok(b) ==> slack_signature_result(secret@, body@, timestamp@, signature@) == Ok::<bool, Seq<char>>(b),
        r matches Err(e) ==> (e matches AgentError::ChannelError(m)
            && slack_signature_result(secret@, body@, timestamp@, signature@) == Err::<bool, Seq<char>>(m@)),
{
    let h = match strip_prefix(signature, "v0=") {
        Some(h) => h,
        None => return Err(AgentError::ChannelError(owned("Slack signature must start with v0="))),
    };
    let tag = match hex_decode(h.as_str()) {
        Ok(t) => t,
        Err(e) => {
            let mut m = to_chars("Invalid Slack signature encoding: ");
            crate::text::append_str(&mut m, e.as_str());
            return Err(AgentError::ChannelError(from_chars(m.as_slice())));
        },
    };
    let mut base = to_chars("v0:");
    crate::text::append_str(&mut base, timestamp);
    base.push(':');
    let text = lossy_text(body);
    crate::text::append_str(&mut base, text.as_str());
    let base = from_chars(base.as_slice());
    assert(base@ =~= "v0:"@ + timestamp@ + seq![':'] + utf8_lossy(body@));
    Ok(hmac_sha256_verify(secret.as_bytes(), base.as_str().as_bytes(), tag.as_slice()))
}

/// The verdict on a Slack request: with a signing secret, the timestamp must
/// be there, parse and lie within `max_skew` seconds of `now`, and the
/// signature must be there and check out.
pub open spec fn slack_verdict(secret: Option<Seq<char>>, timestamp: Option<Seq<char>>, signature: Option<Seq<char>>,
    body: Seq<u8>, now: int, max_skew: int) -> Result<(), Seq<char>>
{
    match secret {
        None => Ok(()),
        Some(secret) => match timestamp {
            None => Err("missing x-slack-request-timestamp"@),
            Some(ts) => match parse_i64_spec(ts) {
                None => Err("invalid x-slack-request-timestamp"@),
                Some(t) => if out_of_skew(now, t, max_skew) {
                    Err("stale Slack request timestamp"@)
                } else {
                    match signature {
                        None => Err("missing x-slack-signature"@),
                        Some(sig) => if slack_signature_result(secret, body, ts, sig) == Ok::<bool, Seq<char>>(true) {
                            Ok(())
                        } else {
                            Err("invalid Slack signature"@)
                        },
                    }
                },
            },
        },
    }
}

/// With a signing secret, a Slack request is accepted only when its
/// timestamp lies within `max_skew` of `now` and its signature is `v0=`
/// followed by the hex of the HMAC-SHA256, keyed by the secret, of `v0:`, the
/// timestamp, `:` and the body.
pub proof fn lemma_slack_accepts_only_its_hmac(secret: Option<Seq<char>>, timestamp: Option<Seq<char>>, signature: Option<Seq<char>>,
    body: Seq<u8>, now: int, max_skew: int)
    ensures
        secret is None ==> slack_verdict(secret, timestamp, signature, body, now, max_skew) is Ok,
        secret is Some && slack_verdict(secret, timestamp, signature, body, now, max_skew) is Ok ==> {
            &&& timestamp is Some && signature is Some
            &&& parse_i64_spec(timestamp->0) matches Some(t) && !out_of_skew(now, t, max_skew)
            &&& strip_prefix_spec(signature->0, "v0="@) matches Some(h) && hex_decoded(h) == Some(hmac_sha256(encode_utf8(secret->0),
                    encode_utf8("v0:"@ + timestamp->0 + seq![':'] + utf8_lossy(body))))
        },
{
}

/// Checks a Slack request (`x-slack-request-timestamp`, `x-slack-signature`)
/// at time `now` (seconds); see `slack_verdict`.
pub fn authorize_slack_signature_at(secret: Option<&str>, timestamp: Option<&str>, signature: Option<&str>,
    body: &[u8], now: i64, max_skew: i64) -> (r: Result<(), String>)
    ensures
        rview(r) == slack_verdict(oview(secret), oview(timestamp), oview(signature), body@, now as int, max_skew as int),
{
    let secret = match secret {
        Some(s) => s,
        None => return Ok(()),
    };
    let ts = match timestamp {
        Some(t) => t,
        None => return Err(owned("missing x-slack-request-timestamp")),
    };
    let tv = match parse_i64(to_chars(ts).as_slice()) {
        Some(v) => v,
        None => return Err(owned("invalid x-slack-request-timestamp")),
    };
    if skew_exceeded(now, tv, max_skew) {
        return Err(owned("stale Slack request timestamp"));
    }
    let sig = match signature {
        Some(s) => s,
        None => return Err(owned("missing x-slack-signature")),
    };
    match verify_signature_with_secret(secret, body, ts, sig) {
        Ok(true) => Ok(()),
        _ => Err(owned("invalid Slack signature")),
    }
}

/// How far a DingTalk timestamp may be from the clock, in milliseconds.
pub const DINGTALK_MAX_SKEW_MILLIS: i64 = 3_600_000;

/// The first value that is present.
pub open spec fn first_present(a: Option<Seq<char>>, b: Option<Seq<char>>, c: Option<Seq<char>>) -> Option<Seq<char>> {
    if a is Some { a } else if b is Some { b } else { c }
}

fn pick<'a>(a: Option<&'a str>, b: Option<&'a str>, c: Option<&'a str>) -> (r: Option<&'a str>)
    ensures
        oview(r) == first_present(oview(a), oview(b), oview(c)),
{
    match a {
        Some(x) => Some(x),
        None => match b {
            Some(x) => Some(x),
            None => c,
        },
    }
}

/// What DingTalk signs: `"{timestamp}\n{secret}"`.
pub open spec fn dingtalk_string_to_sign(timestamp: Seq<char>, secret: Seq<char>) -> Seq<u8> {
    encode_utf8(timestamp + seq!['\n'] + secret)
}

/// The verdict on a DingTalk request: with a secret, the timestamp (from the
/// query, else the `timestamp` header, else `x-dingtalk-timestamp`) must be
/// there, parse and lie within an hour of `now_millis`, and the sign (from
/// the query, else `sign`, else `x-dingtalk-sign`) must be the base64
/// HMAC-SHA256 of the string to sign.
pub open spec fn dingtalk_verdict(secret: Option<Seq<char>>, timestamp: Option<Seq<char>>, sign: Option<Seq<char>>, now_millis: int) -> Result<(), Seq<char>> {
    match secret {
        None => Ok(()),
        Some(secret) => match timestamp {
            None => Err("missing DingTalk timestamp"@),
            Some(ts) => match parse_i64_spec(ts) {
                None => Err("invalid DingTalk timestamp"@),
                Some(t) => if out_of_skew(now_millis, t, DINGTALK_MAX_SKEW_MILLIS as int) {
                    Err("stale DingTalk timestamp"@)
                } else {
                    match sign {
                        None => Err("missing DingTalk sign"@),
                        Some(sg) => match base64_standard_decode(sg) {
                            None => Err("invalid DingTalk sign"@),
                            Some(tag) => if tag == hmac_sha256(encode_utf8(secret), dingtalk_string_to_sign(ts, secret)) {
                                Ok(())
                            } else {
                                Err("invalid DingTalk sign"@)
                            },
                        },
                    }
                },
            },
        },
    }
}

/// With a secret configured, a DingTalk request is accepted only when it
/// has a timestamp within an hour of now and a sign whose base64 decoding is
/// the HMAC-SHA256, keyed by the secret, of the timestamp, a newline and the
/// secret; without a secret every request is accepted.
pub proof fn lemma_dingtalk_accepts_only_its_hmac(secret: Option<Seq<char>>, timestamp: Option<Seq<char>>, sign: Option<Seq<char>>, now_millis: int)
    ensures
        secret is None ==> dingtalk_verdict(secret, timestamp, sign, now_millis) is Ok,
        secret is Some && dingtalk_verdict(secret, timestamp, sign, now_millis) is Ok ==> {
            &&& timestamp is Some
            &&& parse_i64_spec(timestamp->0) matches Some(t) && !out_of_skew(now_millis, t, DINGTALK_MAX_SKEW_MILLIS as int)
            &&& sign is Some
            &&& base64_standard_decode(sign->0) == Some(hmac_sha256(encode_utf8(secret->0),
                    encode_utf8(timestamp->0 + seq!['\n'] + secret->0)))
        },
{
}

/// Checks a DingTalk request at time `now_millis`; see `dingtalk_verdict`.
pub fn authorize_dingtalk_signature_at(secret: Option<&str>, query_timestamp: Option<&str>, header_timestamp: Option<&str>,
    header_dingtalk_timestamp: Option<&str>, query_sign: Option<&str>, header_sign: Option<&str>, header_dingtalk_sign: Option<&str>,
    now_millis: i64) -> (r: Result<(), String>)
    ensures
        rview(r) == dingtalk_verdict(oview(secret),
            first_present(oview(query_timestamp), oview(header_timestamp), oview(header_dingtalk_timestamp)),
            first_present(oview(query_sign), oview(header_sign), oview(header_dingtalk_sign)), now_millis as int),
{
    let secret = match secret {
        Some(s) => s,
        None => return Ok(()),
    };
    let ts = match pick(query_timestamp, header_timestamp, header_dingtalk_timestamp) {
        Some(t) => t,
        None => return Err(owned("missing DingTalk timestamp")),
    };
    let tv = match parse_i64(to_chars(ts).as_slice()) {
        Some(v) => v,
        None => return Err(owned("invalid DingTalk timestamp")),
    };
    if skew_exceeded(now_millis, tv, DINGTALK_MAX_SKEW_MILLIS) {
        return Err(owned("stale DingTalk timestamp"));
    }
    let sign = match pick(query_sign, header_sign, header_dingtalk_sign) {
        Some(s) => s,
        None => return Err(owned("missing DingTalk sign")),
    };
    let tag = match base64_decode(sign) {
        Some(t) => t,
        None => return Err(owned("invalid DingTalk sign")),
    };
    let mut text = to_chars(ts);
    text.push('\n');
    crate::text::append_str(&mut text, secret);
    let text = from_chars(text.as_slice());
    assert(text@ =~= ts@ + seq!['\n'] + secret@);
    if hmac_sha256_verify(secret.as_bytes(), text.as_str().as_bytes(), tag.as_slice()) {
        Ok(())
    } else {
        Err(owned("invalid DingTalk sign"))
    }
}

/// The verdict on a Discord interaction: with a public key configured, the
/// timestamp and signature must be there, the key must be 32 bytes of hex
/// that name a curve point, the signature 64 bytes of hex, and it must sign
/// the timestamp followed by the body.
pub open spec fn discord_verdict(public_key: Option<Seq<char>>, timestamp: Option<Seq<char>>, signature: Option<Seq<char>>, body: Seq<u8>) -> Result<(), Seq<char>> {
    match public_key {
        None => Ok(()),
        Some(pk) => match timestamp {
            None => Err("missing x-signature-timestamp"@),
            Some(ts) => match signature {
                None => Err("missing x-signature-ed25519"@),
                Some(sig) => match hex_decoded(pk) {
                    None => Err("invalid discord interaction public key encoding"@),
                    Some(key) => if key.len() != 32 {
                        Err("invalid discord interaction public key length"@)
                    } else if !ed25519_key_valid(key) {
                        Err("invalid discord interaction public key"@)
                    } else {
                        match hex_decoded(sig) {
                            None => Err("invalid x-signature-ed25519 encoding"@),
                            Some(s) => if s.len() != 64 {
                                Err("invalid x-signature-ed25519 length"@)
                            } else if ed25519_accepts(key, encode_utf8(ts) + body, s) {
                                Ok(())
                            } else {
                                Err("invalid x-signature-ed25519"@)
                            },
                        }
                    },
                },
            },
        },
    }
}

/// With a public key configured, a Discord interaction is accepted only when
/// the key is 32 bytes of hex, the signature 64 bytes of hex, and ed25519
/// accepts that signature by that key of the timestamp followed by the body.
pub proof fn lemma_discord_accepts_only_its_signature(public_key: Option<Seq<char>>, timestamp: Option<Seq<char>>,
    signature: Option<Seq<char>>, body: Seq<u8>)
    ensures
        public_key is None ==> discord_verdict(public_key, timestamp, signature, body) is Ok,
        public_key is Some && discord_verdict(public_key, timestamp, signature, body) is Ok ==> {
            &&& timestamp is Some && signature is Some
            &&& hex_decoded(public_key->0) matches Some(key) && key.len() == 32
            &&& hex_decoded(signature->0) matches Some(s) && s.len() == 64
            &&& ed25519_accepts(hex_decoded(public_key->0)->0, encode_utf8(timestamp->0) + body, hex_decoded(signature->0)->0)
        },
{
}

/// Checks a Discord interaction (`x-signature-timestamp`,
/// `x-signature-ed25519`); see `discord_verdict`.
pub fn authorize_discord_interaction_signature(public_key: Option<&str>, timestamp: Option<&str>, signature: Option<&str>, body: &[u8]) -> (r: Result<(), String>)
    ensures
        rview(r) == discord_verdict(oview(public_key), oview(timestamp), oview(signature), body@),
{
    let pk = match public_key {
        Some(k) => k,
        None => return Ok(()),
    };
    let ts = match timestamp {
        Some(t) => t,
        None => return Err(owned("missing x-signature-timestamp")),
    };
    let sig = match signature {
        Some(s) => s,
        None => return Err(owned("missing x-signature-ed25519")),
    };
    let key = match hex_decode(pk) {
        Ok(k) => k,
        Err(_) => return Err(owned("invalid discord interaction public key encoding")),
    };
    if key.len() != 32 {
        return Err(owned("invalid discord interaction public key length"));
    }
    if !ed25519_parse_key(key.as_slice()) {
        return Err(owned("invalid discord interaction public key"));
    }
    let s = match hex_decode(sig) {
        Ok(s) => s,
        Err(_) => return Err(owned("invalid x-signature-ed25519 encoding")),
    };
    if s.len() != 64 {
        return Err(owned("invalid x-signature-ed25519 length"));
    }
    let mut msg: Vec<u8> = Vec::new();
    append_bytes(&mut msg, ts.as_bytes());
    append_bytes(&mut msg, body);
    assert(msg@ =~= encode_utf8(ts@) + body@);
    if ed25519_verify(key.as_slice(), msg.as_slice(), s.as_slice()) {
        Ok(())
    } else {
        Err(owned("invalid x-signature-ed25519"))
    }
}

/// The verdict on a Feishu verification token, given what the body holds
/// under `token` (`None` when the body is not JSON): the string there must be
/// the expected token.
pub open spec fn token_verdict(expected: Seq<char>, token: Option<Option<Seq<char>>>) -> Result<(), Seq<char>> {
    match token {
        None => Err("invalid feishu webhook payload"@),
        Some(t) => if t == Some(expected) { Ok(()) } else { Err("missing or invalid Feishu verification token"@) },
    }
}

/// The verdict on a Feishu request: with a verification token configured,
/// the body must be JSON whose top-level `token` is that string.
pub open spec fn feishu_verdict(expected: Option<Seq<char>>, body: Seq<u8>) -> Result<(), Seq<char>> {
    match expected {
        None => Ok(()),
        Some(e) => token_verdict(e, json_top_string(body, "token"@)),
    }
}

/// With a verification token configured, a Feishu request is accepted
/// exactly when its body is JSON whose top-level `token` is that string.
pub proof fn lemma_feishu_needs_the_token(expected: Option<Seq<char>>, body: Seq<u8>)
    ensures
        feishu_verdict(expected, body) is Ok <==> (expected is None
            || json_top_string(body, "token"@) == Some(Some(expected->0))),
{
}

/// Checks what a Feishu body holds under `token` against the expected
/// verification token; see `token_verdict`.
pub fn check_feishu_token(expected: &str, token: Option<Option<String>>) -> (r: Result<(), String>)
    ensures
        rview(r) == token_verdict(expected@, field_view(token)),
{
    match token {
        None => Err(owned("invalid feishu webhook payload")),
        Some(t) => {
            let ok = match &t {
                Some(v) => str_eq(v.as_str(), expected),
                None => false,
            };
            if ok {
                Ok(())
            } else {
                Err(owned("missing or invalid Feishu verification token"))
            }
        },
    }
}

/// Checks the verification token of a Feishu request; see `feishu_verdict`.
pub fn authorize_feishu_verification_token(expected: Option<&str>, body: &[u8]) -> (r: Result<(), String>)
    ensures
        rview(r) == feishu_verdict(oview(expected), body@),
{
    match expected {
        Some(e) => check_feishu_token(e, json_string_field(body, "token")),
        None => Ok(()),
    }
}

/// The base64 HMAC-SHA256 of a LINE body under the channel secret.
pub open spec fn line_signature_of(secret: Seq<char>, body: Seq<u8>) -> Seq<char> {
    base64_standard_encode(hmac_sha256(encode_utf8(secret), body))
}

/// The base64 HMAC-SHA256 of `body` under `secret`, as LINE signs requests.
pub fn line_signature(secret: &str, body: &[u8]) -> (r: String)
    ensures
        r@ == line_signature_of(secret@, body@),
{
    let tag = hmac_sha256_tag(secret.as_bytes(), body);
    base64_encode(tag.as_slice())
}

/// Whether a LINE signature is right: always without a channel secret.
pub fn verify_line_signature(secret: Option<&str>, body: &[u8], signature: &str) -> (r: bool)
    ensures
        r == match oview(secret) {
            None => true,
            Some(s) => line_signature_of(s, body@) == signature@,
        },
{
    match secret {
        None => true,
        Some(s) => {
            let computed = line_signature(s, body);
            str_eq(computed.as_str(), signature)
        },
    }
}

/// The verdict on a LINE request: with a channel secret, `x-line-signature`
/// must be there and equal the base64 HMAC-SHA256 of the body.
pub open spec fn line_verdict(secret: Option<Seq<char>>, signature: Option<Seq<char>>, body: Seq<u8>) -> Result<(), Seq<char>> {
    match secret {
        None => Ok(()),
        Some(s) => match signature {
            None => Err("missing x-line-signature"@),
            Some(sig) => if line_signature_of(s, body) == sig { Ok(()) } else { Err("invalid x-line-signature"@) },
        },
    }
}

/// With a channel secret, a LINE request is accepted exactly when its
/// signature is the base64 HMAC-SHA256, keyed by the secret, of the body.
pub proof fn lemma_line_accepts_only_its_hmac(secret: Option<Seq<char>>, signature: Option<Seq<char>>, body: Seq<u8>)
    ensures
        line_verdict(secret, signature, body) is Ok <==> (secret is None
            || signature == Some(base64_standard_encode(hmac_sha256(encode_utf8(secret->0), body)))),
{
}

/// Checks a LINE request; see `line_verdict`.
pub fn authorize_line_signature(secret: Option<&str>, signature: Option<&str>, body: &[u8]) -> (r: Result<(), String>)
    ensures
        rview(r) == line_verdict(oview(secret), oview(signature), body@),
{
    let s = match secret {
        Some(s) => s,
        None => return Ok(()),
    };
    let sig = match signature {
        Some(sig) => sig,
        None => return Err(owned("missing x-line-signature")),
    };
    if verify_line_signature(Some(s), body, sig) {
        Ok(())
    } else {
        Err(owned("invalid x-line-signature"))
    }
}

/// The sign that a DingTalk robot URL carries: the base64 HMAC-SHA256 of
/// `"{timestamp}\n{secret}"` under the secret, `timestamp` in milliseconds.
///
/// A request that carries this sign and the timestamp, written as a number,
/// is accepted by a DingTalk check with the same secret at every time within
/// an hour of `timestamp`.
pub fn dingtalk_signature(secret: &str, timestamp: i64) -> (r: String)
    ensures
        r@ == base64_standard_encode(hmac_sha256(encode_utf8(secret@), dingtalk_string_to_sign(signed_decimal(timestamp as int), secret@))),
        forall|now: int| !out_of_skew(now, timestamp as int, DINGTALK_MAX_SKEW_MILLIS as int) ==>
            #[trigger] dingtalk_verdict(Some(secret@), Some(signed_decimal(timestamp as int)), Some(r@), now) == Ok::<(), Seq<char>>(()),
{
    let mut text = i64_decimal(timestamp);
    text.push('\n');
    crate::text::append_str(&mut text, secret);
    let text = from_chars(text.as_slice());
    assert(text@ =~= signed_decimal(timestamp as int) + seq!['\n'] + secret@);
    let tag = hmac_sha256_tag(secret.as_bytes(), text.as_str().as_bytes());
    proof { crate::number::lemma_parse_signed_roundtrip(timestamp); }
    base64_encode(tag.as_slice())
}

/// Checks a Slack request against the clock; see
/// `authorize_slack_signature_at`.
pub fn authorize_slack_signature(secret: Option<&str>, timestamp: Option<&str>, signature: Option<&str>, body: &[u8], max_skew: i64) -> (r: Result<(), String>)
    ensures
        exists|now: i64| rview(r) == #[trigger] slack_verdict(oview(secret), oview(timestamp), oview(signature), body@, now as int, max_skew as int),
{
    let now = crate::clock::now_seconds();
    authorize_slack_signature_at(secret, timestamp, signature, body, now, max_skew)
}

/// Checks a DingTalk request against the clock; see
/// `authorize_dingtalk_signature_at`.
pub fn authorize_dingtalk_signature(secret: Option<&str>, query_timestamp: Option<&str>, header_timestamp: Option<&str>,
    header_dingtalk_timestamp: Option<&str>, query_sign: Option<&str>, header_sign: Option<&str>, header_dingtalk_sign: Option<&str>)
    -> (r: Result<(), String>)
    ensures
        exists|now: i64| rview(r) == #[trigger] dingtalk_verdict(oview(secret),
            first_present(oview(query_timestamp), oview(header_timestamp), oview(header_dingtalk_timestamp)),
            first_present(oview(query_sign), oview(header_sign), oview(header_dingtalk_sign)), now as int),
{
    let now = crate::clock::now_millis();
    authorize_dingtalk_signature_at(secret, query_timestamp, header_timestamp, header_dingtalk_timestamp,
        query_sign, header_sign, header_dingtalk_sign, now)
}
/// The checks that every webhook makes, in order: the shared secret, then the
/// signed request headers. A request refused by the first check leaves the
/// replay cache as it was.
pub open spec fn webhook_verdict(expected: Option<Seq<char>>, provided: Option<Seq<char>>, secret: Option<Seq<char>>,
    timestamp: Option<Seq<char>>, nonce: Option<Seq<char>>, signature: Option<Seq<char>>, body: Seq<u8>, now: int,
    max_skew: int, cache: CacheView) -> (Result<(), Seq<char>>, CacheView)
{
    match shared_verdict(expected, provided) {
        Err(e) => (Err(e), cache),
        Ok(()) => signed_verdict(secret, timestamp, nonce, signature, body, now, max_skew, cache),
    }
}

/// The checks that every webhook makes, at time `now` (seconds); see
/// `webhook_verdict`.
pub fn authorize_webhook_at(expected: Option<&str>, provided: Option<&str>, secret: Option<&str>, timestamp: Option<&str>,
    nonce: Option<&str>, signature: Option<&str>, body: &[u8], now: i64, max_skew: i64, cache: &mut ReplayCache)
    -> (r: Result<(), String>)
    ensures
        rview(r) == webhook_verdict(oview(expected), oview(provided), oview(secret), oview(timestamp), oview(nonce),
            oview(signature), body@, now as int, max_skew as int, old(cache).records()).0,
        final(cache).records() == webhook_verdict(oview(expected), oview(provided), oview(secret), oview(timestamp),
            oview(nonce), oview(signature), body@, now as int, max_skew as int, old(cache).records()).1,
{
    authorize_shared(expected, provided)?;
    authorize_signed_webhook_at(secret, timestamp, nonce, signature, body, now, max_skew, cache)
}

/// The checks that every webhook makes, against the clock; see
/// `authorize_webhook_at`.
pub fn authorize_webhook(expected: Option<&str>, provided: Option<&str>, secret: Option<&str>, timestamp: Option<&str>,
    nonce: Option<&str>, signature: Option<&str>, body: &[u8], max_skew: i64, cache: &mut ReplayCache)
    -> (r: Result<(), String>)
    ensures
        exists|now: i64| rview(r) == #[trigger] webhook_verdict(oview(expected), oview(provided), oview(secret),
            oview(timestamp), oview(nonce), oview(signature), body@, now as int, max_skew as int, old(cache).records()).0
            && final(cache).records() == webhook_verdict(oview(expected), oview(provided), oview(secret), oview(timestamp),
            oview(nonce), oview(signature), body@, now as int, max_skew as int, old(cache).records()).1,
{
    let now = crate::clock::now_seconds();
    authorize_webhook_at(expected, provided, secret, timestamp, nonce, signature, body, now, max_skew, cache)
}

} // verus!

