//! The certificate cache: derivation of the cache key from the
//! domain list and directory URL, the durable object-store backed
//! cache and its no-op account-store companion, and an in-memory
//! backend satisfying the same load/store contract.

use vstd::prelude::*;

use base64::Engine;
use sha2::Digest;

use vstd::hash_map::StringHashMap;
use vstd::utf8::encode_utf8;

verus! {

/// The SHA-256 digest of a byte sequence.
pub uninterp spec fn spec_sha256(data: Seq<u8>) -> Seq<u8>;

/// Relies on sha2's `Sha256`: the digest is a function of the input
/// bytes alone, and is 32 bytes long.
#[verifier::external_body]
fn sha256_digest(data: &Vec<u8>) -> (r: Vec<u8>)
    ensures
        r@ == spec_sha256(data@),
        r@.len() == 32,
{
    sha2::Sha256::digest(data).to_vec()
}

/// The base64url encoding, without padding, of a byte sequence.
pub uninterp spec fn spec_base64url_nopad(data: Seq<u8>) -> Seq<char>;

/// Relies on base64's `BASE64_URL_SAFE_NO_PAD` engine: the encoding
/// is a function of the input bytes alone.
#[verifier::external_body]
fn base64url_nopad_encode(data: &Vec<u8>) -> (r: String)
    ensures
        r@ == spec_base64url_nopad(data@),
{
    base64::prelude::BASE64_URL_SAFE_NO_PAD.encode(data)
}

/// The bytes that the cache key digests: each domain's UTF-8 bytes
/// followed by a single NUL separator, then the directory URL's
/// bytes. Domain order is significant.
pub open spec fn spec_key_input(domains: Seq<Seq<char>>, url: Seq<char>) -> Seq<u8>
    decreases domains.len(),
{
    if domains.len() == 0 {
        encode_utf8(url)
    } else {
        encode_utf8(domains[0]) + seq![0u8] + spec_key_input(domains.drop_first(), url)
    }
}

/// The cache key: a fixed tag, then the base64url encoding (no
/// padding) of the SHA-256 digest of the key input.
pub open spec fn spec_cache_key(domains: Seq<Seq<char>>, url: Seq<char>) -> Seq<char> {
    "cached_cert_"@ + spec_base64url_nopad(spec_sha256(spec_key_input(domains, url)))
}

/// Derives the file name under which a certificate for this domain
/// list and directory URL is cached.
pub fn cached_cert_file_name(domains: &Vec<String>, directory_url: &str) -> (r: String)
    ensures
        r@ == spec_cache_key(domains@.map_values(|d: String| d@), directory_url@),
{
    let ghost gdoms = domains@.map_values(|d: String| d@);
    let mut input: Vec<u8> = Vec::new();
    let n = domains.len();
    let mut i: usize = 0;
    proof {
        assert(gdoms.skip(0) =~= gdoms);
        assert(Seq::<u8>::empty() + spec_key_input(gdoms, directory_url@) =~= spec_key_input(
            gdoms,
            directory_url@,
        ));
    }
    while i < n
        invariant
            i <= n,
            n == domains@.len(),
            gdoms == domains@.map_values(|d: String| d@),
            input@ + spec_key_input(gdoms.skip(i as int), directory_url@) == spec_key_input(
                gdoms,
                directory_url@,
            ),
        decreases n - i,
    {
        let ghost input0 = input@;
        input.extend_from_slice(domains[i].as_str().as_bytes());
        input.push(0u8);
        proof {
            assert(gdoms.skip(i as int).drop_first() =~= gdoms.skip(i + 1));
            assert(gdoms.skip(i as int)[0] == gdoms[i as int]);
            assert(input@ =~= input0 + encode_utf8(gdoms[i as int]) + seq![0u8]);
            assert(input@ + spec_key_input(gdoms.skip(i + 1), directory_url@) =~= input0
                + spec_key_input(gdoms.skip(i as int), directory_url@));
        }
        i = i + 1;
    }
    proof {
        assert(gdoms.skip(n as int) =~= Seq::<Seq<char>>::empty());
    }
    input.extend_from_slice(directory_url.as_bytes());
    assert(input@ =~= spec_key_input(gdoms, directory_url@));
    let digest = sha256_digest(&input);
    let b64 = base64url_nopad_encode(&digest);
    let mut r = String::from_str("cached_cert_");
    r.append(b64.as_str());
    r
}

/// Deriving the cache key twice from an identical domain list and
/// directory URL yields the identical key.
pub proof fn lemma_cache_key_deterministic(
    d1: Seq<Seq<char>>,
    u1: Seq<char>,
    d2: Seq<Seq<char>>,
    u2: Seq<char>,
)
    requires
        d1 == d2,
        u1 == u2,
    ensures
        spec_cache_key(d1, u1) == spec_cache_key(d2, u2),
{
}

/// Reversing a domain list of more than one domain changes the bytes
/// that the key digests, whenever the first and last domains encode
/// differently and neither encoding holds a NUL byte. The derived
/// keys then differ exactly when the digest maps the two inputs
/// apart, which is what its collision resistance is relied on for.
pub proof fn lemma_key_input_order_sensitive(domains: Seq<Seq<char>>, url: Seq<char>)
    requires
        domains.len() > 1,
        encode_utf8(domains.first()) != encode_utf8(domains.last()),
        forall|i: int|
            0 <= i < encode_utf8(domains.first()).len() ==> encode_utf8(domains.first())[i] != 0,
        forall|i: int|
            0 <= i < encode_utf8(domains.last()).len() ==> encode_utf8(domains.last())[i] != 0,
    ensures
        spec_key_input(domains, url) != spec_key_input(domains.reverse(), url),
{
    let rev = domains.reverse();
    let e0 = encode_utf8(domains.first());
    let e1 = encode_utf8(domains.last());
    let a = spec_key_input(domains, url);
    let b = spec_key_input(rev, url);
    let n0 = e0.len() as int;
    let n1 = e1.len() as int;
    assert(rev[0] == domains.last());
    assert(a == e0 + seq![0u8] + spec_key_input(domains.drop_first(), url));
    assert(b == e1 + seq![0u8] + spec_key_input(rev.drop_first(), url));
    assert(a.len() > n0 && b.len() > n1);
    assert(a[n0] == 0u8);
    assert(b[n1] == 0u8);
    assert(forall|i: int| 0 <= i < n0 ==> a[i] == e0[i]);
    assert(forall|i: int| 0 <= i < n1 ==> b[i] == e1[i]);
    if n0 < n1 {
        assert(a[n0] == 0u8 && b[n0] == e1[n0] && e1[n0] != 0u8);
        assert(a != b);
    } else if n1 < n0 {
        assert(b[n1] == 0u8 && a[n1] == e0[n1] && e0[n1] != 0u8);
        assert(a != b);
    } else {
        if a == b {
            assert(forall|i: int| 0 <= i < n0 ==> e0[i] == e1[i]);
            assert(e0 =~= e1);
            assert(false);
        }
    }
}

/// The order-sensitivity law on plain ASCII domain names: reversing
/// a domain list of more than one domain changes the bytes that the
/// key digests, whenever the first and last domains differ and
/// neither holds a NUL character.
pub proof fn lemma_cache_key_order_sensitive_ascii(domains: Seq<Seq<char>>, url: Seq<char>)
    requires
        domains.len() > 1,
        vstd::utf8::is_ascii_chars(domains.first()),
        vstd::utf8::is_ascii_chars(domains.last()),
        domains.first() != domains.last(),
        forall|i: int| 0 <= i < domains.first().len() ==> domains.first()[i] != '\0',
        forall|i: int| 0 <= i < domains.last().len() ==> domains.last()[i] != '\0',
    ensures
        spec_key_input(domains, url) != spec_key_input(domains.reverse(), url),
{
    let d0 = domains.first();
    let d1 = domains.last();
    let e0 = encode_utf8(d0);
    let e1 = encode_utf8(d1);
    vstd::utf8::is_ascii_chars_encode_utf8(d0);
    vstd::utf8::is_ascii_chars_encode_utf8(d1);
    assert forall|i: int| 0 <= i < e0.len() implies e0[i] != 0 by {
        assert(d0[i] as u8 == e0[i]);
        assert('\0' <= d0[i] <= '\u{7f}');
        assert(d0[i] != '\0');
    }
    assert forall|i: int| 0 <= i < e1.len() implies e1[i] != 0 by {
        assert(d1[i] as u8 == e1[i]);
        assert('\0' <= d1[i] <= '\u{7f}');
        assert(d1[i] != '\0');
    }
    if e0 == e1 {
        assert(d0.len() == d1.len());
        assert forall|i: int| 0 <= i < d0.len() implies d0[i] == d1[i] by {
            assert(d0[i] as u8 == e0[i] && d1[i] as u8 == e1[i]);
            assert(d0[i] as u8 == d1[i] as u8);
            assert('\0' <= d0[i] <= '\u{7f}' && '\0' <= d1[i] <= '\u{7f}');
        }
        assert(d0 =~= d1);
        assert(false);
    }
    lemma_key_input_order_sensitive(domains, url);
}

/// The errors of the durable certificate store, tagged by the
/// operation that failed: writing the object, reading the object, or
/// draining the payload stream. Each carries the backend's message.
#[derive(Debug)]
pub enum MyErrors {
    PutObjectError(String),
    GetObjectError(String),
    ByteStreamError(String),
}

/// The durable certificate cache backed by an object store: a bucket
/// and a key prefix under which certificate records are kept.
pub struct AcmeS3Cache {
    pub bucket: String,
    pub prefix: String,
}

impl AcmeS3Cache {
    /// A cache over the given bucket and key prefix.
    pub fn new(bucket: String, prefix: String) -> (r: Self)
        ensures
            r.bucket == bucket,
            r.prefix == prefix,
    {
        Self { bucket, prefix }
    }

    /// The full object key for this domain list and directory URL:
    /// the prefix, a slash, and the derived cache-key file name.
    pub fn object_key(&self, domains: &Vec<String>, directory_url: &str) -> (r: String)
        ensures
            r@ == self.prefix@ + "/"@ + spec_cache_key(
                domains@.map_values(|d: String| d@),
                directory_url@,
            ),
    {
        let mut r = self.prefix.clone();
        r.append("/");
        r.append(cached_cert_file_name(domains, directory_url).as_str());
        r
    }
}

/// Interprets a payload fetched from the store: an empty payload
/// stands for absence, exactly as a missing object does; anything
/// else is the certificate record itself.
pub fn cert_from_payload(bytes: Vec<u8>) -> (r: Option<Vec<u8>>)
    ensures
        bytes@.len() == 0 ==> r is None,
        bytes@.len() > 0 ==> (r matches Some(b) && b == bytes),
{
    if bytes.len() == 0 {
        None
    } else {
        Some(bytes)
    }
}

/// The account store that persists nothing: loading always reports
/// absence, so a fresh account is provisioned on every process
/// start, and storing succeeds without writing anywhere.
pub struct NoAccountAcmeS3Cache;

impl NoAccountAcmeS3Cache {
    /// Always reports an absent account, and never fails.
    pub fn load_account(&self, _contact: &Vec<String>, _directory_url: &str) -> (r: Result<
        Option<Vec<u8>>,
        MyErrors,
    >)
        ensures
            r matches Ok(a) && a is None,
    {
        Ok(None)
    }

    /// Accepts and discards the account record, and never fails.
    pub fn store_account(
        &self,
        _contact: &Vec<String>,
        _directory_url: &str,
        _account: &Vec<u8>,
    ) -> (r: Result<(), MyErrors>)
        ensures
            r is Ok,
    {
        Ok(())
    }
}

/// What a load from a cache in the given state returns: the stored
/// bytes when an entry exists and is non-empty, absence otherwise.
pub open spec fn spec_load(m: Map<Seq<char>, Vec<u8>>, k: Seq<char>) -> Option<Seq<u8>> {
    if m.contains_key(k) && m[k]@.len() > 0 {
        Some(m[k]@)
    } else {
        None
    }
}

/// An in-memory certificate cache: the same load/store contract as
/// the durable backend, keyed by the derived cache key.
pub struct MemoryCertCache {
    entries: StringHashMap<Vec<u8>>,
}

impl View for MemoryCertCache {
    type V = Map<Seq<char>, Vec<u8>>;

    closed spec fn view(&self) -> Map<Seq<char>, Vec<u8>> {
        self.entries@
    }
}

impl MemoryCertCache {
    /// An empty cache.
    pub fn new() -> (r: Self)
        ensures
            r@ == Map::<Seq<char>, Vec<u8>>::empty(),
    {
        MemoryCertCache { entries: StringHashMap::new() }
    }

    /// Stores the record under the key, overwriting unconditionally:
    /// there is no compare-and-swap, so the last writer wins.
    pub fn store(&mut self, key: String, cert: Vec<u8>)
        ensures
            final(self)@ == old(self)@.insert(key@, cert),
    {
        self.entries.insert(key, cert);
    }

    /// Loads the record under the key. An empty stored payload is
    /// reported as absent, indistinguishable from a missing entry.
    pub fn load(&self, key: &str) -> (r: Option<Vec<u8>>)
        ensures
            match spec_load(self@, key@) {
                Some(b) => r matches Some(v) && v@ == b,
                None => r is None,
            },
    {
        match self.entries.get(key) {
            None => None,
            Some(v) => {
                if v.len() == 0 {
                    None
                } else {
                    let c = v.clone();
                    assert(c@ =~= v@);
                    Some(c)
                }
            },
        }
    }
}

/// Round trip: storing a non-empty record and loading it back under
/// the same key yields exactly the stored bytes, whatever the cache
/// held before.
pub proof fn lemma_store_load_round_trip(m: Map<Seq<char>, Vec<u8>>, k: Seq<char>, cert: Vec<u8>)
    requires
        cert@.len() > 0,
    ensures
        spec_load(m.insert(k, cert), k) == Some(cert@),
{
}

/// Empty as absent: a stored empty payload loads as absence, exactly
/// as a key never stored does.
pub proof fn lemma_empty_as_absent(m: Map<Seq<char>, Vec<u8>>, k: Seq<char>, cert: Vec<u8>)
    requires
        cert@.len() == 0,
    ensures
        spec_load(m.insert(k, cert), k) is None,
        spec_load(m.insert(k, cert), k) == spec_load(m.remove(k), k),
{
}

} // verus!
