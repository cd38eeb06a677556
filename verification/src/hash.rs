//! The forensic digest engine.
//!
//! Two running hash accumulators are fed byte-for-byte the same content. At
//! finalization the standard accumulator yields a content-only digest, while
//! the binding accumulator additionally absorbs the target filename and the
//! trusted timestamp (in that fixed order), tying the content to the output
//! artifact and time.

use vstd::prelude::*;
use vstd::utf8::encode_utf8;

verus! {

#[verifier::external_type_specification]
#[verifier::external_body]
pub struct ExSha256(sha2::Sha256);

#[verifier::external_type_specification]
#[verifier::external_body]
pub struct ExSha512(sha2::Sha512);

/// The bytes a SHA-256 accumulator has absorbed so far.
pub uninterp spec fn sha256_fed(h: sha2::Sha256) -> Seq<u8>;

/// The bytes a SHA-512 accumulator has absorbed so far.
pub uninterp spec fn sha512_fed(h: sha2::Sha512) -> Seq<u8>;

/// The SHA-256 digest of a byte sequence.
pub uninterp spec fn sha256_of(data: Seq<u8>) -> Seq<u8>;

/// The SHA-512 digest of a byte sequence.
pub uninterp spec fn sha512_of(data: Seq<u8>) -> Seq<u8>;

/// Relies on sha2::Sha256::new (digest::Digest::new): a fresh hasher has
/// absorbed no input.
#[verifier::external_body]
fn sha256_new() -> (r: sha2::Sha256)
    ensures
        sha256_fed(r) == Seq::<u8>::empty(),
{
    <sha2::Sha256 as sha2::Digest>::new()
}

/// Relies on sha2::Sha512::new (digest::Digest::new): a fresh hasher has
/// absorbed no input.
#[verifier::external_body]
fn sha512_new() -> (r: sha2::Sha512)
    ensures
        sha512_fed(r) == Seq::<u8>::empty(),
{
    <sha2::Sha512 as sha2::Digest>::new()
}

/// Relies on sha2::Sha256::update (digest::Digest::update): data may be fed
/// in chunks, and doing so absorbs exactly those bytes in order.
#[verifier::external_body]
fn sha256_update(h: &mut sha2::Sha256, data: &[u8])
    ensures
        sha256_fed(*final(h)) == sha256_fed(*old(h)) + data@,
{
    sha2::Digest::update(h, data)
}

/// Relies on sha2::Sha512::update (digest::Digest::update): data may be fed
/// in chunks, and doing so absorbs exactly those bytes in order.
#[verifier::external_body]
fn sha512_update(h: &mut sha2::Sha512, data: &[u8])
    ensures
        sha512_fed(*final(h)) == sha512_fed(*old(h)) + data@,
{
    sha2::Digest::update(h, data)
}

/// Relies on sha2::Sha256::finalize (digest::Digest::finalize): the 32-byte
/// digest is a function of the absorbed bytes alone.
#[verifier::external_body]
fn sha256_finalize(h: sha2::Sha256) -> (r: Vec<u8>)
    ensures
        r@ == sha256_of(sha256_fed(h)),
        r@.len() == 32,
{
    sha2::Digest::finalize(h).to_vec()
}

/// Relies on sha2::Sha512::finalize (digest::Digest::finalize): the 64-byte
/// digest is a function of the absorbed bytes alone.
#[verifier::external_body]
fn sha512_finalize(h: sha2::Sha512) -> (r: Vec<u8>)
    ensures
        r@ == sha512_of(sha512_fed(h)),
        r@.len() == 64,
{
    sha2::Digest::finalize(h).to_vec()
}

/// The lowercase hex digit for a value below 16.
pub open spec fn hex_digit(n: u8) -> char {
    if n == 0 {
        '0'
    } else if n == 1 {
        '1'
    } else if n == 2 {
        '2'
    } else if n == 3 {
        '3'
    } else if n == 4 {
        '4'
    } else if n == 5 {
        '5'
    } else if n == 6 {
        '6'
    } else if n == 7 {
        '7'
    } else if n == 8 {
        '8'
    } else if n == 9 {
        '9'
    } else if n == 10 {
        'a'
    } else if n == 11 {
        'b'
    } else if n == 12 {
        'c'
    } else if n == 13 {
        'd'
    } else if n == 14 {
        'e'
    } else {
        'f'
    }
}

/// Lowercase hex encoding: two digits per byte, high nibble first.
pub open spec fn hex_of(bytes: Seq<u8>) -> Seq<char> {
    Seq::new(
        bytes.len() * 2,
        |i: int|
            if i % 2 == 0 {
                hex_digit(bytes[i / 2] / 16)
            } else {
                hex_digit(bytes[i / 2] % 16)
            },
    )
}

/// Relies on hex::encode: two lowercase hex digits per byte, high nibble
/// first, in input order.
#[verifier::external_body]
fn hex_encode(data: &[u8]) -> (r: String)
    ensures
        r@ == hex_of(data@),
{
    hex::encode(data)
}

/// The digest algorithms a session may select.
#[derive(Clone, Copy, PartialEq, Eq, Structural, Debug)]
pub enum HashAlgo {
    Sha256,
    Sha512,
}

/// The digest of `data` under `algo`.
pub open spec fn spec_digest(algo: HashAlgo, data: Seq<u8>) -> Seq<u8> {
    match algo {
        HashAlgo::Sha256 => sha256_of(data),
        HashAlgo::Sha512 => sha512_of(data),
    }
}

/// The digest width of `algo` in bytes.
pub open spec fn digest_len(algo: HashAlgo) -> nat {
    match algo {
        HashAlgo::Sha256 => 32,
        HashAlgo::Sha512 => 64,
    }
}

/// The pair of running accumulators: (standard, binding).
pub enum HasherInstance {
    Sha256(sha2::Sha256, sha2::Sha256),
    Sha512(sha2::Sha512, sha2::Sha512),
}

/// The dual-digest engine: a standard accumulator over content alone and a
/// binding accumulator that will additionally absorb the filename and
/// timestamp when finalized.
pub struct ForensicHasher {
    instance: HasherInstance,
    target_filename: String,
    ntp_timestamp: String,
    algo: HashAlgo,
}

impl ForensicHasher {
    /// The algorithm this engine was created with.
    pub closed spec fn algorithm(self) -> HashAlgo {
        self.algo
    }

    /// The content bytes fed so far (to both accumulators alike).
    pub closed spec fn fed(self) -> Seq<u8> {
        match self.instance {
            HasherInstance::Sha256(s, _) => sha256_fed(s),
            HasherInstance::Sha512(s, _) => sha512_fed(s),
        }
    }

    /// The target filename the binding digest will absorb.
    pub closed spec fn filename(self) -> Seq<char> {
        self.target_filename@
    }

    /// The trusted timestamp the binding digest will absorb.
    pub closed spec fn timestamp(self) -> Seq<char> {
        self.ntp_timestamp@
    }

    /// UTF-8 bytes of the target filename.
    pub open spec fn filename_bytes(self) -> Seq<u8> {
        encode_utf8(self.filename())
    }

    /// UTF-8 bytes of the trusted timestamp.
    pub open spec fn timestamp_bytes(self) -> Seq<u8> {
        encode_utf8(self.timestamp())
    }

    /// The exact byte stream the binding accumulator digests: content, then
    /// filename bytes, then timestamp bytes.
    pub open spec fn binding_input(self) -> Seq<u8> {
        self.fed() + self.filename_bytes() + self.timestamp_bytes()
    }

    /// The standard (content-only) hash this engine will report, as hex.
    pub open spec fn standard_hex(self) -> Seq<char> {
        hex_of(spec_digest(self.algorithm(), self.fed()))
    }

    /// The binding hash this engine will report, as hex.
    pub open spec fn binding_hex(self) -> Seq<char> {
        hex_of(spec_digest(self.algorithm(), self.binding_input()))
    }

    /// Both accumulators have absorbed byte-for-byte the same stream, and the
    /// stored algorithm matches the accumulators' kind.
    pub closed spec fn wf(self) -> bool {
        match self.instance {
            HasherInstance::Sha256(s, c) => self.algo == HashAlgo::Sha256 && sha256_fed(c)
                == sha256_fed(s),
            HasherInstance::Sha512(s, c) => self.algo == HashAlgo::Sha512 && sha512_fed(c)
                == sha512_fed(s),
        }
    }

    /// Creates an engine with empty accumulators for the chosen algorithm.
    pub fn new(algo: HashAlgo, target_filename: String, ntp_timestamp: String) -> (r:
        ForensicHasher)
        ensures
            r.wf(),
            r.algorithm() == algo,
            r.fed() == Seq::<u8>::empty(),
            r.filename() == target_filename@,
            r.timestamp() == ntp_timestamp@,
    {
        let instance = match algo {
            HashAlgo::Sha256 => HasherInstance::Sha256(sha256_new(), sha256_new()),
            HashAlgo::Sha512 => HasherInstance::Sha512(sha512_new(), sha512_new()),
        };
        ForensicHasher { instance, target_filename, ntp_timestamp, algo }
    }

    /// Feeds `data` into both accumulators identically; the metadata is
    /// untouched.
    pub fn update(&mut self, data: &[u8])
        requires
            old(self).wf(),
        ensures
            final(self).wf(),
            final(self).fed() == old(self).fed() + data@,
            final(self).algorithm() == old(self).algorithm(),
            final(self).filename() == old(self).filename(),
            final(self).timestamp() == old(self).timestamp(),
    {
        match &mut self.instance {
            HasherInstance::Sha256(s, c) => {
                sha256_update(s, data);
                sha256_update(c, data);
            },
            HasherInstance::Sha512(s, c) => {
                sha512_update(s, data);
                sha512_update(c, data);
            },
        }
    }

    /// Finalizes both digests: the standard one over the content alone, the
    /// binding one over content, filename bytes, then timestamp bytes.
    /// Returns (standard hex, binding hex); consumes the engine.
    pub fn finalize(self) -> (r: (String, String))
        requires
            self.wf(),
        ensures
            r.0@ == self.standard_hex(),
            r.1@ == self.binding_hex(),
            r.0@.len() == 2 * digest_len(self.algorithm()),
            r.1@.len() == 2 * digest_len(self.algorithm()),
    {
        let name_bytes = self.target_filename.as_str().as_bytes();
        let ts_bytes = self.ntp_timestamp.as_str().as_bytes();
        match self.instance {
            HasherInstance::Sha256(s, mut c) => {
                let std_digest = sha256_finalize(s);
                let std_hash = hex_encode(std_digest.as_slice());
                sha256_update(&mut c, name_bytes);
                sha256_update(&mut c, ts_bytes);
                let custom_digest = sha256_finalize(c);
                let custom_hash = hex_encode(custom_digest.as_slice());
                (std_hash, custom_hash)
            },
            HasherInstance::Sha512(s, mut c) => {
                let std_digest = sha512_finalize(s);
                let std_hash = hex_encode(std_digest.as_slice());
                sha512_update(&mut c, name_bytes);
                sha512_update(&mut c, ts_bytes);
                let custom_digest = sha512_finalize(c);
                let custom_hash = hex_encode(custom_digest.as_slice());
                (std_hash, custom_hash)
            },
        }
    }

    /// The file extension of the sidecar hash report for this algorithm.
    pub fn extension(&self) -> (r: &str)
        ensures
            self.algorithm() == HashAlgo::Sha256 ==> r@ == "sha256"@,
            self.algorithm() == HashAlgo::Sha512 ==> r@ == "sha512"@,
    {
        match self.algo {
            HashAlgo::Sha256 => "sha256",
            HashAlgo::Sha512 => "sha512",
        }
    }
}

/// The binding property's provable core. Two engines over the same content
/// and algorithm always report the same standard hash; if their filenames
/// differ (with equal timestamps), or their timestamps differ (with equal
/// filenames), then the byte streams their binding accumulators digest
/// differ. The binding hashes themselves then differ whenever the digest does
/// not collide on those two streams; collision freedom of the underlying
/// digest is a cryptographic assumption and is not claimed here.
pub proof fn lemma_binding_inputs_differ(h1: ForensicHasher, h2: ForensicHasher)
    requires
        h1.algorithm() == h2.algorithm(),
        h1.fed() == h2.fed(),
        (h1.filename() != h2.filename() && h1.timestamp() == h2.timestamp()) || (h1.filename()
            == h2.filename() && h1.timestamp() != h2.timestamp()),
    ensures
        h1.standard_hex() == h2.standard_hex(),
        h1.binding_input() != h2.binding_input(),
{
    let c = h1.fed();
    let n1 = h1.filename_bytes();
    let n2 = h2.filename_bytes();
    let t1 = h1.timestamp_bytes();
    let t2 = h2.timestamp_bytes();
    broadcast use vstd::utf8::encode_utf8_decode_utf8;

    if h1.filename() != h2.filename() {
        assert(n1 != n2) by {
            if n1 == n2 {
                assert(vstd::utf8::decode_utf8(n1) == h1.filename());
                assert(vstd::utf8::decode_utf8(n2) == h2.filename());
            }
        }
        if n1.len() != n2.len() {
            assert((c + n1 + t1).len() != (c + n2 + t2).len());
        } else {
            assert(exists|i: int| 0 <= i < n1.len() && n1[i] != n2[i]) by {
                if forall|j: int| 0 <= j < n1.len() ==> n1[j] == n2[j] {
                    assert(n1 =~= n2);
                }
            }
            let i = choose|i: int| 0 <= i < n1.len() && n1[i] != n2[i];
            assert((c + n1)[c.len() + i] == n1[i]);
            assert((c + n1 + t1)[c.len() + i] == (c + n1)[c.len() + i]);
            assert((c + n2)[c.len() + i] == n2[i]);
            assert((c + n2 + t2)[c.len() + i] == (c + n2)[c.len() + i]);
        }
    } else {
        assert(t1 != t2) by {
            if t1 == t2 {
                assert(vstd::utf8::decode_utf8(t1) == h1.timestamp());
                assert(vstd::utf8::decode_utf8(t2) == h2.timestamp());
            }
        }
        if t1.len() != t2.len() {
            assert((c + n1 + t1).len() != (c + n2 + t2).len());
        } else {
            assert(exists|i: int| 0 <= i < t1.len() && t1[i] != t2[i]) by {
                if forall|j: int| 0 <= j < t1.len() ==> t1[j] == t2[j] {
                    assert(t1 =~= t2);
                }
            }
            let i = choose|i: int| 0 <= i < t1.len() && t1[i] != t2[i];
            let k = c.len() + n1.len() + i;
            assert(n1 == n2);
            assert((c + n1).len() == c.len() + n1.len());
            assert((c + n2).len() == c.len() + n2.len());
            assert((c + n1 + t1)[k] == t1[k - (c + n1).len()]);
            assert((c + n2 + t2)[k] == t2[k - (c + n2).len()]);
            assert((c + n1 + t1)[k] != (c + n2 + t2)[k]);
        }
    }
}

/// Determinism: engines over identical content, filename, timestamp, and
/// algorithm report byte-identical standard and binding hashes.
pub proof fn lemma_determinism(h1: ForensicHasher, h2: ForensicHasher)
    requires
        h1.algorithm() == h2.algorithm(),
        h1.fed() == h2.fed(),
        h1.filename() == h2.filename(),
        h1.timestamp() == h2.timestamp(),
    ensures
        h1.standard_hex() == h2.standard_hex(),
        h1.binding_hex() == h2.binding_hex(),
{
}

} // verus!
