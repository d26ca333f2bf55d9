//! The digest engine: a closed set of algorithms, a streaming accumulator
//! with a byte-sequence model, and a whole-buffer hashing entry point that
//! feeds fixed-size chunks in order.
use vstd::prelude::*;

use crate::digests::{
    all_lower_hex, blake3_fed, blake3_finalize_hex, blake3_hex_of, blake3_new, blake3_update,
    hex_encode, hex_of, md5_fed, md5_finalize, md5_new, md5_of, md5_update, sha1_fed,
    sha1_finalize, sha1_new, sha1_of, sha1_update, sha256_fed, sha256_finalize, sha256_new,
    sha256_of, sha256_update, sha512_fed, sha512_finalize, sha512_new, sha512_of, sha512_update,
    Blake3State, Md5State, Sha1State, Sha256State, Sha512State,
};

verus! {

/// Size in bytes of the chunks a buffer is streamed in.
pub const CHUNK_LEN: usize = 8192;

/// The closed set of supported digest algorithms.
#[derive(Clone, Copy, Debug, PartialEq, Eq, Structural)]
pub enum HashAlgorithm {
    Md5,
    Sha1,
    Sha256,
    Sha512,
    Blake3,
}

/// Length in hex characters of a digest under the given algorithm.
pub open spec fn spec_digest_len(alg: HashAlgorithm) -> nat {
    match alg {
        HashAlgorithm::Md5 => 32,
        HashAlgorithm::Sha1 => 40,
        HashAlgorithm::Sha256 => 64,
        HashAlgorithm::Sha512 => 128,
        HashAlgorithm::Blake3 => 64,
    }
}

/// The digest of a byte sequence under the given algorithm, rendered as
/// lowercase hex text. Dispatch over the algorithm is the whole definition;
/// the per-algorithm digests are named, not restated.
pub open spec fn spec_digest(alg: HashAlgorithm, data: Seq<u8>) -> Seq<char> {
    match alg {
        HashAlgorithm::Md5 => hex_of(md5_of(data)),
        HashAlgorithm::Sha1 => hex_of(sha1_of(data)),
        HashAlgorithm::Sha256 => hex_of(sha256_of(data)),
        HashAlgorithm::Sha512 => hex_of(sha512_of(data)),
        HashAlgorithm::Blake3 => blake3_hex_of(data),
    }
}

impl HashAlgorithm {
    /// Length in hex characters of a digest under this algorithm.
    pub fn digest_len(self) -> (n: usize)
        ensures
            n == spec_digest_len(self),
    {
        match self {
            HashAlgorithm::Md5 => 32,
            HashAlgorithm::Sha1 => 40,
            HashAlgorithm::Sha256 => 64,
            HashAlgorithm::Sha512 => 128,
            HashAlgorithm::Blake3 => 64,
        }
    }
}

/// An in-progress digest computation: one algorithm's accumulator, modeled
/// by the algorithm it was opened for and the bytes fed so far.
pub enum DigestStream {
    Md5(Md5State),
    Sha1(Sha1State),
    Sha256(Sha256State),
    Sha512(Sha512State),
    Blake3(Blake3State),
}

impl DigestStream {
    /// The algorithm this stream accumulates for.
    pub open spec fn alg(self) -> HashAlgorithm {
        match self {
            DigestStream::Md5(_) => HashAlgorithm::Md5,
            DigestStream::Sha1(_) => HashAlgorithm::Sha1,
            DigestStream::Sha256(_) => HashAlgorithm::Sha256,
            DigestStream::Sha512(_) => HashAlgorithm::Sha512,
            DigestStream::Blake3(_) => HashAlgorithm::Blake3,
        }
    }

    /// The bytes fed to this stream so far, in order.
    pub open spec fn fed(self) -> Seq<u8> {
        match self {
            DigestStream::Md5(st) => md5_fed(st),
            DigestStream::Sha1(st) => sha1_fed(st),
            DigestStream::Sha256(st) => sha256_fed(st),
            DigestStream::Sha512(st) => sha512_fed(st),
            DigestStream::Blake3(st) => blake3_fed(st),
        }
    }

    /// Opens a fresh accumulator for the given algorithm.
    pub fn new(alg: HashAlgorithm) -> (s: Self)
        ensures
            s.alg() == alg,
            s.fed() == Seq::<u8>::empty(),
    {
        match alg {
            HashAlgorithm::Md5 => DigestStream::Md5(md5_new()),
            HashAlgorithm::Sha1 => DigestStream::Sha1(sha1_new()),
            HashAlgorithm::Sha256 => DigestStream::Sha256(sha256_new()),
            HashAlgorithm::Sha512 => DigestStream::Sha512(sha512_new()),
            HashAlgorithm::Blake3 => DigestStream::Blake3(blake3_new()),
        }
    }

    /// Feeds one chunk: the fed bytes grow by exactly this chunk, at the end.
    pub fn update(self, chunk: &[u8]) -> (s: Self)
        ensures
            s.alg() == self.alg(),
            s.fed() == self.fed() + chunk@,
    {
        match self {
            DigestStream::Md5(st) => DigestStream::Md5(md5_update(st, chunk)),
            DigestStream::Sha1(st) => DigestStream::Sha1(sha1_update(st, chunk)),
            DigestStream::Sha256(st) => DigestStream::Sha256(sha256_update(st, chunk)),
            DigestStream::Sha512(st) => DigestStream::Sha512(sha512_update(st, chunk)),
            DigestStream::Blake3(st) => DigestStream::Blake3(blake3_update(st, chunk)),
        }
    }

    /// Closes the accumulator and renders the digest of everything fed, as
    /// lowercase hex of the algorithm's fixed width.
    pub fn finalize(self) -> (digest: String)
        ensures
            digest@ == spec_digest(self.alg(), self.fed()),
            digest@.len() == spec_digest_len(self.alg()),
            all_lower_hex(digest@),
    {
        match self {
            DigestStream::Md5(st) => {
                let bytes = md5_finalize(st);
                hex_encode(bytes.as_slice())
            },
            DigestStream::Sha1(st) => {
                let bytes = sha1_finalize(st);
                hex_encode(bytes.as_slice())
            },
            DigestStream::Sha256(st) => {
                let bytes = sha256_finalize(st);
                hex_encode(bytes.as_slice())
            },
            DigestStream::Sha512(st) => {
                let bytes = sha512_finalize(st);
                hex_encode(bytes.as_slice())
            },
            DigestStream::Blake3(st) => blake3_finalize_hex(st),
        }
    }
}

/// The digest engine: holds exactly one algorithm for its lifetime and keeps
/// no other state across calls.
pub struct Hasher {
    algorithm: HashAlgorithm,
}

impl Hasher {
    /// The algorithm this engine was configured with.
    pub closed spec fn alg(self) -> HashAlgorithm {
        self.algorithm
    }

    /// Creates an engine for the given algorithm.
    pub fn new(algorithm: HashAlgorithm) -> (h: Self)
        ensures
            h.alg() == algorithm,
    {
        Self { algorithm }
    }

    /// Returns the configured algorithm.
    pub fn algorithm(&self) -> (a: HashAlgorithm)
        ensures
            a == self.alg(),
    {
        self.algorithm
    }

    /// Digests a whole buffer by streaming it in fixed-size chunks, in
    /// order, with no chunk skipped or repeated: the result is the digest of
    /// exactly the given bytes, as fixed-width lowercase hex.
    pub fn hash_bytes(&self, data: &[u8]) -> (digest: String)
        ensures
            digest@ == spec_digest(self.alg(), data@),
            digest@.len() == spec_digest_len(self.alg()),
            all_lower_hex(digest@),
    {
        let mut stream = DigestStream::new(self.algorithm);
        let len = data.len();
        let mut i: usize = 0;
        while i < len
            invariant
                len == data@.len(),
                i <= len,
                stream.alg() == self.alg(),
                stream.fed() == data@.subrange(0, i as int),
            decreases len - i,
        {
            let end = if len - i < CHUNK_LEN {
                len
            } else {
                i + CHUNK_LEN
            };
            let chunk = vstd::slice::slice_subrange(data, i, end);
            stream = stream.update(chunk);
            proof {
                assert(data@.subrange(0, i as int) + data@.subrange(i as int, end as int)
                    =~= data@.subrange(0, end as int));
            }
            i = end;
        }
        proof {
            assert(data@.subrange(0, len as int) =~= data@);
        }
        stream.finalize()
    }
}

/// Idempotence of hashing: the digest is a function of the algorithm and the
/// bytes alone, so hashing the same unmodified content twice under the same
/// algorithm yields an identical digest.
pub proof fn lemma_digest_deterministic(alg: HashAlgorithm, data1: Seq<u8>, data2: Seq<u8>)
    requires
        data1 == data2,
    ensures
        spec_digest(alg, data1) == spec_digest(alg, data2),
{
}

} // verus!
