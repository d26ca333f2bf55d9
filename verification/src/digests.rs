//! Trusted boundary around the outside digest crates.
//!
//! Each supported algorithm gets an opaque accumulator state whose contents —
//! the bytes fed so far — are tracked by an uninterpreted spec function, and
//! three wrappers (fresh state, feed a chunk, finalize). The digest a finalize
//! call returns is named as an uninterpreted function of the fed bytes alone:
//! nothing in this crate restates the published algorithms themselves.
use vstd::prelude::*;

verus! {

use md5::Digest;

/// Holds iff the character is a lowercase hexadecimal digit.
pub open spec fn is_lower_hex_char(c: char) -> bool {
    c == '0' || c == '1' || c == '2' || c == '3' || c == '4' || c == '5' || c == '6' || c == '7'
        || c == '8' || c == '9' || c == 'a' || c == 'b' || c == 'c' || c == 'd' || c == 'e'
        || c == 'f'
}

/// Holds iff every character of the sequence is a lowercase hex digit.
pub open spec fn all_lower_hex(s: Seq<char>) -> bool {
    forall|i: int| 0 <= i < s.len() ==> is_lower_hex_char(#[trigger] s[i])
}

/// The MD5 digest (16 bytes) of a byte sequence, as md5::Md5 computes it.
pub uninterp spec fn md5_of(data: Seq<u8>) -> Seq<u8>;

/// The SHA-1 digest (20 bytes) of a byte sequence, as sha1::Sha1 computes it.
pub uninterp spec fn sha1_of(data: Seq<u8>) -> Seq<u8>;

/// The SHA-256 digest (32 bytes) of a byte sequence, as sha2::Sha256 computes it.
pub uninterp spec fn sha256_of(data: Seq<u8>) -> Seq<u8>;

/// The SHA-512 digest (64 bytes) of a byte sequence, as sha2::Sha512 computes it.
pub uninterp spec fn sha512_of(data: Seq<u8>) -> Seq<u8>;

/// The BLAKE3 digest of a byte sequence, rendered as lowercase hex by
/// blake3::Hash::to_hex.
pub uninterp spec fn blake3_hex_of(data: Seq<u8>) -> Seq<char>;

/// The lowercase hexadecimal rendering of a byte sequence, as hex::encode
/// produces it: two digits per byte.
pub uninterp spec fn hex_of(bytes: Seq<u8>) -> Seq<char>;

/// An incremental MD5 accumulator from the md-5 crate, opaque to the
/// verifier; `md5_fed` gives the bytes it has absorbed so far.
#[verifier::external_body]
pub struct Md5State {
    inner: md5::Md5,
}

/// The bytes an MD5 accumulator has absorbed so far.
pub uninterp spec fn md5_fed(st: Md5State) -> Seq<u8>;

/// An incremental SHA-1 accumulator from the sha1 crate, opaque to the
/// verifier; `sha1_fed` gives the bytes it has absorbed so far.
#[verifier::external_body]
pub struct Sha1State {
    inner: sha1::Sha1,
}

/// The bytes a SHA-1 accumulator has absorbed so far.
pub uninterp spec fn sha1_fed(st: Sha1State) -> Seq<u8>;

/// An incremental SHA-256 accumulator from the sha2 crate, opaque to the
/// verifier; `sha256_fed` gives the bytes it has absorbed so far.
#[verifier::external_body]
pub struct Sha256State {
    inner: sha2::Sha256,
}

/// The bytes a SHA-256 accumulator has absorbed so far.
pub uninterp spec fn sha256_fed(st: Sha256State) -> Seq<u8>;

/// An incremental SHA-512 accumulator from the sha2 crate, opaque to the
/// verifier; `sha512_fed` gives the bytes it has absorbed so far.
#[verifier::external_body]
pub struct Sha512State {
    inner: sha2::Sha512,
}

/// The bytes a SHA-512 accumulator has absorbed so far.
pub uninterp spec fn sha512_fed(st: Sha512State) -> Seq<u8>;

/// An incremental BLAKE3 accumulator from the blake3 crate, opaque to the
/// verifier; `blake3_fed` gives the bytes it has absorbed so far.
#[verifier::external_body]
pub struct Blake3State {
    inner: blake3::Hasher,
}

/// The bytes a BLAKE3 accumulator has absorbed so far.
pub uninterp spec fn blake3_fed(st: Blake3State) -> Seq<u8>;

/// Relies on md5::Md5::new: a fresh accumulator has absorbed nothing.
#[verifier::external_body]
pub(crate) fn md5_new() -> (st: Md5State)
    ensures
        md5_fed(st) == Seq::<u8>::empty(),
{
    Md5State { inner: md5::Md5::new() }
}

/// Relies on md5::Md5::update: absorbing a chunk appends it to the fed bytes.
#[verifier::external_body]
pub(crate) fn md5_update(st: Md5State, chunk: &[u8]) -> (r: Md5State)
    ensures
        md5_fed(r) == md5_fed(st) + chunk@,
{
    let mut st = st;
    st.inner.update(chunk);
    st
}

/// Relies on md5::Md5::finalize: the 16-byte MD5 digest of the fed bytes.
#[verifier::external_body]
pub(crate) fn md5_finalize(st: Md5State) -> (r: Vec<u8>)
    ensures
        r@ == md5_of(md5_fed(st)),
        r@.len() == 16,
{
    st.inner.finalize().to_vec()
}

/// Relies on sha1::Sha1::new: a fresh accumulator has absorbed nothing.
#[verifier::external_body]
pub(crate) fn sha1_new() -> (st: Sha1State)
    ensures
        sha1_fed(st) == Seq::<u8>::empty(),
{
    Sha1State { inner: sha1::Sha1::new() }
}

/// Relies on sha1::Sha1::update: absorbing a chunk appends it to the fed bytes.
#[verifier::external_body]
pub(crate) fn sha1_update(st: Sha1State, chunk: &[u8]) -> (r: Sha1State)
    ensures
        sha1_fed(r) == sha1_fed(st) + chunk@,
{
    let mut st = st;
    st.inner.update(chunk);
    st
}

/// Relies on sha1::Sha1::finalize: the 20-byte SHA-1 digest of the fed bytes.
#[verifier::external_body]
pub(crate) fn sha1_finalize(st: Sha1State) -> (r: Vec<u8>)
    ensures
        r@ == sha1_of(sha1_fed(st)),
        r@.len() == 20,
{
    st.inner.finalize().to_vec()
}

/// Relies on sha2::Sha256::new: a fresh accumulator has absorbed nothing.
#[verifier::external_body]
pub(crate) fn sha256_new() -> (st: Sha256State)
    ensures
        sha256_fed(st) == Seq::<u8>::empty(),
{
    Sha256State { inner: sha2::Sha256::new() }
}

/// Relies on sha2::Sha256::update: absorbing a chunk appends it to the fed bytes.
#[verifier::external_body]
pub(crate) fn sha256_update(st: Sha256State, chunk: &[u8]) -> (r: Sha256State)
    ensures
        sha256_fed(r) == sha256_fed(st) + chunk@,
{
    let mut st = st;
    st.inner.update(chunk);
    st
}

/// Relies on sha2::Sha256::finalize: the 32-byte SHA-256 digest of the fed bytes.
#[verifier::external_body]
pub(crate) fn sha256_finalize(st: Sha256State) -> (r: Vec<u8>)
    ensures
        r@ == sha256_of(sha256_fed(st)),
        r@.len() == 32,
{
    st.inner.finalize().to_vec()
}

/// Relies on sha2::Sha512::new: a fresh accumulator has absorbed nothing.
#[verifier::external_body]
pub(crate) fn sha512_new() -> (st: Sha512State)
    ensures
        sha512_fed(st) == Seq::<u8>::empty(),
{
    Sha512State { inner: sha2::Sha512::new() }
}

/// Relies on sha2::Sha512::update: absorbing a chunk appends it to the fed bytes.
#[verifier::external_body]
pub(crate) fn sha512_update(st: Sha512State, chunk: &[u8]) -> (r: Sha512State)
    ensures
        sha512_fed(r) == sha512_fed(st) + chunk@,
{
    let mut st = st;
    st.inner.update(chunk);
    st
}

/// Relies on sha2::Sha512::finalize: the 64-byte SHA-512 digest of the fed bytes.
#[verifier::external_body]
pub(crate) fn sha512_finalize(st: Sha512State) -> (r: Vec<u8>)
    ensures
        r@ == sha512_of(sha512_fed(st)),
        r@.len() == 64,
{
    st.inner.finalize().to_vec()
}

/// Relies on blake3::Hasher::new: a fresh accumulator has absorbed nothing.
#[verifier::external_body]
pub(crate) fn blake3_new() -> (st: Blake3State)
    ensures
        blake3_fed(st) == Seq::<u8>::empty(),
{
    Blake3State { inner: blake3::Hasher::new() }
}

/// Relies on blake3::Hasher::update: absorbing a chunk appends it to the fed bytes.
#[verifier::external_body]
pub(crate) fn blake3_update(st: Blake3State, chunk: &[u8]) -> (r: Blake3State)
    ensures
        blake3_fed(r) == blake3_fed(st) + chunk@,
{
    let mut st = st;
    st.inner.update(chunk);
    st
}

/// Relies on blake3::Hasher::finalize and blake3::Hash::to_hex: the BLAKE3
/// digest of the fed bytes, rendered as 64 lowercase hex characters.
#[verifier::external_body]
pub(crate) fn blake3_finalize_hex(st: Blake3State) -> (r: String)
    ensures
        r@ == blake3_hex_of(blake3_fed(st)),
        r@.len() == 64,
        all_lower_hex(r@),
{
    st.inner.finalize().to_hex().as_str().to_owned()
}

/// Relies on hex::encode: the lowercase hex rendering of the bytes, two
/// digits per byte.
#[verifier::external_body]
pub(crate) fn hex_encode(bytes: &[u8]) -> (r: String)
    ensures
        r@ == hex_of(bytes@),
        r@.len() == 2 * bytes@.len(),
        all_lower_hex(r@),
{
    hex::encode(bytes)
}

} // verus!
