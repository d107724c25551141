//! Compression, keys and encryption of file data: zstd compression, a
//! 32-byte key from hexadecimal text, and AES-256-GCM sealing of the
//! compressed data in chunks, each with a fresh random nonce.

use vstd::prelude::*;
use std::io::Write;
use aes_gcm::aead::{Aead, KeyInit};
use rand::RngCore;
use crate::codec::{b64_encode, base64_decode, base64_encode, hex_bytes, hex_decode, hex_value, is_hex_text, law_base64_injective};

verus! {

/// The compression level of every zstd stream this library writes.
pub const COMPRESSION_LEVEL: i32 = 3;

/// The size of the plaintext chunks that are sealed one by one (1 MiB).
pub const CHUNK_SIZE: usize = 1048576;

/// The length of a key in bytes.
pub const KEY_LEN: usize = 32;

/// The length of a nonce in bytes.
pub const NONCE_LEN: usize = 12;

/// The length of an authentication tag in bytes.
pub const TAG_LEN: usize = 16;

/// Why data could not be compressed, or a key not read.
#[derive(Debug, Clone, Copy, PartialEq, Eq, Structural)]
pub enum SecurityError {
    /// The zstd encoder reported an error.
    Compression,
    /// The key text is not an even number of hexadecimal digits.
    InvalidHex,
    /// The key text does not denote exactly 32 bytes.
    WrongKeyLength,
    /// The text is not base64.
    InvalidBase64,
    /// The bytes are not a zstd stream.
    Decompression,
    /// A sealed chunk does not open under the key.
    Decryption,
}

/// What a zstd stream encoder at `level` writes for `data`: `None` where it
/// reports an error.
pub uninterp spec fn zstd_stream(data: Seq<u8>, level: i32) -> Option<Seq<u8>>;

/// `zstd::Encoder::new` on a `Vec`, `write_all` of the data, `finish`.
/// Trusted: the result is `zstd_stream` of the data and level, and at level
/// 3 it succeeds: that level is in range, the dictionary is empty, and
/// writing to a `Vec` does not fail (memory is taken not to run out);
/// nothing more is stated of the zstd format.
#[verifier::external_body]
fn zstd_compress(data: &[u8], level: i32) -> (r: Option<Vec<u8>>)
    ensures
        match r {
            Some(v) => zstd_stream(data@, level) == Some(v@),
            None => zstd_stream(data@, level) is None,
        },
        level == COMPRESSION_LEVEL ==> r is Some,
{
    let mut encoder = zstd::Encoder::new(Vec::new(), level).ok()?;
    encoder.write_all(data).ok()?;
    encoder.finish().ok()
}

/// Compress `data` into one zstd stream at level 3; this always succeeds.
pub fn compress_data(data: &[u8]) -> (r: Result<Vec<u8>, SecurityError>)
    ensures
        r is Ok,
        match r {
            Ok(v) => zstd_stream(data@, COMPRESSION_LEVEL) == Some(v@),
            Err(e) => e == SecurityError::Compression && zstd_stream(data@, COMPRESSION_LEVEL) is None,
        },
{
    match zstd_compress(data, COMPRESSION_LEVEL) {
        Some(v) => Ok(v),
        None => Err(SecurityError::Compression),
    }
}

/// What `zstd::decode_all` gives for `data`: `None` where it reports an
/// error.
pub uninterp spec fn zstd_decoded(data: Seq<u8>) -> Option<Seq<u8>>;

/// `zstd::decode_all`. Trusted: the result is `zstd_decoded` of the bytes,
/// and zstd is lossless: a stream that the encoder wrote for some data
/// decodes to exactly that data.
#[verifier::external_body]
fn zstd_decompress(data: &[u8]) -> (r: Option<Vec<u8>>)
    ensures
        match r {
            Some(v) => zstd_decoded(data@) == Some(v@),
            None => zstd_decoded(data@) is None,
        },
        r matches Some(v) ==> forall|d: Seq<u8>, level: i32|
            #[trigger] zstd_stream(d, level) == Some(data@) ==> v@ == d,
        (exists|d: Seq<u8>, level: i32| #[trigger] zstd_stream(d, level) == Some(data@)) ==> r is Some,
{
    zstd::decode_all(data).ok()
}

/// The data that a zstd stream holds; a stream written for some data gives
/// back exactly that data.
pub fn decompress_data(data: &[u8]) -> (r: Result<Vec<u8>, SecurityError>)
    ensures
        match r {
            Ok(v) => zstd_decoded(data@) == Some(v@),
            Err(e) => e == SecurityError::Decompression && zstd_decoded(data@) is None,
        },
        forall|d: Seq<u8>, level: i32|
            #[trigger] zstd_stream(d, level) == Some(data@) ==> (r matches Ok(v) && v@ == d),
{
    match zstd_decompress(data) {
        Some(v) => Ok(v),
        None => Err(SecurityError::Decompression),
    }
}

/// Compressed file data as text: the base64 of its zstd stream; this always
/// succeeds, and the compression quality does not change it.
pub fn compress_file(data: &[u8], _quality: crate::gui::CompressionQuality) -> (r: Result<
    String,
    SecurityError,
>)
    ensures
        r is Ok,
        match r {
            Ok(s) => exists|z: Seq<u8>|
                zstd_stream(data@, COMPRESSION_LEVEL) == Some(z) && s@ == b64_encode(z),
            Err(e) => e == SecurityError::Compression && zstd_stream(data@, COMPRESSION_LEVEL) is None,
        },
{
    let compressed = compress_data(data)?;
    Ok(base64_encode(compressed.as_slice()))
}

/// The file data that the text of `compress_file` holds: base64-decode it,
/// then decompress. Text that `compress_file` gave for some data gives back
/// exactly that data.
pub fn restore_compressed(s: &str) -> (r: Result<Vec<u8>, SecurityError>)
    ensures
        forall|f: Seq<u8>, z: Seq<u8>|
            #![trigger zstd_stream(f, COMPRESSION_LEVEL), b64_encode(z)]
            zstd_stream(f, COMPRESSION_LEVEL) == Some(z) && b64_encode(z) == s@ ==> (r matches Ok(
                v,
            ) && v@ == f),
        match r {
            Ok(v) => exists|z: Seq<u8>| b64_encode(z) == s@ && zstd_decoded(z) == Some(v@),
            Err(SecurityError::InvalidBase64) => forall|x: Seq<u8>| b64_encode(x) != s@,
            Err(SecurityError::Decompression) => exists|z: Seq<u8>|
                b64_encode(z) == s@ && zstd_decoded(z) is None,
            Err(_) => false,
        },
{
    let z = match base64_decode(s) {
        Some(z) => z,
        None => {
            return Err(SecurityError::InvalidBase64);
        },
    };
    let r = decompress_data(z.as_slice());
    proof {
        assert forall|f: Seq<u8>, zz: Seq<u8>|
            #![trigger zstd_stream(f, COMPRESSION_LEVEL), b64_encode(zz)]
            zstd_stream(f, COMPRESSION_LEVEL) == Some(zz) && b64_encode(zz) == s@ implies (
            r matches Ok(v) && v@ == f) by {
            law_base64_injective(zz, z@);
        }
    }
    r
}

/// The key that hexadecimal text denotes: `Ok` exactly for 64 hexadecimal
/// digits (either case), two per byte, high digit first.
pub fn hex_key_to_bytes(s: &str) -> (r: Result<[u8; 32], SecurityError>)
    ensures
        match r {
            Ok(k) => is_hex_text(s@) && hex_bytes(s@).len() == KEY_LEN && k@ == hex_bytes(s@),
            Err(e) => (e == SecurityError::InvalidHex && !is_hex_text(s@)) || (e
                == SecurityError::WrongKeyLength && is_hex_text(s@) && hex_bytes(s@).len()
                != KEY_LEN),
        },
{
    let v = match hex_decode(s) {
        Some(v) => v,
        None => {
            return Err(SecurityError::InvalidHex);
        },
    };
    if v.len() != KEY_LEN {
        return Err(SecurityError::WrongKeyLength);
    }
    let mut a: [u8; 32] = [0u8; 32];
    let mut i: usize = 0;
    while i < KEY_LEN
        invariant
            v@.len() == KEY_LEN,
            i <= KEY_LEN,
            forall|j: int| 0 <= j < i ==> a@[j] == v@[j],
        decreases KEY_LEN - i,
    {
        a[i] = v[i];
        i = i + 1;
    }
    assert(a@ =~= v@);
    Ok(a)
}

/// What AES-256-GCM gives for `plaintext` under `key` and `nonce` with no
/// associated data: the ciphertext followed by the tag.
pub uninterp spec fn aes_gcm_seal(key: Seq<u8>, nonce: Seq<u8>, plaintext: Seq<u8>) -> Seq<u8>;

/// `Aes256Gcm::new` and `Aead::encrypt`. Trusted: it refuses a plaintext
/// only when that is longer than 2^36 bytes; otherwise the result is
/// `aes_gcm_seal` of its arguments and is 16 bytes longer than the plaintext.
#[verifier::external_body]
fn aes_gcm_encrypt(key: &[u8; 32], nonce: &[u8; 12], plaintext: &[u8]) -> (r: Option<Vec<u8>>)
    ensures
        r is Some <==> plaintext@.len() <= 0x10_0000_0000,
        r matches Some(c) ==> c@ == aes_gcm_seal(key@, nonce@, plaintext@) && c@.len()
            == plaintext@.len() + TAG_LEN,
{
    let cipher = aes_gcm::Aes256Gcm::new(key.into());
    cipher.encrypt(aes_gcm::Nonce::from_slice(nonce), plaintext).ok()
}

/// What AES-256-GCM decryption gives for `ciphertext` (ciphertext followed
/// by the tag) under `key` and `nonce`: `None` where it does not
/// authenticate.
pub uninterp spec fn aes_gcm_open(key: Seq<u8>, nonce: Seq<u8>, ciphertext: Seq<u8>) -> Option<
    Seq<u8>,
>;

/// `Aes256Gcm::new` and `Aead::decrypt`. Trusted: the result is
/// `aes_gcm_open` of its arguments, and decryption undoes encryption: the
/// sealed form of a plaintext of at most 2^36 bytes opens to that plaintext.
#[verifier::external_body]
fn aes_gcm_decrypt(key: &[u8; 32], nonce: &[u8; 12], ciphertext: &[u8]) -> (r: Option<Vec<u8>>)
    ensures
        match r {
            Some(v) => aes_gcm_open(key@, nonce@, ciphertext@) == Some(v@),
            None => aes_gcm_open(key@, nonce@, ciphertext@) is None,
        },
        r matches Some(v) ==> forall|p: Seq<u8>|
            p.len() <= 0x10_0000_0000 && #[trigger] aes_gcm_seal(key@, nonce@, p) == ciphertext@
                ==> v@ == p,
        (exists|p: Seq<u8>|
            p.len() <= 0x10_0000_0000 && #[trigger] aes_gcm_seal(key@, nonce@, p) == ciphertext@)
            ==> r is Some,
{
    let cipher = aes_gcm::Aes256Gcm::new(key.into());
    cipher.decrypt(aes_gcm::Nonce::from_slice(nonce), ciphertext).ok()
}

/// `rand::rng().fill_bytes`: 12 random bytes. Trusted; nothing is stated of
/// their values.
#[verifier::external_body]
fn random_nonce() -> (r: [u8; 12]) {
    let mut nonce = [0u8; 12];
    rand::rng().fill_bytes(&mut nonce);
    nonce
}

/// The number of chunks of at most `CHUNK_SIZE` bytes that `n` bytes fill.
pub open spec fn chunk_count(n: int) -> int {
    (n + CHUNK_SIZE - 1) / (CHUNK_SIZE as int)
}

/// The `i`-th chunk of `data`: `CHUNK_SIZE` bytes from `i * CHUNK_SIZE`, or
/// what is left.
pub open spec fn chunk_of(data: Seq<u8>, i: int) -> Seq<u8> {
    let start = i * CHUNK_SIZE;
    let end = if (i + 1) * CHUNK_SIZE <= data.len() {
        (i + 1) * CHUNK_SIZE
    } else {
        data.len() as int
    };
    data.subrange(start, end)
}

/// One sealed chunk as it is written: the nonce, then the ciphertext and tag.
pub open spec fn frame(key: Seq<u8>, nonce: Seq<u8>, chunk: Seq<u8>) -> Seq<u8> {
    nonce + aes_gcm_seal(key, nonce, chunk)
}

/// The first `k` chunks of `data`, each sealed with its nonce of `nonces`.
pub open spec fn sealed_chunks(key: Seq<u8>, data: Seq<u8>, nonces: Seq<Seq<u8>>, k: nat) -> Seq<
    u8,
>
    decreases k,
{
    if k == 0 {
        seq![]
    } else {
        sealed_chunks(key, data, nonces, (k - 1) as nat) + frame(
            key,
            nonces[k - 1],
            chunk_of(data, k - 1),
        )
    }
}

/// `out` is `data` sealed chunk by chunk under `key`, with some nonces of 12
/// bytes, one per chunk.
pub open spec fn is_sealing(out: Seq<u8>, key: Seq<u8>, data: Seq<u8>) -> bool {
    exists|nonces: Seq<Seq<u8>>| sealed_with(out, key, data, nonces)
}

/// `out` is `data` sealed chunk by chunk under `key` with `nonces`, one of
/// 12 bytes per chunk; each sealed chunk is 16 bytes longer than the chunk.
pub open spec fn sealed_with(out: Seq<u8>, key: Seq<u8>, data: Seq<u8>, nonces: Seq<Seq<u8>>) -> bool {
    let c = chunk_count(data.len() as int);
    &&& nonces.len() == c
    &&& forall|i: int| 0 <= i < c ==> (#[trigger] nonces[i]).len() == NONCE_LEN
    &&& forall|i: int|
        0 <= i < c ==> (#[trigger] aes_gcm_seal(key, nonces[i], chunk_of(data, i))).len()
            == chunk_of(data, i).len() + TAG_LEN
    &&& out == sealed_chunks(key, data, nonces, c as nat)
}

fn append_bytes(out: &mut Vec<u8>, src: &[u8])
    ensures
        final(out)@ == old(out)@ + src@,
{
    let mut i: usize = 0;
    while i < src.len()
        invariant
            i <= src@.len(),
            out@ == old(out)@ + src@.take(i as int),
        decreases src@.len() - i,
    {
        out.push(src[i]);
        i = i + 1;
        assert(out@ =~= old(out)@ + src@.take(i as int));
    }
    assert(src@.take(src@.len() as int) =~= src@);
}

/// The views of a sequence of nonces.
pub open spec fn nonce_views(ns: Seq<[u8; 12]>) -> Seq<Seq<u8>> {
    ns.map_values(|n: [u8; 12]| n@)
}

/// Seal `data` under `key` in chunks of `CHUNK_SIZE` bytes, the `i`-th with
/// `nonces[i]`, each written as its nonce followed by its ciphertext and
/// tag.
pub fn seal_with_nonces(key: &[u8; 32], data: &[u8], nonces: &Vec<[u8; 12]>) -> (out: Vec<u8>)
    requires
        nonces@.len() == chunk_count(data@.len() as int),
    ensures
        sealed_with(out@, key@, data@, nonce_views(nonces@)),
        out@.len() == data@.len() + chunk_count(data@.len() as int) * (NONCE_LEN + TAG_LEN),
{
    let ghost ns = nonce_views(nonces@);
    let n = data.len();
    let mut out: Vec<u8> = Vec::new();
    let mut pos: usize = 0;
    let mut k: usize = 0;
    while pos < n
        invariant
            n == data@.len(),
            ns == nonce_views(nonces@),
            nonces@.len() == chunk_count(n as int),
            pos <= n,
            pos < n ==> pos == k * CHUNK_SIZE,
            k == 0 || (k - 1) * CHUNK_SIZE < n,
            pos == n ==> k * CHUNK_SIZE >= n,
            k <= nonces@.len(),
            forall|i: int|
                0 <= i < k ==> (#[trigger] aes_gcm_seal(key@, ns[i], chunk_of(data@, i))).len()
                    == chunk_of(data@, i).len() + TAG_LEN,
            out@ == sealed_chunks(key@, data@, ns, k as nat),
            out@.len() == pos + k * (NONCE_LEN + TAG_LEN),
        decreases n - pos,
    {
        let end: usize = if n - pos > CHUNK_SIZE {
            pos + CHUNK_SIZE
        } else {
            n
        };
        let chunk = &data[pos..end];
        assert(chunk@ == chunk_of(data@, k as int));
        proof {
            lemma_chunk_bounds(n as int);
            assert(k < chunk_count(n as int));
        }
        let nonce: &[u8; 12] = &nonces[k];
        assert(ns[k as int] == nonce@);
        let sealed = match aes_gcm_encrypt(key, nonce, chunk) {
            Some(c) => c,
            None => {
                assert(false);
                return out;
            },
        };
        let ghost before = out@;
        append_bytes(&mut out, nonce.as_slice());
        append_bytes(&mut out, sealed.as_slice());
        assert(out@.len() == before.len() + NONCE_LEN + (end - pos) + TAG_LEN);
        k = k + 1;
        proof {
            assert(k * (NONCE_LEN + TAG_LEN) == (k - 1) * (NONCE_LEN + TAG_LEN) + NONCE_LEN
                + TAG_LEN) by (nonlinear_arith);
            assert(out@ =~= sealed_chunks(key@, data@, ns, k as nat));
        }
        pos = end;
    }
    proof {
        assert(k == chunk_count(n as int));
        assert forall|i: int| 0 <= i < chunk_count(n as int) implies (#[trigger] ns[i]).len()
            == NONCE_LEN by {
            assert(ns[i] == nonces@[i]@);
        }
        assert(sealed_with(out@, key@, data@, ns));
    }
    out
}

/// The number of chunks that `n` bytes fill.
fn count_chunks(n: usize) -> (c: usize)
    ensures
        c == chunk_count(n as int),
{
    let c = if n % CHUNK_SIZE == 0 {
        n / CHUNK_SIZE
    } else {
        n / CHUNK_SIZE + 1
    };
    proof {
        let q = n / CHUNK_SIZE;
        let r = n % CHUNK_SIZE;
        assert(n == q * CHUNK_SIZE + r && 0 <= r < CHUNK_SIZE);
        assert(chunk_count(n as int) == (q * CHUNK_SIZE + r + CHUNK_SIZE - 1) / (CHUNK_SIZE as int));
        if r == 0 {
            assert((q * CHUNK_SIZE + CHUNK_SIZE - 1) / (CHUNK_SIZE as int) == q) by (nonlinear_arith);
        } else {
            assert((q * CHUNK_SIZE + r + CHUNK_SIZE - 1) / (CHUNK_SIZE as int) == q + 1)
                by (nonlinear_arith)
                requires
                    0 < r < CHUNK_SIZE,
            ;
        }
    }
    c
}

/// Seal `data` under `key` in chunks of `CHUNK_SIZE` bytes, each with a
/// fresh random nonce (see `seal_with_nonces`).
pub fn seal_chunks(key: &[u8; 32], data: &[u8]) -> (out: Vec<u8>)
    ensures
        is_sealing(out@, key@, data@),
        out@.len() == data@.len() + chunk_count(data@.len() as int) * (NONCE_LEN + TAG_LEN),
{
    let count = count_chunks(data.len());
    let mut nonces: Vec<[u8; 12]> = Vec::new();
    while nonces.len() < count
        invariant
            nonces@.len() <= count,
        decreases count - nonces@.len(),
    {
        nonces.push(random_nonce());
    }
    let out = seal_with_nonces(key, data, &nonces);
    assert(sealed_with(out@, key@, data@, nonce_views(nonces@)));
    out
}

/// The first `k` chunks of `data`, joined.
pub open spec fn joined_chunks(data: Seq<u8>, k: nat) -> Seq<u8>
    decreases k,
{
    if k == 0 {
        seq![]
    } else {
        joined_chunks(data, (k - 1) as nat) + chunk_of(data, k - 1)
    }
}

proof fn lemma_joined_prefix(data: Seq<u8>, k: nat)
    requires
        k * CHUNK_SIZE <= data.len(),
    ensures
        joined_chunks(data, k) == data.take(k * CHUNK_SIZE),
    decreases k,
{
    if k > 0 {
        lemma_joined_prefix(data, (k - 1) as nat);
        assert(data.take((k - 1) * CHUNK_SIZE) + chunk_of(data, k - 1) =~= data.take(
            k * CHUNK_SIZE,
        ));
    }
}

/// The chunks that are sealed cover the data exactly: joined in order they
/// give back every byte of it, none twice.
pub proof fn law_chunks_cover_data(data: Seq<u8>)
    ensures
        joined_chunks(data, chunk_count(data.len() as int) as nat) == data,
{
    let n = data.len() as int;
    let c = chunk_count(n);
    if n == 0 {
        assert(c == 0);
        assert(joined_chunks(data, 0) =~= data);
    } else {
        assert(c >= 1);
        assert((c - 1) * CHUNK_SIZE < n);
        assert(c * CHUNK_SIZE >= n);
        lemma_joined_prefix(data, (c - 1) as nat);
        assert(data.take((c - 1) * CHUNK_SIZE) + chunk_of(data, c - 1) =~= data);
    }
}

/// The data is sealed in pieces of 1 MiB (1048576 bytes), all full but the
/// last, which holds the 1 to 1048576 bytes that are left; no data, no
/// piece.
pub proof fn law_chunk_sizes(data: Seq<u8>, i: int)
    requires
        0 <= i < chunk_count(data.len() as int),
    ensures
        i < chunk_count(data.len() as int) - 1 ==> chunk_of(data, i).len() == 1048576,
        1 <= chunk_of(data, i).len() <= 1048576,
        chunk_of(data, i) == data.subrange(i * 1048576, i * 1048576 + chunk_of(data, i).len()),
        chunk_count(0) == 0,
{
    lemma_chunk_len(data, i);
}

/// A key is exactly 64 hexadecimal digits, of either case.
pub proof fn law_key_text(key_hex: Seq<char>)
    ensures
        is_key_text(key_hex) <==> key_hex.len() == 64 && forall|i: int|
            0 <= i < key_hex.len() ==> hex_value(#[trigger] key_hex[i]) >= 0,
{
}

proof fn lemma_chunk_bounds(n: int)
    requires
        n > 0,
    ensures
        chunk_count(n) >= 1,
        (chunk_count(n) - 1) * CHUNK_SIZE < n,
        chunk_count(n) * CHUNK_SIZE >= n,
{
}

proof fn lemma_chunk_len(data: Seq<u8>, i: int)
    requires
        data.len() > 0,
        0 <= i < chunk_count(data.len() as int),
    ensures
        i < chunk_count(data.len() as int) - 1 ==> chunk_of(data, i).len() == CHUNK_SIZE,
        i == chunk_count(data.len() as int) - 1 ==> chunk_of(data, i).len() == data.len() - i
            * CHUNK_SIZE,
        chunk_of(data, i).len() <= CHUNK_SIZE,
        i * CHUNK_SIZE < data.len(),
{
    lemma_chunk_bounds(data.len() as int);
}

/// The bytes that a sealing of `dl` bytes holds from the start of its
/// `k`-th sealed chunk on.
proof fn lemma_room(dl: int, k: int)
    requires
        dl > 0,
        0 <= k < chunk_count(dl),
    ensures
        k < chunk_count(dl) - 1 ==> dl + chunk_count(dl) * (NONCE_LEN + TAG_LEN) - k * (NONCE_LEN
            + TAG_LEN + CHUNK_SIZE) > 2 * (NONCE_LEN + TAG_LEN) + CHUNK_SIZE,
        k == chunk_count(dl) - 1 ==> dl + chunk_count(dl) * (NONCE_LEN + TAG_LEN) - k * (NONCE_LEN
            + TAG_LEN + CHUNK_SIZE) == dl - k * CHUNK_SIZE + NONCE_LEN + TAG_LEN,
{
    let c = chunk_count(dl);
    lemma_chunk_bounds(dl);
    assert(k * (NONCE_LEN + TAG_LEN + CHUNK_SIZE) == k * (NONCE_LEN + TAG_LEN) + k * CHUNK_SIZE)
        by (nonlinear_arith);
    assert(c * (NONCE_LEN + TAG_LEN) - k * (NONCE_LEN + TAG_LEN) == (c - k) * (NONCE_LEN + TAG_LEN))
        by (nonlinear_arith);
    if k < c - 1 {
        assert((k + 1) * CHUNK_SIZE <= (c - 1) * CHUNK_SIZE) by (nonlinear_arith)
            requires
                k + 1 <= c - 1,
        ;
        assert((c - k) * (NONCE_LEN + TAG_LEN) >= 2 * (NONCE_LEN + TAG_LEN)) by (nonlinear_arith)
            requires
                c - k >= 2,
        ;
    }
}

/// A shorter sealing is a prefix of a longer one.
proof fn lemma_sealed_prefix_of(key: Seq<u8>, data: Seq<u8>, nonces: Seq<Seq<u8>>, k: nat, m: nat)
    requires
        k <= m,
    ensures
        sealed_chunks(key, data, nonces, k).len() <= sealed_chunks(key, data, nonces, m).len(),
        sealed_chunks(key, data, nonces, m).take(sealed_chunks(key, data, nonces, k).len() as int)
            == sealed_chunks(key, data, nonces, k),
    decreases m,
{
    if k < m {
        lemma_sealed_prefix_of(key, data, nonces, k, (m - 1) as nat);
        let a = sealed_chunks(key, data, nonces, (m - 1) as nat);
        let b = sealed_chunks(key, data, nonces, m);
        let lk = sealed_chunks(key, data, nonces, k).len() as int;
        assert(b.take(lk) =~= a.take(lk));
    } else {
        assert(sealed_chunks(key, data, nonces, m).take(
            sealed_chunks(key, data, nonces, m).len() as int,
        ) =~= sealed_chunks(key, data, nonces, m));
    }
}

/// The length of a sealing: the chunks joined, and a nonce and a tag per
/// chunk.
proof fn lemma_sealed_len(key: Seq<u8>, data: Seq<u8>, nonces: Seq<Seq<u8>>, k: nat)
    requires
        k <= nonces.len(),
        forall|i: int| 0 <= i < k ==> (#[trigger] nonces[i]).len() == NONCE_LEN,
        forall|i: int|
            0 <= i < k ==> (#[trigger] aes_gcm_seal(key, nonces[i], chunk_of(data, i))).len()
                == chunk_of(data, i).len() + TAG_LEN,
    ensures
        sealed_chunks(key, data, nonces, k).len() == k * (NONCE_LEN + TAG_LEN) + joined_chunks(
            data,
            k,
        ).len(),
    decreases k,
{
    if k > 0 {
        lemma_sealed_len(key, data, nonces, (k - 1) as nat);
        let i = k - 1;
        assert(nonces[i].len() == NONCE_LEN);
        assert(aes_gcm_seal(key, nonces[i], chunk_of(data, i)).len() == chunk_of(data, i).len()
            + TAG_LEN);
        assert(k * (NONCE_LEN + TAG_LEN) == (k - 1) * (NONCE_LEN + TAG_LEN) + NONCE_LEN + TAG_LEN)
            by (nonlinear_arith);
    }
}

/// Where the `k`-th sealed chunk stands in a sealing.
proof fn lemma_frame_at(out: Seq<u8>, key: Seq<u8>, data: Seq<u8>, nonces: Seq<Seq<u8>>, k: nat)
    requires
        sealed_with(out, key, data, nonces),
        k < chunk_count(data.len() as int),
    ensures
        data.len() > 0,
        k * CHUNK_SIZE <= data.len(),
        sealed_chunks(key, data, nonces, k).len() == k * (NONCE_LEN + TAG_LEN + CHUNK_SIZE),
        out.len() == data.len() + chunk_count(data.len() as int) * (NONCE_LEN + TAG_LEN),
        out.subrange(
            k * (NONCE_LEN + TAG_LEN + CHUNK_SIZE),
            k * (NONCE_LEN + TAG_LEN + CHUNK_SIZE) + NONCE_LEN,
        ) == nonces[k as int],
        out.subrange(
            k * (NONCE_LEN + TAG_LEN + CHUNK_SIZE) + NONCE_LEN,
            k * (NONCE_LEN + TAG_LEN + CHUNK_SIZE) + NONCE_LEN + chunk_of(data, k as int).len()
                + TAG_LEN,
        ) == aes_gcm_seal(key, nonces[k as int], chunk_of(data, k as int)),
{
    let c = chunk_count(data.len() as int);
    assert(data.len() > 0) by {
        if data.len() == 0 {
            assert(c == 0);
        }
    }
    lemma_chunk_len(data, k as int);
    lemma_joined_prefix(data, k);
    lemma_sealed_len(key, data, nonces, k);
    lemma_sealed_len(key, data, nonces, c as nat);
    law_chunks_cover_data(data);
    assert(k * (NONCE_LEN + TAG_LEN) + k * CHUNK_SIZE == k * (NONCE_LEN + TAG_LEN + CHUNK_SIZE))
        by (nonlinear_arith);
    lemma_sealed_prefix_of(key, data, nonces, (k + 1) as nat, c as nat);
    let base = sealed_chunks(key, data, nonces, k);
    let next = sealed_chunks(key, data, nonces, (k + 1) as nat);
    let f = frame(key, nonces[k as int], chunk_of(data, k as int));
    assert(next == base + f);
    let p = base.len() as int;
    assert(out.take(next.len() as int) == next);
    assert(out.subrange(p, p + NONCE_LEN) =~= next.subrange(p, p + NONCE_LEN));
    assert(next.subrange(p, p + NONCE_LEN) =~= nonces[k as int]);
    assert(out.subrange(p + NONCE_LEN, next.len() as int) =~= next.subrange(
        p + NONCE_LEN,
        next.len() as int,
    ));
    assert(next.subrange(p + NONCE_LEN, next.len() as int) =~= aes_gcm_seal(
        key,
        nonces[k as int],
        chunk_of(data, k as int),
    ));
}

/// The view of an optional byte vector.
pub open spec fn opt_bytes(o: Option<Vec<u8>>) -> Option<Seq<u8>> {
    match o {
        Some(v) => Some(v@),
        None => None,
    }
}

/// The length of the ciphertext and tag of the first sealed chunk of
/// `sealed`, read as a nonce followed by at most `CHUNK_SIZE + TAG_LEN`
/// bytes.
pub open spec fn first_sealed_len(sealed: Seq<u8>) -> int {
    if sealed.len() - NONCE_LEN > CHUNK_SIZE + TAG_LEN {
        (CHUNK_SIZE + TAG_LEN) as int
    } else {
        sealed.len() - NONCE_LEN
    }
}

/// What `sealed` opens to under `key`: its sealed chunks in turn, each a
/// nonce then at most `CHUNK_SIZE + TAG_LEN` bytes of ciphertext and tag,
/// each opened with `aes_gcm_open`, their plaintexts joined; `None` where
/// the bytes end inside a sealed chunk or any chunk does not open.
pub open spec fn opened(key: Seq<u8>, sealed: Seq<u8>) -> Option<Seq<u8>>
    decreases sealed.len(),
{
    if sealed.len() == 0 {
        Some(seq![])
    } else if sealed.len() < NONCE_LEN + TAG_LEN {
        None
    } else {
        let len = first_sealed_len(sealed);
        match aes_gcm_open(key, sealed.take(NONCE_LEN as int), sealed.subrange(NONCE_LEN as int, NONCE_LEN + len)) {
            None => None,
            Some(p) => match opened(key, sealed.skip(NONCE_LEN + len)) {
                Some(q) => Some(p + q),
                None => None,
            },
        }
    }
}

/// `o` with `prefix` put before the bytes it holds.
pub open spec fn after(prefix: Seq<u8>, o: Option<Seq<u8>>) -> Option<Seq<u8>> {
    match o {
        Some(q) => Some(prefix + q),
        None => None,
    }
}

/// The data that a sealing under `key` holds: each sealed chunk, read as a
/// nonce then the ciphertext and tag, opened in turn (`opened`). A sealing
/// of some data under `key` gives back exactly that data.
pub fn open_chunks(key: &[u8; 32], sealed: &[u8]) -> (r: Option<Vec<u8>>)
    ensures
        opt_bytes(r) == opened(key@, sealed@),
        forall|d: Seq<u8>| #[trigger] is_sealing(sealed@, key@, d) ==> (r matches Some(v) && v@ == d),
{
    let n = sealed.len();
    let mut out: Vec<u8> = Vec::new();
    let mut pos: usize = 0;
    let ghost mut k: nat = 0;
    assert(sealed@.skip(0) =~= sealed@);
    proof {
        match opened(key@, sealed@) {
            Some(q) => {
                assert(out@ + q =~= q);
            },
            None => {},
        }
    }
    while pos < n
        invariant
            n == sealed@.len(),
            pos <= n,
            opened(key@, sealed@) == after(out@, opened(key@, sealed@.skip(pos as int))),
            forall|d: Seq<u8>, ns: Seq<Seq<u8>>|
                #[trigger] sealed_with(sealed@, key@, d, ns) ==> {
                    &&& k <= chunk_count(d.len() as int)
                    &&& pos == sealed_chunks(key@, d, ns, k).len()
                    &&& out@ == joined_chunks(d, k)
                },
        decreases n - pos,
    {
        let ghost gpos = pos;
        let ghost gout = out@;
        proof {
            assert forall|d: Seq<u8>, ns: Seq<Seq<u8>>|
                #[trigger] sealed_with(sealed@, key@, d, ns) implies {
                    &&& k < chunk_count(d.len() as int)
                    &&& pos == k * (NONCE_LEN + TAG_LEN + CHUNK_SIZE)
                    &&& n - pos >= NONCE_LEN + chunk_of(d, k as int).len() + TAG_LEN
                } by {
                if k == chunk_count(d.len() as int) {
                    assert(pos == n);
                }
                lemma_frame_at(sealed@, key@, d, ns, k);
                lemma_chunk_len(d, k as int);
                lemma_room(d.len() as int, k as int);
            }
        }
        if n - pos < NONCE_LEN + TAG_LEN {
            proof {
                let rest = sealed@.skip(pos as int);
                assert(rest.len() == n - pos);
                assert(opened(key@, rest) is None);
                assert forall|d: Seq<u8>| #[trigger] is_sealing(sealed@, key@, d) implies false by {
                    let ns = choose|ns: Seq<Seq<u8>>| sealed_with(sealed@, key@, d, ns);
                    assert(sealed_with(sealed@, key@, d, ns));
                }
            }
            return None;
        }
        let mut nonce: [u8; 12] = [0u8; 12];
        let mut i: usize = 0;
        while i < NONCE_LEN
            invariant
                n == sealed@.len(),
                pos + NONCE_LEN <= n,
                i <= NONCE_LEN,
                forall|j: int| 0 <= j < i ==> nonce@[j] == sealed@[pos + j],
            decreases NONCE_LEN - i,
        {
            nonce[i] = sealed[pos + i];
            i = i + 1;
        }
        assert(nonce@ =~= sealed@.subrange(pos as int, pos + NONCE_LEN));
        let rest: usize = n - pos - NONCE_LEN;
        let len: usize = if rest > CHUNK_SIZE + TAG_LEN {
            CHUNK_SIZE + TAG_LEN
        } else {
            rest
        };
        let ct = &sealed[pos + NONCE_LEN..pos + NONCE_LEN + len];
        let ghost rest = sealed@.skip(pos as int);
        proof {
            assert(rest.len() == n - pos);
            assert(first_sealed_len(rest) == len);
            assert(rest.take(NONCE_LEN as int) =~= nonce@);
            assert(rest.subrange(NONCE_LEN as int, NONCE_LEN + len) =~= ct@);
            assert(rest.skip(NONCE_LEN + len) =~= sealed@.skip(pos + NONCE_LEN + len));
        }
        proof {
            assert forall|d: Seq<u8>, ns: Seq<Seq<u8>>|
                #[trigger] sealed_with(sealed@, key@, d, ns) implies {
                    &&& nonce@ == ns[k as int]
                    &&& len == chunk_of(d, k as int).len() + TAG_LEN
                    &&& ct@ == aes_gcm_seal(key@, ns[k as int], chunk_of(d, k as int))
                    &&& chunk_of(d, k as int).len() <= CHUNK_SIZE
                } by {
                lemma_frame_at(sealed@, key@, d, ns, k);
                lemma_chunk_len(d, k as int);
                lemma_room(d.len() as int, k as int);
            }
        }
        let plain = match aes_gcm_decrypt(key, &nonce, ct) {
            Some(p) => p,
            None => {
                proof {
                    assert(opened(key@, rest) is None);
                    assert forall|d: Seq<u8>| #[trigger] is_sealing(sealed@, key@, d) implies false by {
                        let ns = choose|ns: Seq<Seq<u8>>| sealed_with(sealed@, key@, d, ns);
                        assert(sealed_with(sealed@, key@, d, ns));
                        let p = chunk_of(d, k as int);
                        assert(aes_gcm_seal(key@, nonce@, p) == ct@);
                    }
                }
                return None;
            },
        };
        proof {
            assert forall|d: Seq<u8>, ns: Seq<Seq<u8>>|
                #[trigger] sealed_with(sealed@, key@, d, ns) implies plain@ == chunk_of(
                    d,
                    k as int,
                ) by {
                let p = chunk_of(d, k as int);
                assert(aes_gcm_seal(key@, nonce@, p) == ct@);
            }
        }
        let ghost op = plain@;
        append_bytes(&mut out, plain.as_slice());
        pos = pos + NONCE_LEN + len;
        proof {
            let later = opened(key@, sealed@.skip(pos as int));
            assert(opened(key@, rest) == after(op, later));
            match later {
                Some(q) => {
                    assert(gout + (op + q) =~= (gout + op) + q);
                },
                None => {},
            }
        }
        proof {
            k = k + 1;
            assert forall|d: Seq<u8>, ns: Seq<Seq<u8>>|
                #[trigger] sealed_with(sealed@, key@, d, ns) implies {
                    &&& k <= chunk_count(d.len() as int)
                    &&& pos == sealed_chunks(key@, d, ns, k).len()
                    &&& out@ == joined_chunks(d, k)
                } by {
                let j = (k - 1) as int;
                assert(ns[j].len() == NONCE_LEN);
                assert(aes_gcm_seal(key@, ns[j], chunk_of(d, j)).len() == chunk_of(d, j).len()
                    + TAG_LEN);
                assert(sealed_chunks(key@, d, ns, k) == sealed_chunks(key@, d, ns, (k - 1) as nat)
                    + frame(key@, ns[j], chunk_of(d, j)));
                assert(out@ == gout + chunk_of(d, j));
            }
        }
    }
    proof {
        assert forall|d: Seq<u8>| #[trigger] is_sealing(sealed@, key@, d) implies out@ == d by {
            let ns = choose|ns: Seq<Seq<u8>>| sealed_with(sealed@, key@, d, ns);
            assert(sealed_with(sealed@, key@, d, ns));
            let c = chunk_count(d.len() as int);
            if k < c {
                lemma_frame_at(sealed@, key@, d, ns, k);
                lemma_chunk_len(d, k as int);
                lemma_room(d.len() as int, k as int);
            }
            assert(k == c);
            law_chunks_cover_data(d);
        }
    }
    Some(out)
}

/// Whether `key_hex` is the hexadecimal text of a 32-byte key.
pub open spec fn is_key_text(key_hex: Seq<char>) -> bool {
    is_hex_text(key_hex) && hex_bytes(key_hex).len() == KEY_LEN
}

/// File data prepared for transfer: read the key from `key_hex`, compress
/// the data, seal the compressed stream chunk by chunk, and give the base64
/// of the sealed bytes. The key is read before anything else is done.
pub fn process_file(data: &[u8], key_hex: &str) -> (r: Result<String, SecurityError>)
    ensures
        is_key_text(key_hex@) ==> r is Ok,
        match r {
            Ok(s) => is_key_text(key_hex@) && exists|z: Seq<u8>, sealed: Seq<u8>|
                {
                    &&& zstd_stream(data@, COMPRESSION_LEVEL) == Some(z)
                    &&& is_sealing(sealed, hex_bytes(key_hex@), z)
                    &&& s@ == b64_encode(sealed)
                },
            Err(SecurityError::InvalidHex) => !is_hex_text(key_hex@),
            Err(SecurityError::WrongKeyLength) => is_hex_text(key_hex@) && !is_key_text(key_hex@),
            Err(SecurityError::Compression) => is_key_text(key_hex@) && zstd_stream(
                data@,
                COMPRESSION_LEVEL,
            ) is None,
            Err(SecurityError::InvalidBase64) | Err(SecurityError::Decompression) | Err(
                SecurityError::Decryption,
            ) => false,
        },
{
    let key = hex_key_to_bytes(key_hex)?;
    let compressed = compress_data(data)?;
    let sealed = seal_chunks(&key, compressed.as_slice());
    Ok(base64_encode(sealed.as_slice()))
}

/// The file data that the text of `process_file` holds: read the key, then
/// base64-decode the text, open the sealed chunks and decompress. What
/// `process_file` gave for some data under a key gives back exactly that
/// data under the same key.
pub fn restore_file(s: &str, key_hex: &str) -> (r: Result<Vec<u8>, SecurityError>)
    ensures
        forall|f: Seq<u8>, z: Seq<u8>, sealed: Seq<u8>|
            #![trigger zstd_stream(f, COMPRESSION_LEVEL), is_sealing(sealed, hex_bytes(key_hex@), z), b64_encode(sealed)]
            is_key_text(key_hex@) && zstd_stream(f, COMPRESSION_LEVEL) == Some(z) && is_sealing(
                sealed,
                hex_bytes(key_hex@),
                z,
            ) && b64_encode(sealed) == s@ ==> (r matches Ok(v) && v@ == f),
        match r {
            Ok(v) => is_key_text(key_hex@) && exists|sl: Seq<u8>, z: Seq<u8>|
                b64_encode(sl) == s@ && opened(hex_bytes(key_hex@), sl) == Some(z) && zstd_decoded(z)
                    == Some(v@),
            Err(SecurityError::InvalidHex) => !is_hex_text(key_hex@),
            Err(SecurityError::WrongKeyLength) => is_hex_text(key_hex@) && !is_key_text(key_hex@),
            Err(SecurityError::InvalidBase64) => is_key_text(key_hex@) && forall|x: Seq<u8>|
                b64_encode(x) != s@,
            Err(SecurityError::Decryption) => is_key_text(key_hex@) && exists|sl: Seq<u8>|
                b64_encode(sl) == s@ && opened(hex_bytes(key_hex@), sl) is None,
            Err(SecurityError::Decompression) => is_key_text(key_hex@) && exists|
                sl: Seq<u8>,
                z: Seq<u8>,
            |
                b64_encode(sl) == s@ && opened(hex_bytes(key_hex@), sl) == Some(z) && zstd_decoded(z)
                    is None,
            Err(SecurityError::Compression) => false,
        },
{
    let key = hex_key_to_bytes(key_hex)?;
    let sealed = match base64_decode(s) {
        Some(b) => b,
        None => {
            return Err(SecurityError::InvalidBase64);
        },
    };
    let compressed = match open_chunks(&key, sealed.as_slice()) {
        Some(z) => z,
        None => {
            proof {
                assert forall|f: Seq<u8>, z: Seq<u8>, sl: Seq<u8>|
                    #![trigger zstd_stream(f, COMPRESSION_LEVEL), is_sealing(sl, hex_bytes(key_hex@), z), b64_encode(sl)]
                    is_key_text(key_hex@) && zstd_stream(f, COMPRESSION_LEVEL) == Some(z)
                        && is_sealing(sl, hex_bytes(key_hex@), z) && b64_encode(sl) == s@ implies false by {
                    law_base64_injective(sl, sealed@);
                    assert(is_sealing(sealed@, key@, z));
                }
            }
            return Err(SecurityError::Decryption);
        },
    };
    let r = decompress_data(compressed.as_slice());
    proof {
        assert forall|f: Seq<u8>, z: Seq<u8>, sl: Seq<u8>|
            #![trigger zstd_stream(f, COMPRESSION_LEVEL), is_sealing(sl, hex_bytes(key_hex@), z), b64_encode(sl)]
            is_key_text(key_hex@) && zstd_stream(f, COMPRESSION_LEVEL) == Some(z) && is_sealing(
                sl,
                hex_bytes(key_hex@),
                z,
            ) && b64_encode(sl) == s@ implies (r matches Ok(v) && v@ == f) by {
            law_base64_injective(sl, sealed@);
            assert(is_sealing(sealed@, key@, z));
        }
    }
    r
}

} // verus!
