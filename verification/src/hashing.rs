//! Content hashing. The digest itself comes from the `sha2` crate behind a
//! small trusted boundary; everything around it — the hex rendering, the size
//! ceiling, the error messages — is verified.

use vstd::prelude::*;

use sha2::Digest;

use crate::records::MAX_FILE_SIZE;
use crate::text_util::{dec_rep, hex_of, hex_string, u64_to_string};

verus! {

#[verifier::external_type_specification]
#[verifier::external_body]
pub struct ExSha256(sha2::Sha256);

/// The SHA-256 digest (32 bytes) of a byte stream. The algorithm is not
/// restated here: the name stands for whatever `sha2` computes, which is a
/// function of the input bytes alone.
pub uninterp spec fn sha256_of(bytes: Seq<u8>) -> Seq<u8>;

/// A streaming content hasher. The view is the sequence of bytes absorbed so
/// far; the digest depends on that sequence alone.
pub struct ContentHasher {
    inner: sha2::Sha256,
    fed: Ghost<Seq<u8>>,
}

impl View for ContentHasher {
    type V = Seq<u8>;

    closed spec fn view(&self) -> Seq<u8> {
        self.fed@
    }
}

/// Relies on `sha2::Sha256::new` (via `digest::Digest`): a fresh hasher state.
#[verifier::external_body]
fn sha256_new() -> sha2::Sha256 {
    sha2::Sha256::new()
}

impl ContentHasher {
    /// A fresh hasher has absorbed no bytes.
    pub fn new() -> (h: ContentHasher)
        ensures
            h@ == Seq::<u8>::empty(),
    {
        ContentHasher { inner: sha256_new(), fed: Ghost(Seq::empty()) }
    }

    /// Relies on `digest::Digest::update` for `sha2::Sha256`: feeding a chunk
    /// appends it to the absorbed stream.
    #[verifier::external_body]
    pub fn update(&mut self, chunk: &[u8])
        ensures
            final(self)@ == old(self)@ + chunk@,
    {
        self.inner.update(chunk);
    }

    /// Relies on `digest::Digest::finalize` for `sha2::Sha256`: the digest is
    /// 32 bytes and is determined by the absorbed bytes alone.
    #[verifier::external_body]
    pub fn finalize(self) -> (digest: Vec<u8>)
        ensures
            digest@ == sha256_of(self@),
            digest@.len() == 32,
    {
        self.inner.finalize().to_vec()
    }

    /// Finishes the stream and renders the digest as lower-case hex.
    pub fn finalize_hex(self) -> (s: String)
        ensures
            s@ == digest_hex(self@),
    {
        let digest = self.finalize();
        hex_string(&digest)
    }
}

/// The hex string of the SHA-256 digest of a byte stream: the digest value the
/// rest of the pipeline works with.
pub open spec fn digest_hex(bytes: Seq<u8>) -> Seq<char> {
    hex_of(sha256_of(bytes))
}

/// The content hash is deterministic: absorbing equal byte streams yields
/// equal digests, and equal digest strings, however independently the two
/// hashers ran.
pub proof fn lemma_digest_deterministic(a: Seq<u8>, b: Seq<u8>)
    requires
        a == b,
    ensures
        sha256_of(a) == sha256_of(b),
        digest_hex(a) == digest_hex(b),
{
}

/// The message recorded when a file exceeds the hard size ceiling.
pub open spec fn oversize_msg(size: u64) -> Seq<char> {
    "File too large ("@ + dec_rep(size as int) + " > "@ + dec_rep(MAX_FILE_SIZE as int)
        + " bytes)"@
}

/// The size gate applied immediately before a file is opened for hashing:
/// files over the ceiling are reported, not hashed.
pub fn check_hashable_size(size: u64) -> (r: Option<String>)
    ensures
        size > MAX_FILE_SIZE <==> r is Some,
        r is Some ==> r.unwrap()@ == oversize_msg(size),
{
    if size > MAX_FILE_SIZE {
        let mut s = String::from_str("File too large (");
        s.append(u64_to_string(size).as_str());
        s.append(" > ");
        s.append(u64_to_string(MAX_FILE_SIZE).as_str());
        s.append(" bytes)");
        proof {
            assert(s@ =~= oversize_msg(size));
        }
        Some(s)
    } else {
        None
    }
}

/// The message recorded when hashing a file fails.
pub open spec fn hash_error_msg(path: Seq<char>, err: Seq<char>) -> Seq<char> {
    "Failed to hash "@ + path + ": "@ + err
}

/// Builds the non-fatal error message for a file whose hashing failed.
pub fn hash_error_message(path: &str, err: &str) -> (s: String)
    ensures
        s@ == hash_error_msg(path@, err@),
{
    let mut s = String::from_str("Failed to hash ");
    s.append(path);
    s.append(": ");
    s.append(err);
    proof {
        assert(s@ =~= hash_error_msg(path@, err@));
    }
    s
}

} // verus!
