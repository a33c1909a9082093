//! Integrity digests: an incremental whole-file hasher and per-block
//! digests, both reported as lowercase hexadecimal strings.

use vstd::prelude::*;

verus! {

/// The lowercase hexadecimal digest of a byte string. The hash is a pure
/// function of the bytes: the same input gives the same digest on every
/// machine and in every process.
pub uninterp spec fn blake3_hex(data: Seq<u8>) -> Seq<char>;

/// A lowercase hexadecimal character.
pub open spec fn is_hex_char(c: char) -> bool {
    ('0' <= c && c <= '9') || ('a' <= c && c <= 'f')
}

#[verifier::external_type_specification]
#[verifier::external_body]
pub struct ExBlake3Hasher(blake3::Hasher);

/// An incremental digest over the bytes fed to it so far.
pub struct FileHasher {
    inner: blake3::Hasher,
    fed: Ghost<Seq<u8>>,
}

impl FileHasher {
    pub closed spec fn bytes(self) -> Seq<u8> {
        self.fed@
    }

    /// Relies on blake3::Hasher::new: a fresh hasher has seen no input.
    #[verifier::external_body]
    pub fn new() -> (r: FileHasher)
        ensures
            r.bytes() == Seq::<u8>::empty(),
    {
        FileHasher { inner: blake3::Hasher::new(), fed: Ghost(Seq::empty()) }
    }

    /// Relies on blake3::Hasher::update: feeding more input appends it to
    /// what the hasher has seen.
    #[verifier::external_body]
    pub fn update(&mut self, data: &[u8])
        ensures
            final (self).bytes() == old(self).bytes() + data@,
    {
        self.inner.update(data);
    }

    /// Relies on blake3::Hasher::finalize and Hash::to_hex: the digest of
    /// everything fed so far, as 64 lowercase hexadecimal characters, a
    /// pure function of those bytes.
    #[verifier::external_body]
    pub fn finalize_hex(&self) -> (r: String)
        ensures
            r@ == blake3_hex(self.bytes()),
            r@.len() == 64,
            forall|i: int| 0 <= i < 64 ==> is_hex_char(#[trigger] r@[i]),
    {
        self.inner.finalize().to_hex().as_str().to_string()
    }
}

/// The digest of one block of bytes, as a lowercase hexadecimal string.
pub fn block_digest(data: &[u8]) -> (r: String)
    ensures
        r@ == blake3_hex(data@),
        r@.len() == 64,
        forall|i: int| 0 <= i < 64 ==> is_hex_char(#[trigger] r@[i]),
{
    let mut hasher = FileHasher::new();
    hasher.update(data);
    proof {
        assert(hasher.bytes() =~= data@);
    }
    hasher.finalize_hex()
}

} // verus!
