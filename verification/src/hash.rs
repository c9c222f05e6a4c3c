//! The content comparator: a fast 64-bit digest and a cryptographic digest of
//! a file's bytes, and the decision whether two copies differ.

use crate::flags::Flag;
use vstd::prelude::*;

verus! {

/// The SeaHash digest of the bytes: what `seahash::hash` returns for them.
pub uninterp spec fn seahash_of(bytes: Seq<u8>) -> u64;

/// The BLAKE2b digest of the bytes, 64 bytes wide: what a `blake2::Blake2b`
/// hasher returns once it has taken them in.
pub uninterp spec fn blake2b_of(bytes: Seq<u8>) -> Seq<u8>;

/// The hasher of the `blake2` crate with the full output width. Nothing of
/// its inside is known here.
#[verifier::external_type_specification]
#[verifier::external_body]
pub struct ExBlake2b(blake2::Blake2b);

/// The bytes that the hasher has taken in so far, in order.
pub uninterp spec fn absorbed(state: blake2::Blake2b) -> Seq<u8>;

/// Calls `seahash::hash`, which computes the digest from the bytes alone, with
/// a seed that the crate fixes.
#[verifier::external_body]
fn seahash(bytes: &[u8]) -> (digest: u64)
    ensures
        digest == seahash_of(bytes@),
{
    seahash::hash(bytes)
}

/// Calls `Digest::new` for `blake2::Blake2b`: a hasher without key, salt or
/// persona, which has taken in nothing yet.
#[verifier::external_body]
fn blake2b_new() -> (state: blake2::Blake2b)
    ensures
        absorbed(state) == Seq::<u8>::empty(),
{
    <blake2::Blake2b as blake2::Digest>::new()
}

/// Calls `Digest::update`: the hasher takes in the bytes after those it holds.
#[verifier::external_body]
fn blake2b_update(state: &mut blake2::Blake2b, bytes: &[u8])
    ensures
        absorbed(*final(state)) == absorbed(*old(state)) + bytes@,
{
    blake2::Digest::update(state, bytes);
}

/// Calls `Digest::finalize`: the digest of all the bytes taken in, which for
/// `Blake2b` is 64 bytes wide.
#[verifier::external_body]
fn blake2b_finalize(state: blake2::Blake2b) -> (digest: Vec<u8>)
    ensures
        digest@ == blake2b_of(absorbed(state)),
        digest@.len() == 64,
{
    blake2::Digest::finalize(state).to_vec()
}

/// A cryptographic hasher that takes a file's bytes piece by piece, so that
/// the whole content need not be held at once.
pub struct SecureHasher {
    state: blake2::Blake2b,
}

impl SecureHasher {
    /// The bytes taken in so far.
    pub closed spec fn taken(&self) -> Seq<u8> {
        absorbed(self.state)
    }

    /// A hasher that has taken in nothing.
    pub fn new() -> (hasher: SecureHasher)
        ensures
            hasher.taken() == Seq::<u8>::empty(),
    {
        SecureHasher { state: blake2b_new() }
    }

    /// Takes in the next piece of the content.
    pub fn absorb(&mut self, piece: &[u8])
        ensures
            final(self).taken() == old(self).taken() + piece@,
    {
        blake2b_update(&mut self.state, piece);
    }

    /// The digest of everything taken in.
    pub fn finish(self) -> (digest: Vec<u8>)
        ensures
            digest@ == blake2b_of(self.taken()),
            digest@.len() == 64,
    {
        blake2b_finalize(self.state)
    }
}

/// The fast digest of a file's content: absent where the content could not be
/// read, else the SeaHash digest of its bytes.
pub open spec fn fast_hash_of(contents: Option<Seq<u8>>) -> Option<u64> {
    match contents {
        Some(bytes) => Some(seahash_of(bytes)),
        None => None,
    }
}

/// The secure digest of a file's content: absent where the content could not
/// be read, else the BLAKE2b digest of its bytes.
pub open spec fn secure_hash_of(contents: Option<Seq<u8>>) -> Option<Seq<u8>> {
    match contents {
        Some(bytes) => Some(blake2b_of(bytes)),
        None => None,
    }
}

/// The content that was read, as a sequence of bytes.
pub open spec fn read_view(contents: &Option<Vec<u8>>) -> Option<Seq<u8>> {
    match contents {
        Some(bytes) => Some(bytes@),
        None => None,
    }
}

/// The fast digest of a file, from what reading it gave: `None` where it could
/// not be read.
pub fn hash_file(contents: &Option<Vec<u8>>) -> (digest: Option<u64>)
    ensures
        digest == fast_hash_of(read_view(contents)),
{
    match contents {
        Some(bytes) => Some(seahash(bytes.as_slice())),
        None => None,
    }
}

/// The secure digest of a file, from what reading it gave: `None` where it
/// could not be read.
pub fn hash_file_secure(contents: &Option<Vec<u8>>) -> (digest: Option<Vec<u8>>)
    ensures
        digest.is_some() == contents.is_some(),
        digest.is_some() ==> Some(digest.unwrap()@) == secure_hash_of(read_view(contents)),
{
    match contents {
        Some(bytes) => {
            let mut hasher = SecureHasher::new();
            hasher.absorb(bytes.as_slice());
            assert(Seq::<u8>::empty() + bytes@ =~= bytes@);
            Some(hasher.finish())
        },
        None => None,
    }
}

/// A digest of a file's content, by one of the two strategies.
#[derive(Debug, Clone, PartialEq, Eq)]
pub enum Digest {
    Fast(u64),
    Secure(Vec<u8>),
}

/// What a `Digest` is, over sequences of bytes.
pub enum DigestView {
    Fast(u64),
    Secure(Seq<u8>),
}

impl View for Digest {
    type V = DigestView;

    open spec fn view(&self) -> DigestView {
        match self {
            Digest::Fast(h) => DigestView::Fast(*h),
            Digest::Secure(bytes) => DigestView::Secure(bytes@),
        }
    }
}

/// The digest that the options ask for: the secure one where `SECURE` is set,
/// else the fast one; absent where the content could not be read.
pub open spec fn digest_of(flags: Flag, contents: Option<Seq<u8>>) -> Option<DigestView> {
    match contents {
        Some(bytes) => if flags.has(Flag::secure()) {
            Some(DigestView::Secure(blake2b_of(bytes)))
        } else {
            Some(DigestView::Fast(seahash_of(bytes)))
        },
        None => None,
    }
}

/// A digest, if any, over sequences of bytes.
pub open spec fn digest_view(digest: &Option<Digest>) -> Option<DigestView> {
    match digest {
        Some(d) => Some(d@),
        None => None,
    }
}

/// Computes the digest that the options ask for from what reading the file
/// gave.
pub fn digest(flags: Flag, contents: &Option<Vec<u8>>) -> (digest: Option<Digest>)
    ensures
        digest_view(&digest) == digest_of(flags, read_view(contents)),
{
    if flags.contains(Flag::secure()) {
        match hash_file_secure(contents) {
            Some(bytes) => Some(Digest::Secure(bytes)),
            None => None,
        }
    } else {
        match hash_file(contents) {
            Some(h) => Some(Digest::Fast(h)),
            None => None,
        }
    }
}

/// Whether a digest serves under the options: it is there, and it was made by
/// the strategy that the options ask for.
pub open spec fn usable(flags: Flag, digest: Option<DigestView>) -> bool {
    match digest {
        Some(DigestView::Secure(_)) => flags.has(Flag::secure()),
        Some(DigestView::Fast(_)) => !flags.has(Flag::secure()),
        None => false,
    }
}

/// Whether the source must be copied over the destination: always, unless both
/// digests serve and are equal. A copy that could not be read counts as
/// different.
pub open spec fn must_copy(
    flags: Flag,
    source: Option<DigestView>,
    destination: Option<DigestView>,
) -> bool {
    !usable(flags, source) || !usable(flags, destination) || source != destination
}

/// Whether two byte vectors hold the same bytes.
pub fn same_bytes(a: &Vec<u8>, b: &Vec<u8>) -> (same: bool)
    ensures
        same == (a@ == b@),
{
    if a.len() != b.len() {
        return false;
    }
    let mut i: usize = 0;
    while i < a.len()
        invariant
            a.len() == b.len(),
            0 <= i <= a.len(),
            forall|k: int| 0 <= k < i ==> a@[k] == b@[k],
        decreases a.len() - i,
    {
        if a[i] != b[i] {
            return false;
        }
        i = i + 1;
    }
    assert(a@ =~= b@);
    true
}

/// Decides from the two digests whether the source must be copied over the
/// destination.
pub fn needs_copy(flags: Flag, source: &Option<Digest>, destination: &Option<Digest>) -> (copy: bool)
    ensures
        copy == must_copy(flags, digest_view(source), digest_view(destination)),
{
    let secure: bool = flags.contains(Flag::secure());
    match (source, destination) {
        (Some(Digest::Secure(s)), Some(Digest::Secure(d))) => !secure || !same_bytes(s, d),
        (Some(Digest::Fast(s)), Some(Digest::Fast(d))) => secure || *s != *d,
        _ => true,
    }
}

/// Two copies with the same readable content need no copy: whatever the
/// options, the digests that they ask for are equal.
pub proof fn lemma_same_content_needs_no_copy(flags: Flag, bytes: Seq<u8>)
    ensures
        !must_copy(flags, digest_of(flags, Some(bytes)), digest_of(flags, Some(bytes))),
{
}

/// A copy that could not be read forces a copy, whichever side it is on.
pub proof fn lemma_unreadable_forces_copy(flags: Flag, other: Option<DigestView>)
    ensures
        must_copy(flags, None, other),
        must_copy(flags, other, None),
{
}

/// Files of equal content have equal digests under both strategies; so have
/// any two empty files.
pub proof fn lemma_equal_content_equal_digests(a: Seq<u8>, b: Seq<u8>)
    requires
        a == b,
    ensures
        fast_hash_of(Some(a)) == fast_hash_of(Some(b)),
        secure_hash_of(Some(a)) == secure_hash_of(Some(b)),
{
}

} // verus!
