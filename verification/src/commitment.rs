//! The commitment scheme: a colour is bound to a secret by the hash of the
//! colour's tag followed by the secret. The full commitment keeps the secret,
//! the public one keeps the hash alone.

use crate::color::{lemma_tag_injective, Color};
use crate::entropy::fill_random;
use crate::hash::{digest_sha256, same_bytes, sha256};
use vstd::prelude::*;

verus! {

/// The bytes of a secret.
pub type Secret = [u8];

/// The number of bytes in a secret that `commit` draws.
pub const SECRET_LEN: usize = 32;

/// The bytes that are hashed to bind `color` to `secret`.
pub open spec fn hashed_bytes(color: Color, secret: Seq<u8>) -> Seq<u8> {
    seq![color.spec_tag()] + secret
}

/// The hash that binds `color` to `secret`.
pub open spec fn commitment_hash(color: Color, secret: Seq<u8>) -> Seq<u8> {
    sha256(hashed_bytes(color, secret))
}

/// Whether `color` and `secret` open the commitment whose hash is `hash`.
pub open spec fn opens(hash: Seq<u8>, color: Color, secret: Seq<u8>) -> bool {
    commitment_hash(color, secret) == hash
}

/// The public form of a commitment: its hash, without the secret.
pub open spec fn public_form(commitment: CommitmentView) -> Seq<u8> {
    commitment.hash
}

/// The secret that stands in a commitment rebuilt from a public one.
pub open spec fn blank_secret() -> Seq<u8> {
    Seq::new(SECRET_LEN as nat, |i: int| 0u8)
}

/// What a full commitment holds.
pub struct CommitmentView {
    pub secret: Seq<u8>,
    pub hash: Seq<u8>,
}

/// A public commitment: the hash, and nothing that leads back to the secret.
pub struct ZKCommitment {
    hash: Vec<u8>,
}

/// A full commitment: the secret and the hash that binds a colour to it.
pub struct Commitment {
    pub secret: [u8; 32],
    hash: Vec<u8>,
}

/// What can be committed to.
pub trait Commitable {
    /// Whether `commit` may return a commitment that holds `commitment`.
    spec fn commits_to(&self, commitment: CommitmentView) -> bool;

    fn commit(&self) -> (commitment: Commitment)
        ensures
            self.commits_to(commitment@),
    ;
}

impl View for ZKCommitment {
    type V = Seq<u8>;

    closed spec fn view(&self) -> Seq<u8> {
        self.hash@
    }
}

impl View for Commitment {
    type V = CommitmentView;

    closed spec fn view(&self) -> CommitmentView {
        CommitmentView { secret: self.secret@, hash: self.hash@ }
    }
}

impl Clone for ZKCommitment {
    fn clone(&self) -> (copy: ZKCommitment)
        ensures
            copy@ == self@,
    {
        ZKCommitment { hash: self.hash.clone() }
    }
}

impl Clone for Commitment {
    fn clone(&self) -> (copy: Commitment)
        ensures
            copy@ == self@,
    {
        Commitment { secret: self.secret, hash: self.hash.clone() }
    }
}

impl ZKCommitment {
    /// The bytes of the hash.
    pub fn hash(&self) -> (bytes: Vec<u8>)
        ensures
            bytes@ == self@,
    {
        self.hash.clone()
    }
}

impl Commitment {
    /// The secret that opens this commitment.
    pub fn secret(&self) -> (bytes: [u8; 32])
        ensures
            bytes@ == self@.secret,
    {
        self.secret
    }

    /// The public commitment: the hash without the secret.
    pub fn zk_commit(&self) -> (public: ZKCommitment)
        ensures
            public@ == public_form(self@),
    {
        ZKCommitment { hash: self.hash.clone() }
    }
}

/// The hash of `color`'s tag followed by `secret`.
fn hash_of(color: Color, secret: &[u8]) -> (hash: Vec<u8>)
    ensures
        hash@ == commitment_hash(color, secret@),
{
    let mut bytes: Vec<u8> = Vec::new();
    bytes.push(color.tag());
    bytes.extend_from_slice(secret);
    assert(bytes@ =~= hashed_bytes(color, secret@));
    digest_sha256(bytes.as_slice())
}

impl Color {
    /// Whether this colour and `secret` open `commitment`: whether the hash
    /// of the two is the committed hash, byte for byte.
    pub fn matches(&self, commitment: ZKCommitment, secret: &Secret) -> (opened: bool)
        ensures
            opened == opens(commitment@, *self, secret@),
    {
        let hash = hash_of(*self, secret);
        same_bytes(hash.as_slice(), commitment.hash.as_slice())
    }

    /// The commitment that binds this colour to `secret`.
    pub fn commit_with(&self, secret: [u8; 32]) -> (commitment: Commitment)
        ensures
            commitment@.secret == secret@,
            commitment@.hash == commitment_hash(*self, secret@),
    {
        let hash = hash_of(*self, secret.as_slice());
        Commitment { secret, hash }
    }
}

impl Commitable for Color {
    /// A commitment to a colour binds it to the secret that the commitment
    /// holds, which has `SECRET_LEN` bytes.
    open spec fn commits_to(&self, commitment: CommitmentView) -> bool {
        &&& commitment.secret.len() == SECRET_LEN
        &&& commitment.hash == commitment_hash(*self, commitment.secret)
    }

    /// Binds the colour to a secret drawn for this call.
    fn commit(&self) -> (commitment: Commitment) {
        let mut secret: [u8; 32] = [0; 32];
        fill_random(&mut secret);
        self.commit_with(secret)
    }
}

impl Commitable for Commitment {
    /// A commitment commits to itself.
    open spec fn commits_to(&self, commitment: CommitmentView) -> bool {
        commitment == self@
    }

    fn commit(&self) -> (commitment: Commitment) {
        self.clone()
    }
}

impl Commitable for ZKCommitment {
    /// A public commitment is filled up with a blank secret.
    open spec fn commits_to(&self, commitment: CommitmentView) -> bool {
        &&& commitment.hash == self@
        &&& commitment.secret == blank_secret()
    }

    fn commit(&self) -> (commitment: Commitment) {
        let commitment = Commitment { secret: [0; 32], hash: self.hash.clone() };
        assert(commitment@.secret =~= blank_secret());
        commitment
    }
}

/// A commitment is opened by the colour and the secret that it was made
/// from.
pub proof fn lemma_commitment_opens(color: Color, secret: Seq<u8>)
    ensures
        opens(commitment_hash(color, secret), color, secret),
{
}

/// Another colour or another secret opens a commitment only where SHA-256
/// gives two different byte strings the same digest.
pub proof fn lemma_other_opening_collides(
    color: Color,
    secret: Seq<u8>,
    other_color: Color,
    other_secret: Seq<u8>,
)
    requires
        other_color != color || other_secret != secret,
        opens(commitment_hash(color, secret), other_color, other_secret),
    ensures
        hashed_bytes(other_color, other_secret) != hashed_bytes(color, secret),
        sha256(hashed_bytes(other_color, other_secret)) == sha256(hashed_bytes(color, secret)),
{
    lemma_hashed_bytes_injective(color, secret, other_color, other_secret);
}

/// The bytes that are hashed determine the colour and the secret.
pub proof fn lemma_hashed_bytes_injective(
    color: Color,
    secret: Seq<u8>,
    other_color: Color,
    other_secret: Seq<u8>,
)
    ensures
        hashed_bytes(other_color, other_secret) == hashed_bytes(color, secret) <==> other_color
            == color && other_secret == secret,
{
    let bytes = hashed_bytes(color, secret);
    let other_bytes = hashed_bytes(other_color, other_secret);
    if other_bytes == bytes {
        assert(other_bytes[0] == other_color.spec_tag());
        lemma_tag_injective(color, other_color);
        assert(bytes.subrange(1, bytes.len() as int) =~= secret);
        assert(other_bytes.subrange(1, other_bytes.len() as int) =~= other_secret);
    }
}

/// The public form depends on the hash alone: it is the same whatever the
/// secret, so nothing computed from it can tell one secret from another.
pub proof fn lemma_public_form_forgets_secret(hash: Seq<u8>, secret: Seq<u8>, other_secret: Seq<u8>)
    ensures
        public_form(CommitmentView { secret, hash }) == public_form(
            CommitmentView { secret: other_secret, hash },
        ),
{
}

} // verus!
