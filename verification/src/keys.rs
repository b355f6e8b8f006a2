//! Ed25519 key material of a user record.

use vstd::prelude::*;

verus! {

/// Number of bytes of an Ed25519 secret key, and of a public key.
pub const KEY_LENGTH: usize = 32;

/// The public key that Ed25519 derives from the 32 bytes of a secret key:
/// what `ed25519_dalek::PublicKey::from(&SecretKey)` computes.
pub uninterp spec fn ed25519_public_key(secret: Seq<u8>) -> Seq<u8>;

/// A signing key pair, held as the raw bytes of its two halves.
#[derive(Clone, Copy, Debug)]
pub struct KeyMaterial {
    /// The private signing key.
    pub secret: [u8; 32],
    /// The public verification key.
    pub public: [u8; 32],
}

/// The mathematical value of a [`KeyMaterial`].
pub struct KeyView {
    pub secret: Seq<u8>,
    pub public: Seq<u8>,
}

impl KeyView {
    /// The public half is the one that belongs to the secret half.
    pub open spec fn consistent(self) -> bool {
        &&& self.secret.len() == KEY_LENGTH
        &&& self.public.len() == KEY_LENGTH
        &&& self.public == ed25519_public_key(self.secret)
    }
}

impl View for KeyMaterial {
    type V = KeyView;

    open spec fn view(&self) -> KeyView {
        KeyView { secret: self.secret@, public: self.public@ }
    }
}

impl KeyMaterial {
    /// Puts two halves together as they are; nothing is checked of them.
    pub fn from_parts(secret: [u8; 32], public: [u8; 32]) -> (keys: KeyMaterial)
        ensures
            keys.secret == secret,
            keys.public == public,
    {
        KeyMaterial { secret, public }
    }

    /// The 64 bytes in which the pair is handed to `ed25519_dalek`: the
    /// secret half, then the public half.
    pub fn to_bytes(&self) -> (bytes: Vec<u8>)
        ensures
            bytes@ == self.secret@ + self.public@,
    {
        let mut bytes: Vec<u8> = Vec::new();
        let mut i: usize = 0;
        while i < 32
            invariant
                i <= 32,
                bytes@ == self.secret@.subrange(0, i as int),
            decreases 32 - i,
        {
            bytes.push(self.secret[i]);
            i += 1;
        }
        let mut j: usize = 0;
        while j < 32
            invariant
                j <= 32,
                bytes@ == self.secret@ + self.public@.subrange(0, j as int),
            decreases 32 - j,
        {
            bytes.push(self.public[j]);
            j += 1;
        }
        bytes
    }
}

/// The pair that belongs to a secret half.
pub open spec fn keypair_of(secret: Seq<u8>) -> KeyView {
    KeyView { secret, public: ed25519_public_key(secret) }
}

/// What a draw of key material gave: the pair, or the message of the
/// failure.
pub open spec fn draw_view(drawn: Result<KeyMaterial, String>) -> Result<KeyView, Seq<char>> {
    match drawn {
        Ok(keys) => Ok(keys@),
        Err(message) => Err(message@),
    }
}

/// A pair goes by its secret half: two consistent pairs are the same pair
/// exactly if their secret halves are the same. So a pair made from freshly
/// drawn bytes owes nothing to anything else, and pairs made from different
/// draws differ.
pub proof fn law_pair_follows_secret(one: KeyView, other: KeyView)
    requires
        one.consistent(),
        other.consistent(),
    ensures
        one == keypair_of(one.secret),
        one.secret == other.secret <==> one == other,
{
}

/// Asks the operating system for 32 random bytes: one call of
/// `rand::RngCore::try_fill_bytes` on `rand::rngs::OsRng`.
///
/// Trusted, not proved, and nothing is claimed: which bytes come back, and
/// whether any do, is up to the operating system. Where it has none to give,
/// the result is the message of the failure.
#[verifier::external_body]
pub(crate) fn draw_seed() -> (drawn: Result<[u8; 32], String>) {
    let mut seed = [0u8; 32];
    match rand::RngCore::try_fill_bytes(&mut rand::rngs::OsRng, &mut seed) {
        Ok(()) => Ok(seed),
        Err(error) => Err(error.to_string()),
    }
}

/// Makes the key pair whose secret half is `seed`:
/// `ed25519_dalek::SecretKey::from_bytes`, then
/// `ed25519_dalek::PublicKey::from(&SecretKey)`.
///
/// Trusted, not proved: `from_bytes` takes any 32 bytes as they are and
/// refuses other lengths only, so there is always a pair; its secret half is
/// the seed and its public half the one derived from it.
#[verifier::external_body]
pub(crate) fn keypair_from_seed(seed: [u8; 32]) -> (keys: Option<KeyMaterial>)
    ensures
        keys.is_some(),
        keys.unwrap().secret@ == seed@,
        keys.unwrap().public@ == ed25519_public_key(seed@),
{
    let secret = ed25519_dalek::SecretKey::from_bytes(&seed).ok()?;
    let public = ed25519_dalek::PublicKey::from(&secret);
    Some(KeyMaterial { secret: secret.to_bytes(), public: public.to_bytes() })
}

impl KeyMaterial {
    /// The key pair whose secret half is `seed`.
    pub fn from_seed(seed: [u8; 32]) -> (keys: KeyMaterial)
        ensures
            keys@ == keypair_of(seed@),
            keys@.consistent(),
    {
        keypair_from_seed(seed).unwrap()
    }

    /// A fresh key pair, from random bytes of the operating system; or, where
    /// the operating system has none to give, the message of that failure.
    pub fn generate() -> (drawn: Result<KeyMaterial, String>)
        ensures
            drawn is Ok ==> drawn.unwrap()@.consistent(),
    {
        match draw_seed() {
            Ok(seed) => Ok(KeyMaterial::from_seed(seed)),
            Err(message) => Err(message),
        }
    }
}

} // verus!
