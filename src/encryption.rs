//! Per-user keys and authenticated encryption of content.
//!
//! A blob is a random nonce followed by the sealed message, the
//! authentication tag included.

use vstd::prelude::*;
use std::collections::HashMap;
use sodiumoxide::crypto::secretbox;

verus! {

broadcast use vstd::std_specs::hash::group_hash_axioms;

/// Length of a secret key.
pub const KEY_LEN: usize = 32;

/// Length of a nonce.
pub const NONCE_LEN: usize = 24;

/// Length of the authentication tag that sealing adds.
pub const TAG_LEN: usize = 16;

/// What sealing `m` under nonce `n` and key `k` produces.
pub uninterp spec fn sealed(m: Seq<u8>, n: Seq<u8>, k: Seq<u8>) -> Seq<u8>;

/// What opening `c` under nonce `n` and key `k` produces: the message, or
/// nothing when the tag does not verify.
pub uninterp spec fn opened(c: Seq<u8>, n: Seq<u8>, k: Seq<u8>) -> Option<Seq<u8>>;

/// Relies on sodiumoxide::init: readies libsodium, `true` on success.
#[verifier::external_body]
fn init_sodium() -> (r: bool) {
    sodiumoxide::init().is_ok()
}

/// Relies on sodiumoxide::crypto::secretbox::gen_key: a random key of
/// `KEYBYTES` (32) bytes.
#[verifier::external_body]
fn random_key() -> (r: Vec<u8>)
    ensures
        r@.len() == KEY_LEN,
{
    secretbox::gen_key().0.to_vec()
}

/// Relies on sodiumoxide::crypto::secretbox::gen_nonce: a random nonce of
/// `NONCEBYTES` (24) bytes.
#[verifier::external_body]
fn random_nonce() -> (r: Vec<u8>)
    ensures
        r@.len() == NONCE_LEN,
{
    secretbox::gen_nonce().0.to_vec()
}

/// Relies on sodiumoxide::crypto::secretbox::seal: the sealed message is
/// `MACBYTES` (16) longer than the message, and `open` under the same nonce
/// and key gives the message back.
#[verifier::external_body]
fn seal(m: &[u8], n: &[u8], k: &[u8]) -> (c: Vec<u8>)
    requires
        n@.len() == NONCE_LEN,
        k@.len() == KEY_LEN,
    ensures
        c@ == sealed(m@, n@, k@),
        c@.len() == m@.len() + TAG_LEN,
        opened(c@, n@, k@) == Some(m@),
{
    let nonce = secretbox::Nonce::from_slice(n).unwrap();
    let key = secretbox::Key::from_slice(k).unwrap();
    secretbox::seal(m, &nonce, &key)
}

/// Relies on sodiumoxide::crypto::secretbox::open: the message, or `None`
/// when the ciphertext fails verification.
#[verifier::external_body]
fn open(c: &[u8], n: &[u8], k: &[u8]) -> (r: Option<Vec<u8>>)
    requires
        n@.len() == NONCE_LEN,
        k@.len() == KEY_LEN,
    ensures
        match r {
            Some(m) => opened(c@, n@, k@) == Some(m@),
            None => opened(c@, n@, k@) is None,
        },
{
    let nonce = secretbox::Nonce::from_slice(n).unwrap();
    let key = secretbox::Key::from_slice(k).unwrap();
    secretbox::open(c, &nonce, &key).ok()
}

/// Why a blob could not be decrypted.
#[derive(Clone, Copy, Debug, PartialEq, Eq, Structural)]
pub enum CipherError {
    /// The blob is shorter than a nonce.
    InvalidCiphertext,
    /// The tag does not verify: corrupted, tampered with, or another key.
    AuthenticationFailed,
}

/// What decrypting `blob` under key `k` gives.
pub open spec fn decryption(k: Seq<u8>, blob: Seq<u8>) -> Result<Seq<u8>, CipherError> {
    if blob.len() < NONCE_LEN {
        Err(CipherError::InvalidCiphertext)
    } else {
        match opened(blob.subrange(NONCE_LEN as int, blob.len() as int), blob.subrange(0, NONCE_LEN as int), k) {
            Some(m) => Ok(m),
            None => Err(CipherError::AuthenticationFailed),
        }
    }
}

/// `after` is `before` with `user`'s key looked up, or created if it had none.
pub open spec fn key_taken(before: Map<u128, Seq<u8>>, after: Map<u128, Seq<u8>>, user: u128) -> bool {
    &&& after.contains_key(user)
    &&& after == before.insert(user, after[user])
    &&& before.contains_key(user) ==> after == before
}

/// Holds one secret key per user and encrypts and decrypts under it.
pub struct EncryptionService {
    user_keys: HashMap<u128, Vec<u8>>,
}

impl EncryptionService {
    /// The key of each user that has one.
    pub closed spec fn keys(&self) -> Map<u128, Seq<u8>> {
        self.user_keys@.map_values(|k: Vec<u8>| k@)
    }

    /// Every key has the key length.
    pub closed spec fn wf(&self) -> bool {
        forall|u: u128| #[trigger] self.user_keys@.contains_key(u) ==> self.user_keys@[u]@.len() == KEY_LEN
    }

    /// An encryption service that holds no key yet; `None` when the
    /// cryptographic library cannot be initialised.
    pub fn new() -> (r: Option<EncryptionService>)
        ensures
            r matches Some(s) ==> s.wf() && s.keys() == Map::<u128, Seq<u8>>::empty(),
    {
        if !init_sodium() {
            return None;
        }
        let r = EncryptionService { user_keys: HashMap::new() };
        assert(r.keys() =~= Map::<u128, Seq<u8>>::empty());
        Some(r)
    }

    /// The key of `user`, created at random on first use.
    fn get_or_create_key(&mut self, user_id: u128) -> (r: Vec<u8>)
        requires
            old(self).wf(),
        ensures
            final(self).wf(),
            key_taken(old(self).keys(), final(self).keys(), user_id),
            r@ == final(self).keys()[user_id],
            r@.len() == KEY_LEN,
    {
        if let Some(key) = self.user_keys.get(&user_id) {
            let k = key.clone();
            assert(k@ =~= key@);
            assert(self.keys().insert(user_id, k@) =~= self.keys());
            return k;
        }
        let key = random_key();
        self.user_keys.insert(user_id, key.clone());
        proof {
            assert(self.keys() =~= old(self).keys().insert(user_id, key@));
        }
        key
    }

    /// Encrypts `data` under `user`'s key, creating the key on first use:
    /// a fresh nonce followed by the sealed data.
    pub fn encrypt(&mut self, user_id: u128, data: &[u8]) -> (r: Result<Vec<u8>, CipherError>)
        requires
            old(self).wf(),
        ensures
            final(self).wf(),
            key_taken(old(self).keys(), final(self).keys(), user_id),
            r matches Ok(blob) && encrypted_under(final(self).keys()[user_id], data@, blob@),
    {
        let key = self.get_or_create_key(user_id);
        let nonce = random_nonce();
        let sealed_data = seal(data, nonce.as_slice(), key.as_slice());
        let mut result = nonce.clone();
        let mut tail = sealed_data.clone();
        proof {
            assert(result@ =~= nonce@);
            assert(tail@ =~= sealed_data@);
        }
        result.append(&mut tail);
        proof {
            assert(result@.subrange(0, NONCE_LEN as int) =~= nonce@);
            assert(result@.subrange(NONCE_LEN as int, result@.len() as int) =~= sealed_data@);
        }
        Ok(result)
    }

    /// Decrypts `data` under `user`'s key, creating the key on first use
    /// when `data` is long enough to hold a nonce.
    pub fn decrypt(&mut self, user_id: u128, data: &[u8]) -> (r: Result<Vec<u8>, CipherError>)
        requires
            old(self).wf(),
        ensures
            final(self).wf(),
            decrypted_under(old(self).keys(), final(self).keys(), user_id, data@, r),
    {
        if data.len() < NONCE_LEN {
            return Err(CipherError::InvalidCiphertext);
        }
        let (nonce, body) = data.split_at(NONCE_LEN);
        let key = self.get_or_create_key(user_id);
        match open(body, nonce, key.as_slice()) {
            Some(m) => Ok(m),
            None => Err(CipherError::AuthenticationFailed),
        }
    }

    /// Makes `key` the key of `user`, replacing any former one.
    pub fn set_key(&mut self, user_id: u128, key: Vec<u8>)
        requires
            old(self).wf(),
            key@.len() == KEY_LEN,
        ensures
            final(self).wf(),
            final(self).keys() == old(self).keys().insert(user_id, key@),
    {
        let ghost k = key@;
        self.user_keys.insert(user_id, key);
        proof {
            assert(self.keys() =~= old(self).keys().insert(user_id, k));
        }
    }

    /// Replaces `user`'s key by a fresh random one. What was encrypted under
    /// the former key can no longer be decrypted.
    pub fn rotate_key(&mut self, user_id: u128) -> (r: Result<(), CipherError>)
        requires
            old(self).wf(),
        ensures
            final(self).wf(),
            r is Ok,
            final(self).keys().contains_key(user_id),
            final(self).keys() == old(self).keys().insert(user_id, final(self).keys()[user_id]),
            final(self).keys()[user_id].len() == KEY_LEN,
    {
        let key = random_key();
        self.set_key(user_id, key);
        Ok(())
    }
}

/// `blob` is a nonce followed by `data` sealed under that nonce and key `k`,
/// and decrypts under `k` to `data`.
pub open spec fn encrypted_under(k: Seq<u8>, data: Seq<u8>, blob: Seq<u8>) -> bool {
    &&& blob.len() == NONCE_LEN + data.len() + TAG_LEN
    &&& blob.subrange(NONCE_LEN as int, blob.len() as int) == sealed(data, blob.subrange(0, NONCE_LEN as int), k)
    &&& decryption(k, blob) == Ok::<Seq<u8>, CipherError>(data)
}

/// `r` is what decrypting `data` for `user` gives, with the keys going from
/// `before` to `after`.
pub open spec fn decrypted_under(
    before: Map<u128, Seq<u8>>,
    after: Map<u128, Seq<u8>>,
    user: u128,
    data: Seq<u8>,
    r: Result<Vec<u8>, CipherError>,
) -> bool {
    if data.len() < NONCE_LEN {
        after == before && r == Err::<Vec<u8>, CipherError>(CipherError::InvalidCiphertext)
    } else {
        &&& key_taken(before, after, user)
        &&& match r {
            Ok(m) => decryption(after[user], data) == Ok::<Seq<u8>, CipherError>(m@),
            Err(e) => decryption(after[user], data) == Err::<Seq<u8>, CipherError>(e),
        }
    }
}

/// Round trip: decrypting for a user what `encrypt` produced for that user,
/// with no key change in between, gives back the plaintext.
pub proof fn lemma_round_trip(
    k0: Map<u128, Seq<u8>>,
    k1: Map<u128, Seq<u8>>,
    k2: Map<u128, Seq<u8>>,
    user: u128,
    plaintext: Seq<u8>,
    blob: Seq<u8>,
    r: Result<Vec<u8>, CipherError>,
)
    requires
        key_taken(k0, k1, user),
        encrypted_under(k1[user], plaintext, blob),
        decrypted_under(k1, k2, user, blob, r),
    ensures
        r matches Ok(m) && m@ == plaintext,
        k2 == k1,
{
}

} // verus!
