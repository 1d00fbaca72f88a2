//! Ratchet key management: identity key pairs, root and chain keys, and the
//! two HKDF derivation steps that turn a Diffie-Hellman exchange into one-time
//! message keys.
//!
//! The X25519, HKDF-SHA256 and AES-128-CMAC-SIV computations are performed by
//! outside crates behind trusted wrappers; everything stated about them is
//! phrased over uninterpreted names for their results, so that the
//! deterministic structure of the protocol is verified while the primitives
//! themselves stay opaque.

use vstd::prelude::*;

use crate::bytes_util::{clone_bytes, sub_bytes};
use crate::errors::CryptoError;

use aes_siv::aead::{Aead, KeyInit};

verus! {

// ---------------------------------------------------------------------------
// Names for the results of the outside primitives.
// ---------------------------------------------------------------------------

/// The X25519 shared secret as a function of the raw secret-key bytes and the
/// peer's public-key bytes.
pub uninterp spec fn dh_shared(private: Seq<u8>, public: Seq<u8>) -> Seq<u8>;

/// The X25519 public key derived from raw secret-key bytes.
pub uninterp spec fn public_key_of(private: Seq<u8>) -> Seq<u8>;

/// The 64 bytes of RFC 5869 HKDF-SHA256 output keying material for the given
/// salt, input keying material and info label.
pub uninterp spec fn hkdf_okm64(salt: Option<Seq<u8>>, ikm: Seq<u8>, info: Seq<u8>) -> Seq<u8>;

/// The AES-128-CMAC-SIV ciphertext (synthetic IV followed by the encrypted
/// bytes) for the given key, nonce and plaintext.
pub uninterp spec fn siv_seal_bytes(key: Seq<u8>, nonce: Seq<u8>, plaintext: Seq<u8>) -> Seq<u8>;

/// The result of AES-128-CMAC-SIV authenticated decryption: the plaintext, or
/// `None` when authentication fails.
pub uninterp spec fn siv_open_bytes(key: Seq<u8>, nonce: Seq<u8>, ciphertext: Seq<u8>) -> Option<
    Seq<u8>,
>;

// ---------------------------------------------------------------------------
// Trusted wrappers around the outside primitives.
// ---------------------------------------------------------------------------

/// Relies on `x25519_dalek::StaticSecret::diffie_hellman`: X25519 of the two
/// key byte strings, a function of its arguments alone.  The crate documents
/// (RFC 7748, and its own key-exchange example) that the two ends of an
/// exchange agree: when `public` is the public key of some secret `q`, the
/// result equals what the holder of `q` computes from this side's public key.
#[verifier::external_body]
fn dh_exchange(private: &Vec<u8>, public: &Vec<u8>) -> (r: Vec<u8>)
    requires
        private@.len() == 32,
        public@.len() == 32,
    ensures
        r@ == dh_shared(private@, public@),
        r@.len() == 32,
        forall|q: Seq<u8>|
            public@ == #[trigger] public_key_of(q) ==> r@ == dh_shared(q, public_key_of(private@)),
{
    let mut prv = [0u8; 32];
    prv.copy_from_slice(private.as_slice());
    let mut pbk = [0u8; 32];
    pbk.copy_from_slice(public.as_slice());
    let secret = x25519_dalek::StaticSecret::from(prv);
    let point = x25519_dalek::PublicKey::from(pbk);
    secret.diffie_hellman(&point).to_bytes().to_vec()
}

/// Relies on `x25519_dalek::PublicKey::from(&StaticSecret)`: the public key is
/// a function of the secret bytes alone, 32 bytes long.
#[verifier::external_body]
fn derive_public(private: &Vec<u8>) -> (r: Vec<u8>)
    requires
        private@.len() == 32,
    ensures
        r@ == public_key_of(private@),
        r@.len() == 32,
{
    let mut prv = [0u8; 32];
    prv.copy_from_slice(private.as_slice());
    let secret = x25519_dalek::StaticSecret::from(prv);
    x25519_dalek::PublicKey::from(&secret).to_bytes().to_vec()
}

/// Relies on `x25519_dalek::StaticSecret::random_from_rng` over the operating
/// system's randomness: 32 fresh secret-key bytes.  Nothing more can be
/// promised of a random draw.
#[verifier::external_body]
fn random_secret() -> (r: Vec<u8>)
    ensures
        r@.len() == 32,
{
    x25519_dalek::StaticSecret::random_from_rng(rand_core::OsRng).to_bytes().to_vec()
}

/// Relies on `hkdf::Hkdf::<Sha256>::new` and `expand`: deterministic RFC 5869
/// output keying material.  A 64-byte request is far below the 255-block
/// limit, the only case in which `expand` fails, so the unwrap cannot panic.
#[verifier::external_body]
fn hkdf_expand64(salt: Option<&Vec<u8>>, ikm: &Vec<u8>, info: &Vec<u8>) -> (r: Vec<u8>)
    ensures
        r@ == hkdf_okm64(
            if salt is Some {
                Some(salt->0@)
            } else {
                None
            },
            ikm@,
            info@,
        ),
        r@.len() == 64,
{
    let salt_slice = match salt {
        Some(s) => Some(s.as_slice()),
        None => None,
    };
    let h = hkdf::Hkdf::<sha2::Sha256>::new(salt_slice, ikm.as_slice());
    let mut okm = [0u8; 64];
    h.expand(info.as_slice(), &mut okm).unwrap();
    okm.to_vec()
}

/// Relies on `aes_siv::Aes128SivAead` (`encrypt`): AES-CMAC-SIV is
/// deterministic in key, nonce and plaintext, and with a 32-byte key and the
/// two header items the AEAD mode passes, its `s2v` core cannot fail, so the
/// unwraps cannot panic.  RFC 5297 authenticated decryption under the same key
/// and nonce returns the plaintext, as the crate's own round-trip example
/// shows.
#[verifier::external_body]
pub(crate) fn siv_seal(key: &Vec<u8>, nonce: &Vec<u8>, plaintext: &Vec<u8>) -> (r: Vec<u8>)
    requires
        key@.len() == 32,
        nonce@.len() == 16,
    ensures
        r@ == siv_seal_bytes(key@, nonce@, plaintext@),
        siv_open_bytes(key@, nonce@, r@) == Some(plaintext@),
{
    let cipher = aes_siv::Aes128SivAead::new_from_slice(key.as_slice()).unwrap();
    let n = aes_siv::Nonce::from_slice(nonce.as_slice());
    cipher.encrypt(n, plaintext.as_slice()).unwrap()
}

/// Relies on `aes_siv::Aes128SivAead` (`decrypt`): authenticated decryption is
/// a function of key, nonce and ciphertext; it fails exactly when the
/// synthetic IV does not authenticate, and it inverts `encrypt` under the same
/// key and nonce (RFC 5297 and the crate's round-trip example).
#[verifier::external_body]
pub(crate) fn siv_open(key: &Vec<u8>, nonce: &Vec<u8>, ciphertext: &Vec<u8>) -> (r: Option<Vec<u8>>)
    requires
        key@.len() == 32,
        nonce@.len() == 16,
    ensures
        r matches Some(p) ==> siv_open_bytes(key@, nonce@, ciphertext@) == Some(p@),
        r is None ==> siv_open_bytes(key@, nonce@, ciphertext@) is None,
{
    let cipher = aes_siv::Aes128SivAead::new_from_slice(key.as_slice()).unwrap();
    let n = aes_siv::Nonce::from_slice(nonce.as_slice());
    match cipher.decrypt(n, ciphertext.as_slice()) {
        Ok(p) => Some(p),
        Err(_) => None,
    }
}

// ---------------------------------------------------------------------------
// Protocol constants.
// ---------------------------------------------------------------------------

/// The fixed HKDF info label of the protocol.
pub open spec fn kdf_info() -> Seq<u8> {
    seq![0xfeu8, 0xe1u8, 0xdeu8, 0xadu8]
}

/// The fixed 16-byte nonce under which every message is sealed.  This is safe
/// only because AES-CMAC-SIV is nonce-misuse resistant and every message is
/// sealed under a fresh key.
pub open spec fn message_nonce() -> Seq<u8> {
    seq![
        0x61u8, 0x6eu8, 0x79u8, 0x20u8, 0x75u8, 0x6eu8, 0x69u8, 0x71u8, 0x75u8, 0x65u8, 0x20u8,
        0x6eu8, 0x6fu8, 0x6eu8, 0x63u8, 0x65u8,
    ]
}

/// The exec form of [`kdf_info`].
pub fn kdf_info_bytes() -> (r: Vec<u8>)
    ensures
        r@ == kdf_info(),
{
    let mut v: Vec<u8> = Vec::new();
    v.push(0xfe);
    v.push(0xe1);
    v.push(0xde);
    v.push(0xad);
    proof {
        assert(v@ =~= kdf_info());
    }
    v
}

/// The exec form of [`message_nonce`]: the bytes of the text "any unique nonce".
pub fn message_nonce_bytes() -> (r: Vec<u8>)
    ensures
        r@ == message_nonce(),
{
    let mut v: Vec<u8> = Vec::new();
    v.push(0x61);
    v.push(0x6e);
    v.push(0x79);
    v.push(0x20);
    v.push(0x75);
    v.push(0x6e);
    v.push(0x69);
    v.push(0x71);
    v.push(0x75);
    v.push(0x65);
    v.push(0x20);
    v.push(0x6e);
    v.push(0x6f);
    v.push(0x6e);
    v.push(0x63);
    v.push(0x65);
    proof {
        assert(v@ =~= message_nonce());
    }
    v
}

// ---------------------------------------------------------------------------
// The derivation steps, at the specification level.
// ---------------------------------------------------------------------------

/// One root-key derivation step: HKDF keyed by the Diffie-Hellman output with
/// the current root key as salt; the first 32 bytes become the new root key,
/// the last 32 bytes seed a new chain key.
pub open spec fn spec_root_step(root: Seq<u8>, ikm: Seq<u8>) -> (Seq<u8>, Seq<u8>) {
    let okm = hkdf_okm64(Some(root), ikm, kdf_info());
    (okm.subrange(0, 32), okm.subrange(32, 64))
}

/// One chain-key derivation step: HKDF keyed by the chain key with no salt;
/// the first 32 bytes become the next chain key, the last 32 bytes the
/// one-time message key.
pub open spec fn spec_chain_step(chain: Seq<u8>) -> (Seq<u8>, Seq<u8>) {
    let okm = hkdf_okm64(None, chain, kdf_info());
    (okm.subrange(0, 32), okm.subrange(32, 64))
}

/// The one-time message key that one full ratchet step derives from the
/// current root key and a Diffie-Hellman output.
pub open spec fn spec_message_key(root: Seq<u8>, ikm: Seq<u8>) -> Seq<u8> {
    spec_chain_step(spec_root_step(root, ikm).1).1
}

// ---------------------------------------------------------------------------
// Key material types.
// ---------------------------------------------------------------------------

/// An X25519 public key, held as its 32 raw bytes.
#[derive(Debug)]
pub struct PublicKey {
    pub bytes: Vec<u8>,
}

impl View for PublicKey {
    type V = Seq<u8>;

    open spec fn view(&self) -> Seq<u8> {
        self.bytes@
    }
}

impl PublicKey {
    /// Whether the key has the required length.
    pub open spec fn wf(&self) -> bool {
        self@.len() == 32
    }

    /// Accepts exactly the byte strings of length 32.
    pub fn from_bytes(bytes: Vec<u8>) -> (r: Result<PublicKey, CryptoError>)
        ensures
            match r {
                Ok(k) => bytes@.len() == 32 && k@ == bytes@ && k.wf(),
                Err(e) => e == CryptoError::InvalidPublicKey && bytes@.len() != 32,
            },
    {
        if bytes.len() == 32 {
            Ok(PublicKey { bytes })
        } else {
            Err(CryptoError::InvalidPublicKey)
        }
    }

    /// A copy of the key.
    pub fn duplicate(&self) -> (r: PublicKey)
        ensures
            r@ == self@,
    {
        PublicKey { bytes: clone_bytes(&self.bytes) }
    }
}

/// An X25519 secret key, held as its 32 raw bytes.
#[derive(Debug)]
pub struct PrivateKey {
    pub bytes: Vec<u8>,
}

impl View for PrivateKey {
    type V = Seq<u8>;

    open spec fn view(&self) -> Seq<u8> {
        self.bytes@
    }
}

impl PrivateKey {
    /// Whether the key has the required length.
    pub open spec fn wf(&self) -> bool {
        self@.len() == 32
    }

    /// A copy of the key.
    pub fn duplicate(&self) -> (r: PrivateKey)
        ensures
            r@ == self@,
    {
        PrivateKey { bytes: clone_bytes(&self.bytes) }
    }
}

/// The mathematical content of a [`KeyPair`].
#[verifier::ext_equal]
pub struct KeyPairV {
    pub private: Seq<u8>,
    pub public: Seq<u8>,
}

/// An identity or ephemeral key pair.  The public half is always the one
/// derived from the private half.
#[derive(Debug)]
pub struct KeyPair {
    pub private: PrivateKey,
    pub public: PublicKey,
}

impl View for KeyPair {
    type V = KeyPairV;

    open spec fn view(&self) -> KeyPairV {
        KeyPairV { private: self.private@, public: self.public@ }
    }
}

impl KeyPair {
    /// The pair is well formed: both halves are 32 bytes and the public half
    /// is derived from the private half.
    pub open spec fn wf(&self) -> bool {
        &&& self.private.wf()
        &&& self.public.wf()
        &&& self@.public == public_key_of(self@.private)
    }

    /// A fresh random key pair.
    pub fn new() -> (r: KeyPair)
        ensures
            r.wf(),
    {
        let private = random_secret();
        let public = derive_public(&private);
        KeyPair { private: PrivateKey { bytes: private }, public: PublicKey { bytes: public } }
    }

    /// The pair determined by the given secret bytes.
    pub fn from_private(bytes: Vec<u8>) -> (r: KeyPair)
        requires
            bytes@.len() == 32,
        ensures
            r.wf(),
            r@.private == bytes@,
    {
        let public = derive_public(&bytes);
        KeyPair { private: PrivateKey { bytes }, public: PublicKey { bytes: public } }
    }

    /// The private half.
    pub fn private(&self) -> (r: &PrivateKey)
        ensures
            r@ == self@.private,
    {
        &self.private
    }

    /// The public half.
    pub fn public(&self) -> (r: PublicKey)
        ensures
            r@ == self@.public,
    {
        self.public.duplicate()
    }

    /// A copy of the pair.
    pub fn duplicate(&self) -> (r: KeyPair)
        ensures
            r@ == self@,
            r.wf() == self.wf(),
    {
        KeyPair { private: self.private.duplicate(), public: self.public.duplicate() }
    }
}

impl Default for KeyPair {
    /// A fresh random key pair.
    fn default() -> (r: KeyPair)
        ensures
            r.wf(),
    {
        KeyPair::new()
    }
}

/// The current "trunk" of the derivation, 32 opaque bytes; replaced, never
/// mutated, each time a new shared secret is folded in.
#[derive(Debug)]
pub struct RootKey {
    pub key: Vec<u8>,
}

impl View for RootKey {
    type V = Seq<u8>;

    open spec fn view(&self) -> Seq<u8> {
        self.key@
    }
}

impl RootKey {
    /// Whether the key has the required length.
    pub open spec fn wf(&self) -> bool {
        self@.len() == 32
    }

    /// The root key holding exactly the given bytes.
    pub fn from_bytes(bytes: Vec<u8>) -> (r: RootKey)
        ensures
            r@ == bytes@,
    {
        RootKey { key: bytes }
    }

    /// A copy of the key.
    pub fn duplicate(&self) -> (r: RootKey)
        ensures
            r@ == self@,
    {
        RootKey { key: clone_bytes(&self.key) }
    }
}

/// The mathematical content of a [`ChainKey`].
#[verifier::ext_equal]
pub struct ChainKeyV {
    pub key: Seq<u8>,
    pub count: u32,
}

/// One step of symmetric derivation: 32 key bytes and a step counter.  In this
/// protocol a fresh chain key is derived for every message, so the counter is
/// always reset to 0 at derivation time.
#[derive(Debug)]
pub struct ChainKey {
    pub key: Vec<u8>,
    pub count: u32,
}

impl View for ChainKey {
    type V = ChainKeyV;

    open spec fn view(&self) -> ChainKeyV {
        ChainKeyV { key: self.key@, count: self.count }
    }
}

impl ChainKey {
    /// Whether the key has the required length.
    pub open spec fn wf(&self) -> bool {
        self@.key.len() == 32
    }

    /// The chain key holding exactly the given bytes, with the counter reset.
    pub fn from_bytes(bytes: Vec<u8>) -> (r: ChainKey)
        ensures
            r@.key == bytes@,
            r@.count == 0,
    {
        ChainKey { key: bytes, count: 0 }
    }

    /// The key bytes.
    pub fn key(&self) -> (r: Vec<u8>)
        ensures
            r@ == self@.key,
    {
        clone_bytes(&self.key)
    }

    /// Replaces both the key bytes and the counter with those of `key`.
    pub fn set_key(&mut self, key: ChainKey)
        ensures
            final(self)@ == key@,
    {
        self.key = key.key;
        self.count = key.count;
    }

    /// The step counter.
    pub fn count(&self) -> (r: u32)
        ensures
            r == self@.count,
    {
        self.count
    }

    /// Sets the step counter.
    pub fn set_count(&mut self, count: u32)
        ensures
            final(self)@ == (ChainKeyV { key: old(self)@.key, count: count }),
    {
        self.count = count;
    }

    /// Advances the step counter by one.
    pub fn inc_count(&mut self)
        requires
            old(self)@.count < u32::MAX,
        ensures
            final(self)@ == (ChainKeyV { key: old(self)@.key, count: (old(self)@.count + 1) as u32 }),
    {
        self.count = self.count + 1;
    }

    /// A copy of the chain key.
    pub fn duplicate(&self) -> (r: ChainKey)
        ensures
            r@ == self@,
    {
        ChainKey { key: clone_bytes(&self.key), count: self.count }
    }
}

/// The mathematical content of a ratchet [`State`].
#[verifier::ext_equal]
pub struct StateV {
    pub key_pair: KeyPairV,
    pub dh_pub: Option<Seq<u8>>,
    pub root_key: Seq<u8>,
    pub chain_send: Option<ChainKeyV>,
    pub chain_recv: Option<ChainKeyV>,
    pub pn: u32,
}

/// Ratchet state for one directed peer relationship: the local key pair, the
/// peer's last known public key, the current root key and derived chain
/// material.  Every operation returns a new state; no state is mutated in
/// place.
#[derive(Debug)]
pub struct State {
    pub key_pair: KeyPair,
    pub dh_pub: Option<PublicKey>,
    pub root_key: RootKey,
    pub chain_send: Option<ChainKey>,
    pub chain_recv: Option<ChainKey>,
    pub pn: u32,
}

impl View for State {
    type V = StateV;

    open spec fn view(&self) -> StateV {
        StateV {
            key_pair: self.key_pair@,
            dh_pub: match self.dh_pub {
                Some(k) => Some(k@),
                None => None,
            },
            root_key: self.root_key@,
            chain_send: match self.chain_send {
                Some(c) => Some(c@),
                None => None,
            },
            chain_recv: match self.chain_recv {
                Some(c) => Some(c@),
                None => None,
            },
            pn: self.pn,
        }
    }
}

impl State {
    /// The state is well formed: all key material has its required length and
    /// the local pair is internally consistent.
    pub open spec fn wf(&self) -> bool {
        &&& self.key_pair.wf()
        &&& self.root_key.wf()
        &&& match self.dh_pub {
            Some(k) => k.wf(),
            None => true,
        }
        &&& match self.chain_send {
            Some(c) => c.wf(),
            None => true,
        }
        &&& match self.chain_recv {
            Some(c) => c.wf(),
            None => true,
        }
    }

    /// Initial state for a peer learned dynamically: the raw Diffie-Hellman
    /// shared secret of the local private key and the peer's public key is
    /// used directly as the initial root key.  When `other_pub_key` is the
    /// public key of some secret `q`, the root key equals the one the holder
    /// of `q` derives from this side's public key, so the two initial states
    /// agree.
    pub fn new(my_keys: KeyPair, other_pub_key: PublicKey) -> (r: State)
        requires
            my_keys.wf(),
            other_pub_key.wf(),
        ensures
            r.wf(),
            r@.key_pair == my_keys@,
            r@.dh_pub == Some(other_pub_key@),
            r@.root_key == dh_shared(my_keys@.private, other_pub_key@),
            r@.chain_send is None,
            r@.chain_recv is None,
            r@.pn == 0,
            forall|q: Seq<u8>|
                other_pub_key@ == #[trigger] public_key_of(q) ==> r@.root_key == dh_shared(
                    q,
                    public_key_of(my_keys@.private),
                ),
    {
        let shared_secret = dh_exchange(&my_keys.private.bytes, &other_pub_key.bytes);
        State {
            key_pair: my_keys,
            dh_pub: Some(other_pub_key),
            root_key: RootKey { key: shared_secret },
            chain_send: None,
            chain_recv: None,
            pn: 0,
        }
    }

    /// Initial state for a closed two-party setting where the peers share a
    /// pre-agreed root key instead of deriving one: pure construction, no
    /// derivation step.  Each side calls this with its own pair, the other
    /// side's public key and the same root key, which yields the two
    /// symmetric initial states.
    pub fn bootstrap_pair(my_keys: KeyPair, peer_public: PublicKey, shared_root: RootKey) -> (r:
        State)
        requires
            my_keys.wf(),
            peer_public.wf(),
            shared_root.wf(),
        ensures
            r.wf(),
            r@.key_pair == my_keys@,
            r@.dh_pub == Some(peer_public@),
            r@.root_key == shared_root@,
            r@.chain_send is None,
            r@.chain_recv is None,
            r@.pn == 0,
    {
        State {
            key_pair: my_keys,
            dh_pub: Some(peer_public),
            root_key: shared_root,
            chain_send: None,
            chain_recv: None,
            pn: 0,
        }
    }

    /// The local key pair.
    pub fn key_pair(&self) -> (r: &KeyPair)
        ensures
            r@ == self@.key_pair,
            r.wf() == self.key_pair.wf(),
    {
        &self.key_pair
    }

    /// The peer's last known public key.
    pub fn dh_pub(&self) -> (r: Option<PublicKey>)
        ensures
            match r {
                Some(k) => self@.dh_pub == Some(k@),
                None => self@.dh_pub is None,
            },
    {
        match &self.dh_pub {
            Some(k) => Some(k.duplicate()),
            None => None,
        }
    }

    /// The current root key.
    pub fn root_key(&self) -> (r: &RootKey)
        ensures
            r@ == self@.root_key,
    {
        &self.root_key
    }

    /// The chain derived by the last send step.
    pub fn chain_send(&self) -> (r: Option<&ChainKey>)
        ensures
            match r {
                Some(c) => self@.chain_send == Some(c@),
                None => self@.chain_send is None,
            },
    {
        self.chain_send.as_ref()
    }

    /// The chain derived by the last receive step.
    pub fn chain_recv(&self) -> (r: Option<&ChainKey>)
        ensures
            match r {
                Some(c) => self@.chain_recv == Some(c@),
                None => self@.chain_recv is None,
            },
    {
        self.chain_recv.as_ref()
    }

    /// The previous chain length counter.
    pub fn pn(&self) -> (r: u32)
        ensures
            r == self@.pn,
    {
        self.pn
    }

    /// Replaces the peer's known public key.
    pub fn set_dh_pub(&mut self, dh_pub: Option<PublicKey>)
        ensures
            final(self)@ == (StateV {
                dh_pub: match dh_pub {
                    Some(k) => Some(k@),
                    None => None,
                },
                ..old(self)@
            }),
    {
        self.dh_pub = dh_pub;
    }
}

// ---------------------------------------------------------------------------
// The two derivation functions.
// ---------------------------------------------------------------------------

/// One root-key step: computes the Diffie-Hellman of `private_key` and
/// `public_key`, then derives 64 bytes of keying material with the current
/// root key as salt; the first half is the new root key, the second half a new
/// chain key with counter 0.  Deterministic in its inputs, which is what lets
/// the two ends of a conversation stay in step.
pub fn kdf_root_key(root_key: &RootKey, private_key: &PrivateKey, public_key: &PublicKey) -> (r: (
    RootKey,
    ChainKey,
))
    requires
        private_key.wf(),
        public_key.wf(),
    ensures
        r.0@ == spec_root_step(root_key@, dh_shared(private_key@, public_key@)).0,
        r.1@.key == spec_root_step(root_key@, dh_shared(private_key@, public_key@)).1,
        r.1@.count == 0,
        r.0.wf(),
        r.1.wf(),
        forall|q: Seq<u8>|
            public_key@ == #[trigger] public_key_of(q) ==> dh_shared(private_key@, public_key@)
                == dh_shared(q, public_key_of(private_key@)),
{
    let ikm = dh_exchange(&private_key.bytes, &public_key.bytes);
    let info = kdf_info_bytes();
    let okm = hkdf_expand64(Some(&root_key.key), &ikm, &info);
    let new_root = sub_bytes(&okm, 0, 32);
    let new_chain = sub_bytes(&okm, 32, 64);
    (RootKey { key: new_root }, ChainKey { key: new_chain, count: 0 })
}

/// One chain-key step: derives 64 bytes of keying material from the chain key
/// with no salt; the first half is the next chain key (counter 0), the second
/// half the one-time message key.  Deterministic in its input.
pub fn kdf_chain_key(shared_secret: &ChainKey) -> (r: (ChainKey, Vec<u8>))
    ensures
        r.0@.key == spec_chain_step(shared_secret@.key).0,
        r.0@.count == 0,
        r.1@ == spec_chain_step(shared_secret@.key).1,
        r.0.wf(),
        r.1@.len() == 32,
{
    let info = kdf_info_bytes();
    let okm = hkdf_expand64(None, &shared_secret.key, &info);
    let new_chain = sub_bytes(&okm, 0, 32);
    let message_key = sub_bytes(&okm, 32, 64);
    (ChainKey { key: new_chain, count: 0 }, message_key)
}

// ---------------------------------------------------------------------------
// Laws of the derivation steps.
// ---------------------------------------------------------------------------

/// Law: the root-key derivation step is a pure function — two derivations from
/// the same root key and the same Diffie-Hellman inputs yield the same new
/// root key and the same new chain key.
pub proof fn lemma_root_step_deterministic(root1: Seq<u8>, ikm1: Seq<u8>, root2: Seq<u8>, ikm2: Seq<u8>)
    requires
        root1 == root2,
        ikm1 == ikm2,
    ensures
        spec_root_step(root1, ikm1) == spec_root_step(root2, ikm2),
{
}

/// Law: the chain-key derivation step is a pure function — two derivations
/// from the same chain key yield the same next chain key and the same message
/// key.
pub proof fn lemma_chain_step_deterministic(chain1: Seq<u8>, chain2: Seq<u8>)
    requires
        chain1 == chain2,
    ensures
        spec_chain_step(chain1) == spec_chain_step(chain2),
{
}

} // verus!
