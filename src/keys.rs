//! X25519 key material: private keys that never print, public keys that identify
//! peers, and key pairs whose public half is derived from the private one.

use vstd::prelude::*;
use crate::error::{msg, WgAgentError};
use base64::Engine;

verus! {

/// What the standard base64 engine decodes a text to; `None` where it rejects it.
pub uninterp spec fn base64_decoded(s: Seq<char>) -> Option<Seq<u8>>;

/// What the standard base64 engine encodes bytes to.
pub uninterp spec fn base64_text(b: Seq<u8>) -> Seq<char>;

/// The X25519 public key of a secret scalar.
pub uninterp spec fn x25519_public_of(secret: Seq<u8>) -> Seq<u8>;

/// Relies on `base64::engine::general_purpose::STANDARD.encode`: padded standard
/// base64, four characters for every three bytes begun, which the same engine decodes
/// back to the input.
#[verifier::external_body]
fn encode_base64(b: &[u8; 32]) -> (r: String)
    ensures
        r@ == base64_text(b@),
        r@.len() == 44,
        base64_decoded(r@) == Some(b@),
        forall|i: int| 0 <= i < r@.len() ==> base64_char(#[trigger] r@[i]),
{
    base64::engine::general_purpose::STANDARD.encode(b)
}

/// A character of the standard base64 alphabet, or its `=` padding.
pub open spec fn base64_char(c: char) -> bool {
    crate::text::ascii_alnum(c) || c == '+' || c == '/' || c == '='
}

/// What `str::trim` leaves of a text.
pub uninterp spec fn trimmed(s: Seq<char>) -> Seq<char>;

/// Relies on `str::trim`: leading and trailing white space is removed, so a text made
/// only of base64 characters is left as it is.
#[verifier::external_body]
fn trim_text(s: &str) -> (r: &str)
    ensures
        r@ == trimmed(s@),
        (forall|i: int| 0 <= i < s@.len() ==> base64_char(#[trigger] s@[i])) ==> r@ == s@,
{
    s.trim()
}

/// Every character is a base64 character.
pub open spec fn all_base64(s: Seq<char>) -> bool {
    forall|i: int| 0 <= i < s.len() ==> base64_char(#[trigger] s[i])
}

/// Relies on `base64::engine::general_purpose::STANDARD.decode`.
#[verifier::external_body]
fn decode_base64(s: &str) -> (r: Option<Vec<u8>>)
    ensures
        match base64_decoded(s@) {
            Some(v) => r is Some && r->0@ == v,
            None => r is None,
        },
{
    base64::engine::general_purpose::STANDARD.decode(s).ok()
}

/// Relies on `x25519_dalek`: the public key of `StaticSecret::from(secret)`.
#[verifier::external_body]
fn x25519_public(secret: &[u8; 32]) -> (r: [u8; 32])
    ensures
        r@ == x25519_public_of(secret@),
{
    let s = boringtun::x25519::StaticSecret::from(*secret);
    boringtun::x25519::PublicKey::from(&s).to_bytes()
}

/// Relies on `x25519_dalek::StaticSecret::random_from_rng` with the operating
/// system's random source.
#[verifier::external_body]
fn random_secret() -> (r: [u8; 32]) {
    boringtun::x25519::StaticSecret::random_from_rng(rand::rngs::OsRng).to_bytes()
}

/// Relies on `zeroize::Zeroize` for byte arrays: every byte is overwritten with zero.
#[verifier::external_body]
fn wipe(b: &mut [u8; 32])
    ensures
        forall|i: int| 0 <= i < 32 ==> #[trigger] final(b)@[i] == 0,
    opens_invariants none
    no_unwind
{
    zeroize::Zeroize::zeroize(b)
}

/// Copies 32 bytes out of a vector of exactly that length.
fn to_array(v: &Vec<u8>) -> (r: [u8; 32])
    requires
        v@.len() == 32,
    ensures
        r@ == v@,
{
    let mut a = [0u8; 32];
    let mut i: usize = 0;
    while i < 32
        invariant
            v@.len() == 32,
            i <= 32,
            a@.len() == 32,
            forall|j: int| 0 <= j < i ==> #[trigger] a@[j] == v@[j],
        decreases 32 - i,
    {
        a.set(i, v[i]);
        i = i + 1;
    }
    assert(a@ =~= v@);
    a
}

/// The 32-byte key that a text decodes to, if it decodes to exactly 32 bytes.
pub open spec fn key_from_text(s: Seq<char>) -> Option<Seq<u8>> {
    match base64_decoded(s) {
        Some(v) => if v.len() == 32 {
            Some(v)
        } else {
            None
        },
        None => None,
    }
}

/// A 32-byte X25519 secret. It has no debug or display form that shows the bytes,
/// and its bytes are overwritten with zeros when it is dropped.
#[derive(Clone)]
pub struct PrivateKey {
    secret: [u8; 32],
}

impl View for PrivateKey {
    type V = Seq<u8>;

    closed spec fn view(&self) -> Seq<u8> {
        self.secret@
    }
}

impl Drop for PrivateKey {
    fn drop(&mut self)
        opens_invariants none
        no_unwind
    {
        wipe(&mut self.secret);
    }
}

impl PrivateKey {
    /// Draws a fresh key from the operating system's random source.
    pub fn generate() -> (r: PrivateKey)
        ensures
            r@.len() == 32,
    {
        PrivateKey { secret: random_secret() }
    }

    /// Wraps raw key bytes.
    pub fn from_bytes(bytes: [u8; 32]) -> (r: PrivateKey)
        ensures
            r@ == bytes@,
    {
        PrivateKey { secret: bytes }
    }

    /// Parses a base64 key, with surrounding white space trimmed; it must decode to
    /// exactly 32 bytes. Text made only of base64 characters is parsed as it stands.
    pub fn from_base64(s: &str) -> (r: Result<PrivateKey, WgAgentError>)
        ensures
            match key_from_text(trimmed(s@)) {
                Some(k) => r is Ok && r->Ok_0@ == k,
                None => r matches Err(WgAgentError::Config(_)),
            },
            all_base64(s@) ==> match key_from_text(s@) {
                Some(k) => r is Ok && r->Ok_0@ == k,
                None => r matches Err(WgAgentError::Config(_)),
            },
    {
        let t = trim_text(s);
        match decode_base64(t) {
            Some(v) => {
                if v.len() != 32 {
                    return Err(WgAgentError::Config(msg("Invalid private key length: expected 32 bytes")));
                }
                Ok(PrivateKey { secret: to_array(&v) })
            },
            None => Err(WgAgentError::Config(msg("Invalid base64 private key"))),
        }
    }

    /// Reads a key file from its permission bits and contents: a file that grants any
    /// access to group or others is refused whatever it holds; otherwise the contents,
    /// trimmed, are parsed as base64.
    pub fn from_file_contents(mode: u32, contents: &str) -> (r: Result<PrivateKey, WgAgentError>)
        ensures
            (mode & 0o077) != 0 ==> r matches Err(WgAgentError::Permission(_)),
            (mode & 0o077) == 0 ==> match key_from_text(trimmed(contents@)) {
                Some(k) => r is Ok && r->Ok_0@ == k,
                None => r matches Err(WgAgentError::Config(_)),
            },
    {
        match crate::security::check_key_file_mode(mode) {
            Ok(()) => PrivateKey::from_base64(contents),
            Err(e) => Err(e),
        }
    }

    /// The key as padded standard base64; that text parses back to this key.
    pub fn to_base64(&self) -> (r: String)
        ensures
            r@ == base64_text(self@),
            r@.len() == 44,
            all_base64(r@),
            key_from_text(r@) == Some(self@),
    {
        encode_base64(&self.secret)
    }

    /// The public key that this secret derives.
    pub fn public_key(&self) -> (r: PublicKey)
        ensures
            r@ == x25519_public_of(self@),
    {
        PublicKey { key: x25519_public(&self.secret) }
    }

    /// The raw bytes, for session construction.
    pub fn as_bytes(&self) -> (r: &[u8; 32])
        ensures
            r@ == self@,
    {
        &self.secret
    }

    /// The debug form: the secret never appears in it.
    pub fn debug_text(&self) -> (r: String)
        ensures
            r@ == redacted_debug(),
    {
        msg("PrivateKey([REDACTED])")
    }

    /// The display form: the secret never appears in it.
    pub fn to_string(&self) -> (r: String)
        ensures
            r@ == redacted_display(),
    {
        msg("[REDACTED]")
    }
}

pub open spec fn redacted_debug() -> Seq<char> {
    "PrivateKey([REDACTED])"@
}

pub open spec fn redacted_display() -> Seq<char> {
    "[REDACTED]"@
}

/// Whether `needle` occurs in `hay` as a contiguous run.
pub open spec fn occurs_in(needle: Seq<char>, hay: Seq<char>) -> bool {
    exists|i: int| 0 <= i && i + needle.len() <= hay.len() && #[trigger] hay.subrange(i, i + needle.len()) == needle
}

/// Neither printed form of a private key holds its base64 text, which is 44 characters
/// long for every key.
pub proof fn lemma_redacted_forms_hide_key(encoded: Seq<char>)
    requires
        encoded.len() == 44,
    ensures
        !occurs_in(encoded, redacted_debug()),
        !occurs_in(encoded, redacted_display()),
{
    reveal_strlit("PrivateKey([REDACTED])");
    reveal_strlit("[REDACTED]");
}

/// A key written as base64 text parses back to itself.
pub proof fn lemma_key_text_round_trip(k: Seq<u8>, s: Seq<char>)
    requires
        k.len() == 32,
        base64_decoded(s) == Some(k),
    ensures
        key_from_text(s) == Some(k),
{
}

/// A key parsed back from its base64 text derives the same public key.
pub proof fn lemma_restored_key_same_public(k: Seq<u8>, s: Seq<char>)
    requires
        k.len() == 32,
        base64_decoded(s) == Some(k),
    ensures
        key_from_text(s) is Some,
        x25519_public_of(key_from_text(s)->0) == x25519_public_of(k),
{
}

/// A 32-byte X25519 public key: the stable identity of a peer.
#[derive(Clone, Copy, Debug, Hash)]
pub struct PublicKey {
    key: [u8; 32],
}

impl View for PublicKey {
    type V = Seq<u8>;

    closed spec fn view(&self) -> Seq<u8> {
        self.key@
    }
}

impl PartialEq for PublicKey {
    fn eq(&self, o: &PublicKey) -> (r: bool) {
        let mut i: usize = 0;
        while i < 32
            invariant
                i <= 32,
                self.key@.len() == 32,
                o.key@.len() == 32,
                forall|j: int| 0 <= j < i ==> self.key@[j] == o.key@[j],
            decreases 32 - i,
        {
            if self.key[i] != o.key[i] {
                return false;
            }
            i = i + 1;
        }
        assert(self.key@ =~= o.key@);
        true
    }
}

impl Eq for PublicKey {}

impl vstd::std_specs::cmp::PartialEqSpecImpl for PublicKey {
    open spec fn obeys_eq_spec() -> bool {
        true
    }

    open spec fn eq_spec(&self, o: &PublicKey) -> bool {
        self@ == o@
    }
}

impl PublicKey {
    /// Wraps raw key bytes.
    pub fn from_bytes(bytes: [u8; 32]) -> (r: PublicKey)
        ensures
            r@ == bytes@,
    {
        PublicKey { key: bytes }
    }

    /// Parses a base64 key, with surrounding white space trimmed; it must decode to
    /// exactly 32 bytes. Text made only of base64 characters is parsed as it stands.
    pub fn from_base64(s: &str) -> (r: Result<PublicKey, WgAgentError>)
        ensures
            match key_from_text(trimmed(s@)) {
                Some(k) => r is Ok && r->Ok_0@ == k,
                None => r matches Err(WgAgentError::Config(_)),
            },
            all_base64(s@) ==> match key_from_text(s@) {
                Some(k) => r is Ok && r->Ok_0@ == k,
                None => r matches Err(WgAgentError::Config(_)),
            },
    {
        let t = trim_text(s);
        match decode_base64(t) {
            Some(v) => {
                if v.len() != 32 {
                    return Err(WgAgentError::Config(msg("Invalid public key length: expected 32 bytes")));
                }
                Ok(PublicKey { key: to_array(&v) })
            },
            None => Err(WgAgentError::Config(msg("Invalid base64 public key"))),
        }
    }

    /// The key as padded standard base64; that text parses back to this key.
    pub fn to_base64(&self) -> (r: String)
        ensures
            r@ == base64_text(self@),
            key_from_text(r@) == Some(self@),
            all_base64(r@),
    {
        encode_base64(&self.key)
    }

    /// The raw bytes.
    pub fn as_bytes(&self) -> (r: &[u8; 32])
        ensures
            r@ == self@,
    {
        &self.key
    }
}

/// A private key with the public key it derives.
#[derive(Clone)]
pub struct KeyPair {
    pub private: PrivateKey,
    pub public: PublicKey,
}

impl KeyPair {
    /// A copy holding the same keys.
    pub fn duplicate(&self) -> (r: KeyPair)
        ensures
            r.private@ == self.private@,
            r.public == self.public,
    {
        KeyPair { private: PrivateKey::from_bytes(*self.private.as_bytes()), public: self.public }
    }

    /// The public half is the one the private half derives.
    pub open spec fn wf(&self) -> bool {
        self.public@ == x25519_public_of(self.private@)
    }

    /// Draws a fresh key pair.
    pub fn generate() -> (r: KeyPair)
        ensures
            r.wf(),
            r.private@.len() == 32,
    {
        let private = PrivateKey::generate();
        KeyPair::from_private(private)
    }

    /// The debug form: the public key in base64, the private key redacted.
    pub fn debug_text(&self) -> (r: String)
        ensures
            r@ == "KeyPair { private: \"[REDACTED]\", public: PublicKey("@ + base64_text(self.public@) + ") }"@,
    {
        let mut s = msg("KeyPair { private: \"[REDACTED]\", public: PublicKey(");
        s.append(self.public.to_base64().as_str());
        s.append(") }");
        s
    }

    /// Completes a private key with the public key it derives.
    pub fn from_private(private: PrivateKey) -> (r: KeyPair)
        ensures
            r.wf(),
            r.private@ == private@,
    {
        let public = private.public_key();
        KeyPair { private, public }
    }
}

} // verus!
