//! Signing and verifying receipts.
//!
//! A receipt optionally carries a typed [`Signature`] over its content
//! hash, made by a [`SigningProvider`] and checked by a
//! [`SignatureVerifier`]. [`NoSigning`] / [`NoOpVerifier`] attach and check
//! nothing; [`Ed25519Signer`] / [`Ed25519Verifier`] use Ed25519.

use ed25519_dalek::{Signer, Verifier};
use rand::RngCore;
use vstd::prelude::*;

use crate::text::{
    decimal, hex_bytes, hex_decode, hex_encode, hex_error_message, hex_text, is_hex_text,
    lemma_hex_round_trip, push_decimal, push_str,
};

verus! {

/// A typed signature; the variant names the algorithm.
#[derive(Clone, Debug, PartialEq, Eq)]
pub enum Signature {
    /// No signature attached.
    Unsigned,
    /// Ed25519: the 64-byte signature and the 32-byte public key that made
    /// it, both as hexadecimal text.
    Ed25519 { sig: String, public_key: String },
}

/// The mathematical model of a [`Signature`].
pub enum SignatureModel {
    Unsigned,
    Ed25519 { sig: Seq<char>, public_key: Seq<char> },
}

impl View for Signature {
    type V = SignatureModel;

    open spec fn view(&self) -> SignatureModel {
        match self {
            Signature::Unsigned => SignatureModel::Unsigned,
            Signature::Ed25519 { sig, public_key } => SignatureModel::Ed25519 {
                sig: sig@,
                public_key: public_key@,
            },
        }
    }
}

impl Signature {
    /// Is this signature anything other than [`Signature::Unsigned`]?
    pub fn is_some(&self) -> (b: bool)
        ensures
            b == (self@ !is Unsigned),
    {
        match self {
            Signature::Unsigned => false,
            Signature::Ed25519 { .. } => true,
        }
    }

    /// A copy with the same model.
    pub fn duplicate(&self) -> (r: Signature)
        ensures
            r@ == self@,
    {
        match self {
            Signature::Unsigned => Signature::Unsigned,
            Signature::Ed25519 { sig, public_key } => Signature::Ed25519 {
                sig: sig.clone(),
                public_key: public_key.clone(),
            },
        }
    }
}

/// The signature a receipt carries when none is recorded.
pub fn default_signature() -> (s: Signature)
    ensures
        s@ is Unsigned,
{
    Signature::Unsigned
}

/// Why signing or verifying failed.
#[derive(Debug)]
pub enum SigningError {
    /// The signature (or a key) is malformed or does not verify.
    Invalid(String),
    /// The signature uses another scheme or another key than expected.
    Mismatched(String),
}

/// The text describing a signing error.
pub open spec fn signing_error_text(e: SigningError) -> Seq<char> {
    match e {
        SigningError::Invalid(m) => "invalid signature: "@ + m@,
        SigningError::Mismatched(m) => "signature scheme mismatch: "@ + m@,
    }
}

impl SigningError {
    /// A human-readable description of the error.
    pub fn describe(&self) -> (s: String)
        ensures
            s@ == signing_error_text(*self),
    {
        match self {
            SigningError::Invalid(m) => message("invalid signature: ", m.as_str()),
            SigningError::Mismatched(m) => message("signature scheme mismatch: ", m.as_str()),
        }
    }
}

/// The signing side: implementations produce a [`Signature`] over the bytes
/// they are given (a receipt's content hash).
pub trait SigningProvider: Send + Sync + Sized {
    /// `sig` is a signature this provider can produce over `content`.
    spec fn produces(&self, content: Seq<u8>, sig: SignatureModel) -> bool;

    /// This provider never fails to sign.
    spec fn infallible(&self) -> bool;

    /// `e` is an error this provider may give when asked to sign `content`.
    spec fn refuses(&self, content: Seq<u8>, e: SigningError) -> bool;

    /// Produce a signature over `content`, or one of the errors the
    /// provider may give for it.
    fn sign(&self, content: &[u8]) -> (r: Result<Signature, SigningError>)
        ensures
            r matches Ok(s) ==> self.produces(content@, s@),
            r matches Err(e) ==> self.refuses(content@, e),
            self.infallible() ==> r is Ok,
    ;
}

/// The verifying side: implementations decide whether a signature is valid
/// for the bytes that were supposedly signed.
pub trait SignatureVerifier: Send + Sync + Sized {
    /// This verifier accepts `sig` over `content`.
    spec fn accepts(&self, content: Seq<u8>, sig: SignatureModel) -> bool;

    /// `e` is an error this verifier gives when it refuses `sig` over
    /// `content`.
    spec fn rejects_with(&self, content: Seq<u8>, sig: SignatureModel, e: SigningError) -> bool;

    /// Check `sig` over `content`: `Ok` exactly when it is accepted, and
    /// otherwise one of the errors the verifier gives for it.
    fn verify(&self, content: &[u8], sig: &Signature) -> (r: Result<(), SigningError>)
        ensures
            r is Ok <==> self.accepts(content@, sig@),
            r matches Err(e) ==> self.rejects_with(content@, sig@, e),
    ;
}

/// Attaches no signature.
#[derive(Debug, Clone, Copy, Default)]
pub struct NoSigning;

impl SigningProvider for NoSigning {
    open spec fn produces(&self, content: Seq<u8>, sig: SignatureModel) -> bool {
        sig is Unsigned
    }

    open spec fn infallible(&self) -> bool {
        true
    }

    open spec fn refuses(&self, content: Seq<u8>, e: SigningError) -> bool {
        false
    }

    fn sign(&self, content: &[u8]) -> (r: Result<Signature, SigningError>) {
        Ok(Signature::Unsigned)
    }
}

/// Accepts every signature, present or not.
#[derive(Debug, Clone, Copy, Default)]
pub struct NoOpVerifier;

impl SignatureVerifier for NoOpVerifier {
    open spec fn accepts(&self, content: Seq<u8>, sig: SignatureModel) -> bool {
        true
    }

    open spec fn rejects_with(&self, content: Seq<u8>, sig: SignatureModel, e: SigningError) -> bool {
        false
    }

    fn verify(&self, content: &[u8], sig: &Signature) -> (r: Result<(), SigningError>) {
        Ok(())
    }
}

// ─── Ed25519 ───────────────────────────────────────────────────────

/// The Ed25519 public key of a 32-byte secret seed.
pub uninterp spec fn ed25519_public(secret: Seq<u8>) -> Seq<u8>;

/// The Ed25519 signature of a message under a 32-byte secret seed.
pub uninterp spec fn ed25519_signature(secret: Seq<u8>, message: Seq<u8>) -> [u8; 64];

/// Whether `ed25519-dalek` accepts a 64-byte signature over a message under
/// a 32-byte public key.
pub uninterp spec fn ed25519_accepts(public_key: Seq<u8>, message: Seq<u8>, signature: Seq<u8>) -> bool;

/// Whether 32 bytes decode to an Ed25519 public key (a curve point).
pub uninterp spec fn ed25519_key_valid(public_key: Seq<u8>) -> bool;

#[verifier::external_type_specification]
#[verifier::external_body]
pub struct ExSignatureError(ed25519_dalek::SignatureError);

/// `SigningKey::from_bytes(secret).verifying_key().to_bytes()`: the public
/// key of a secret seed, a function of the seed named `ed25519_public`.
/// Signing is deterministic and a signature made with a seed verifies under
/// that seed's public key, for every message (the Ed25519 correctness that
/// the crate documents and demonstrates); this is stated of the returned key,
/// as is that the key decodes again (`VerifyingKey::from_bytes` accepts the
/// compressed form of the point the seed derives).
#[verifier::external_body]
fn ed25519_public_key(secret: &[u8; 32]) -> (pk: [u8; 32])
    ensures
        pk@ == ed25519_public(secret@),
        ed25519_key_valid(pk@),
        forall|m: Seq<u8>| ed25519_accepts(pk@, m, #[trigger] ed25519_signature(secret@, m)@),
{
    ed25519_dalek::SigningKey::from_bytes(secret).verifying_key().to_bytes()
}

/// `SigningKey::from_bytes(secret).sign(message).to_bytes()`: the 64-byte
/// Ed25519 signature (deterministic, so a function of seed and message,
/// named `ed25519_signature`).
#[verifier::external_body]
fn ed25519_sign(secret: &[u8; 32], message: &[u8]) -> (s: [u8; 64])
    ensures
        s == ed25519_signature(secret@, message@),
{
    ed25519_dalek::SigningKey::from_bytes(secret).sign(message).to_bytes()
}

/// `VerifyingKey::from_bytes(public_key)` then `verify(message,
/// &Signature::from_bytes(signature))`: `Ok` exactly when the key decodes
/// and the signature verifies, named `ed25519_accepts`.
#[verifier::external_body]
fn ed25519_verify(public_key: &[u8; 32], message: &[u8], signature: &[u8; 64]) -> (r: Result<
    (),
    ed25519_dalek::SignatureError,
>)
    ensures
        r is Ok <==> ed25519_accepts(public_key@, message@, signature@),
{
    match ed25519_dalek::VerifyingKey::from_bytes(public_key) {
        Ok(key) => key.verify(message, &ed25519_dalek::Signature::from_bytes(signature)),
        Err(e) => Err(e),
    }
}

/// `VerifyingKey::from_bytes(public_key)`, keeping only whether it
/// succeeded (named `ed25519_key_valid`) and its error.
#[verifier::external_body]
fn ed25519_check_key(public_key: &[u8; 32]) -> (r: Result<(), ed25519_dalek::SignatureError>)
    ensures
        r is Ok <==> ed25519_key_valid(public_key@),
{
    match ed25519_dalek::VerifyingKey::from_bytes(public_key) {
        Ok(_) => Ok(()),
        Err(e) => Err(e),
    }
}

/// The `Display` text of an `ed25519_dalek::SignatureError`; nothing is
/// stated of it.
#[verifier::external_body]
fn signature_error_message(e: &ed25519_dalek::SignatureError) -> String {
    e.to_string()
}

/// `rand::rngs::OsRng.try_fill_bytes`: 32 bytes from the operating
/// system's random source, or nothing when that source fails. Nothing is
/// stated of the bytes.
#[verifier::external_body]
fn os_random_seed() -> Option<[u8; 32]> {
    let mut seed = [0u8; 32];
    match rand::rngs::OsRng.try_fill_bytes(&mut seed) {
        Ok(()) => Some(seed),
        Err(_) => None,
    }
}

/// An Ed25519 public key: 32 bytes that a secret seed derived or that were
/// checked to decode.
#[derive(Clone, Copy, Debug, PartialEq, Eq)]
pub struct VerifyingKey {
    bytes: [u8; 32],
}

impl View for VerifyingKey {
    type V = Seq<u8>;

    closed spec fn view(&self) -> Seq<u8> {
        self.bytes@
    }
}

impl VerifyingKey {
    /// The key's 32 bytes.
    pub fn to_bytes(&self) -> (b: [u8; 32])
        ensures
            b@ == self@,
    {
        self.bytes
    }
}

/// Ed25519 signer holding a 32-byte secret seed and its public key.
pub struct Ed25519Signer {
    secret: [u8; 32],
    public: [u8; 32],
}

/// The `Debug` text of a signer: the public key only, never the secret.
pub open spec fn signer_debug_text(public: Seq<u8>) -> Seq<char> {
    "Ed25519Signer { public: \""@ + hex_text(public) + "\", .. }"@
}

impl Ed25519Signer {
    /// The public key is the one the seed derives, and every signature the
    /// seed makes verifies under it.
    #[verifier::type_invariant]
    pub closed spec fn well_formed(self) -> bool {
        &&& self.public@ == ed25519_public(self.secret@)
        &&& ed25519_key_valid(self.public@)
        &&& forall|m: Seq<u8>|
            ed25519_accepts(self.public@, m, #[trigger] ed25519_signature(self.secret@, m)@)
    }

    /// The secret seed.
    pub closed spec fn secret_spec(self) -> Seq<u8> {
        self.secret@
    }

    /// The public key.
    pub closed spec fn public_spec(self) -> Seq<u8> {
        self.public@
    }

    /// A signer for a known 32-byte secret seed.
    pub fn from_secret_bytes(secret: &[u8; 32]) -> (s: Ed25519Signer)
        ensures
            s.secret_spec() == secret@,
            s.public_spec() == ed25519_public(secret@),
    {
        let public = ed25519_public_key(secret);
        Ed25519Signer { secret: *secret, public }
    }

    /// A signer with a fresh random seed, or nothing when the operating
    /// system's random source fails.
    pub fn generate() -> (s: Option<Ed25519Signer>)
        ensures
            s matches Some(s) ==> s.public_spec() == ed25519_public(s.secret_spec()),
    {
        match os_random_seed() {
            Some(seed) => Some(Self::from_secret_bytes(&seed)),
            None => None,
        }
    }

    /// The public verifying key; hand it to the verifier side.
    pub fn verifying_key(&self) -> (k: VerifyingKey)
        ensures
            k@ == self.public_spec(),
            k@ == ed25519_public(self.secret_spec()),
            ed25519_key_valid(k@),
    {
        proof {
            use_type_invariant(self);
        }
        VerifyingKey { bytes: self.public }
    }

    /// The 32-byte secret seed.
    pub fn secret_bytes(&self) -> (b: [u8; 32])
        ensures
            b@ == self.secret_spec(),
    {
        self.secret
    }

    /// Debug text naming the public key only.
    pub fn debug_string(&self) -> (s: String)
        ensures
            s@ == signer_debug_text(self.public_spec()),
    {
        let mut s = String::new();
        push_str(&mut s, "Ed25519Signer { public: \"");
        let h = hex_encode(&self.public);
        push_str(&mut s, h.as_str());
        push_str(&mut s, "\", .. }");
        s
    }
}

/// The signature model an Ed25519 seed makes over `content`.
pub open spec fn ed25519_signature_model(secret: Seq<u8>, public: Seq<u8>, content: Seq<u8>) -> SignatureModel {
    SignatureModel::Ed25519 {
        sig: hex_text(ed25519_signature(secret, content)@),
        public_key: hex_text(public),
    }
}

impl SigningProvider for Ed25519Signer {
    open spec fn produces(&self, content: Seq<u8>, sig: SignatureModel) -> bool {
        sig == ed25519_signature_model(self.secret_spec(), self.public_spec(), content)
    }

    open spec fn infallible(&self) -> bool {
        true
    }

    open spec fn refuses(&self, content: Seq<u8>, e: SigningError) -> bool {
        false
    }

    fn sign(&self, content: &[u8]) -> (r: Result<Signature, SigningError>)
        ensures
            r matches Ok(s) && s@ == ed25519_signature_model(
                self.secret_spec(),
                self.public_spec(),
                content@,
            ),
    {
        let s = ed25519_sign(&self.secret, content);
        Ok(Signature::Ed25519 { sig: hex_encode(&s), public_key: hex_encode(&self.public) })
    }
}

/// Ed25519 verifier holding the public key a chain must be signed with.
pub struct Ed25519Verifier {
    pub public_key: VerifyingKey,
}

/// The model signature names another scheme, or (as valid hex) another key
/// than `key`.
pub open spec fn ed25519_mismatch(key: Seq<u8>, sig: SignatureModel) -> bool {
    match sig {
        SignatureModel::Unsigned => true,
        SignatureModel::Ed25519 { sig, public_key } => is_hex_text(public_key) && hex_bytes(
            public_key,
        ) != key,
    }
}

/// The message for a receipt naming another public key than the
/// verifier's.
pub open spec fn key_mismatch_text(receipt_key: Seq<char>, key: Seq<u8>) -> Seq<char> {
    "receipt public_key "@ + receipt_key + " does not match verifier public_key "@ + hex_text(key)
}

/// The message for a signature of the wrong length.
pub open spec fn signature_length_text(n: nat) -> Seq<char> {
    "Ed25519 signature must be 64 bytes, got "@ + decimal(n)
}

/// Acceptance by an Ed25519 verifier holding `key`: the receipt names this
/// key in hex, carries 64 bytes of signature in hex, and they verify.
pub open spec fn ed25519_accepts_model(key: Seq<u8>, content: Seq<u8>, sig: SignatureModel) -> bool {
    match sig {
        SignatureModel::Unsigned => false,
        SignatureModel::Ed25519 { sig, public_key } => {
            &&& is_hex_text(public_key)
            &&& hex_bytes(public_key) == key
            &&& is_hex_text(sig)
            &&& hex_bytes(sig).len() == 64
            &&& ed25519_accepts(key, content, hex_bytes(sig))
        },
    }
}

/// `m` begins with `prefix`.
pub open spec fn has_prefix(m: Seq<char>, prefix: Seq<char>) -> bool {
    prefix.len() <= m.len() && m.take(prefix.len() as int) == prefix
}

/// The error an Ed25519 verifier holding `key` gives for `sig` over
/// `content` when it refuses it: checks run in the order scheme, key hex,
/// key, signature hex, signature length, signature; the texts that come
/// from the `hex` and `ed25519-dalek` error messages are fixed up to their
/// prefix.
pub open spec fn ed25519_rejection(
    key: Seq<u8>,
    content: Seq<u8>,
    sig: SignatureModel,
    e: SigningError,
) -> bool {
    match sig {
        SignatureModel::Unsigned => e matches SigningError::Mismatched(m) && m@
            == "expected Ed25519, got different scheme"@,
        SignatureModel::Ed25519 { sig, public_key } => if !is_hex_text(public_key) {
            e matches SigningError::Invalid(m) && has_prefix(m@, "public_key hex: "@)
        } else if hex_bytes(public_key) != key {
            e matches SigningError::Mismatched(m) && m@ == key_mismatch_text(public_key, key)
        } else if !is_hex_text(sig) {
            e matches SigningError::Invalid(m) && has_prefix(m@, "sig hex: "@)
        } else if hex_bytes(sig).len() != 64 {
            e matches SigningError::Invalid(m) && m@ == signature_length_text(
                hex_bytes(sig).len(),
            )
        } else {
            &&& !ed25519_accepts(key, content, hex_bytes(sig))
            &&& e matches SigningError::Invalid(m) && has_prefix(m@, "ed25519 verify: "@)
        },
    }
}

/// The message `prefix` followed by `detail`, which begins with `prefix`.
fn prefixed(prefix: &str, detail: &str) -> (s: String)
    ensures
        s@ == prefix@ + detail@,
        has_prefix(s@, prefix@),
{
    let s = message(prefix, detail);
    assert(s@.take(prefix@.len() as int) =~= prefix@);
    s
}

/// Do the bytes equal the 32-byte key?
fn same_key_bytes(bytes: &Vec<u8>, key: &[u8; 32]) -> (b: bool)
    ensures
        b == (bytes@ == key@),
{
    if bytes.len() != 32 {
        return false;
    }
    let mut i: usize = 0;
    while i < 32
        invariant
            i <= 32,
            bytes@.len() == 32,
            forall|j: int| 0 <= j < i ==> bytes@[j] == key@[j],
        decreases 32 - i,
    {
        if bytes[i] != key[i] {
            return false;
        }
        i = i + 1;
    }
    assert(bytes@ =~= key@);
    true
}

/// The message `prefix` followed by `detail`.
pub(crate) fn message(prefix: &str, detail: &str) -> (s: String)
    ensures
        s@ == prefix@ + detail@,
{
    let mut s = String::new();
    push_str(&mut s, prefix);
    push_str(&mut s, detail);
    s
}

impl Ed25519Verifier {
    /// The key this verifier checks against.
    pub open spec fn key_spec(self) -> Seq<u8> {
        self.public_key@
    }

    /// A verifier for the given public key.
    pub fn new(public_key: VerifyingKey) -> (v: Ed25519Verifier)
        ensures
            v.key_spec() == public_key@,
    {
        Ed25519Verifier { public_key }
    }

    /// A verifier for 32 public-key bytes; refused with
    /// [`SigningError::Invalid`] when the bytes do not decode to a key.
    pub fn from_public_bytes(bytes: &[u8; 32]) -> (r: Result<Ed25519Verifier, SigningError>)
        ensures
            r is Ok <==> ed25519_key_valid(bytes@),
            r matches Ok(v) ==> v.key_spec() == bytes@,
            r matches Err(e) ==> (e matches SigningError::Invalid(m) && has_prefix(
                m@,
                "bad public key: "@,
            )),
    {
        match ed25519_check_key(bytes) {
            Ok(()) => Ok(Ed25519Verifier { public_key: VerifyingKey { bytes: *bytes } }),
            Err(e) => {
                let detail = signature_error_message(&e);
                Err(SigningError::Invalid(prefixed("bad public key: ", detail.as_str())))
            },
        }
    }
}

impl SignatureVerifier for Ed25519Verifier {
    open spec fn accepts(&self, content: Seq<u8>, sig: SignatureModel) -> bool {
        ed25519_accepts_model(self.key_spec(), content, sig)
    }

    open spec fn rejects_with(&self, content: Seq<u8>, sig: SignatureModel, e: SigningError) -> bool {
        ed25519_rejection(self.key_spec(), content, sig, e)
    }

    fn verify(&self, content: &[u8], sig: &Signature) -> (r: Result<(), SigningError>)
        ensures
            r matches Err(e) ==> (e is Mismatched <==> ed25519_mismatch(self.key_spec(), sig@)),
            sig@ is Unsigned ==> (r matches Err(SigningError::Mismatched(m)) && m@
                == "expected Ed25519, got different scheme"@),
            sig@ matches SignatureModel::Ed25519 { sig: s, public_key: pk } ==> {
                &&& (is_hex_text(pk) && hex_bytes(pk) != self.key_spec()) ==> (r matches Err(
                    SigningError::Mismatched(m),
                ) && m@ == key_mismatch_text(pk, self.key_spec()))
                &&& (is_hex_text(pk) && hex_bytes(pk) == self.key_spec() && is_hex_text(s)
                    && hex_bytes(s).len() != 64) ==> (r matches Err(SigningError::Invalid(m)) && m@
                    == signature_length_text(hex_bytes(s).len()))
            },
    {
        match sig {
            Signature::Unsigned => Err(
                SigningError::Mismatched(
                    String::from_str("expected Ed25519, got different scheme"),
                ),
            ),
            Signature::Ed25519 { sig, public_key } => {
                let pk_bytes = match hex_decode(public_key.as_str()) {
                    Ok(b) => b,
                    Err(e) => {
                        let detail = hex_error_message(&e);
                        return Err(
                            SigningError::Invalid(prefixed("public_key hex: ", detail.as_str())),
                        );
                    },
                };
                if !same_key_bytes(&pk_bytes, &self.public_key.bytes) {
                    let mut m = String::new();
                    push_str(&mut m, "receipt public_key ");
                    push_str(&mut m, public_key.as_str());
                    push_str(&mut m, " does not match verifier public_key ");
                    let ours = hex_encode(&self.public_key.bytes);
                    push_str(&mut m, ours.as_str());
                    return Err(SigningError::Mismatched(m));
                }
                let sig_bytes = match hex_decode(sig.as_str()) {
                    Ok(b) => b,
                    Err(e) => {
                        let detail = hex_error_message(&e);
                        return Err(SigningError::Invalid(prefixed("sig hex: ", detail.as_str())));
                    },
                };
                if sig_bytes.len() != 64 {
                    let mut m = String::new();
                    push_str(&mut m, "Ed25519 signature must be 64 bytes, got ");
                    push_decimal(&mut m, sig_bytes.len() as u64);
                    return Err(SigningError::Invalid(m));
                }
                let mut s = [0u8; 64];
                let mut i: usize = 0;
                while i < 64
                    invariant
                        i <= 64,
                        sig_bytes@.len() == 64,
                        forall|j: int| 0 <= j < i ==> s@[j] == sig_bytes@[j],
                    decreases 64 - i,
                {
                    s[i] = sig_bytes[i];
                    i = i + 1;
                }
                assert(s@ =~= sig_bytes@);
                match ed25519_verify(&self.public_key.bytes, content, &s) {
                    Ok(()) => Ok(()),
                    Err(e) => {
                        let detail = signature_error_message(&e);
                        Err(SigningError::Invalid(prefixed("ed25519 verify: ", detail.as_str())))
                    },
                }
            },
        }
    }
}

/// Every signature an Ed25519 signer makes over any content is accepted by
/// a verifier holding that signer's public key.
pub proof fn lemma_ed25519_signer_endorsed(signer: Ed25519Signer, verifier: Ed25519Verifier)
    requires
        signer.well_formed(),
        verifier.key_spec() == signer.public_spec(),
    ensures
        forall|content: Seq<u8>, sig: SignatureModel|
            #[trigger] signer.produces(content, sig) ==> verifier.accepts(content, sig),
{
    assert forall|content: Seq<u8>, sig: SignatureModel|
        #[trigger] signer.produces(content, sig) implies verifier.accepts(content, sig) by {
        let raw = ed25519_signature(signer.secret_spec(), content)@;
        lemma_hex_round_trip(raw);
        lemma_hex_round_trip(signer.public_spec());
        assert(ed25519_accepts(signer.public_spec(), content, raw));
    }
}

} // verus!
