//! Typed receipt chains linked by BLAKE3 content hashes.
//!
//! ```text
//! Receipt₀ ──prev_hash──▶ Receipt₁ ──prev_hash──▶ Receipt₂
//!   sequence 0              sequence 1              sequence 2
//!   prev: genesis (zero)    prev: H(₀)              prev: H(₁)
//!   payload                 payload                 payload
//!   content_hash (BLAKE3)   content_hash            content_hash
//!   signature (optional)    signature               signature
//! ```
//!
//! - [`Payload`]: receipt bodies; [`OutcomePayload`] is the reconcile-tick
//!   body.
//! - [`OutcomeSink`]: persistence; [`InMemorySink`] and [`NullSink`] ship
//!   here, [`FilesystemSink`] holds the on-disk layout.
//! - [`SigningProvider`] / [`SignatureVerifier`]: attestation, with
//!   [`NoSigning`] / [`NoOpVerifier`] and [`Ed25519Signer`] /
//!   [`Ed25519Verifier`].
//! - [`OutcomeChain`]: appends payloads, computing every link.
//! - [`verify_chain`]: checks a chain end to end and reports the first
//!   broken invariant as a [`VerifyError`].
//!
//! The module `laws` states and proves what holds across these operations,
//! chief among them that a chain built by appends verifies.

pub mod chain;
pub mod hash;
pub mod laws;
pub mod receipt;
pub mod signing;
pub mod sink;
pub mod text;
pub mod time;
pub mod verify;

pub use chain::{AppendError, OutcomeChain};
pub use hash::ContentHash;
pub use receipt::{ChangeSummary, OutcomePayload, Payload, Receipt, ResourceAddress};
pub use signing::{
    default_signature, Ed25519Signer, Ed25519Verifier, NoOpVerifier, NoSigning, Signature,
    SignatureVerifier, SigningError, SigningProvider, VerifyingKey,
};
pub use sink::{
    resource_key_from_dotted, FilesystemSink, InMemorySink, NullSink, OutcomeSink, SinkError,
};
pub use time::Timestamp;
pub use verify::{verify_chain, VerifyError};
