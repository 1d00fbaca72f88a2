//! Error taxonomy of the chat relay core.

use vstd::prelude::*;

verus! {

/// Failures of the ratchet and cipher layer.
#[derive(Clone, Copy, Debug, PartialEq, Eq, Structural)]
pub enum CryptoError {
    /// A public key was supplied whose byte form does not have the required length.
    InvalidPublicKey,
    /// An encryption step was attempted before any public key of the peer was known.
    NoPeerKey,
    /// The underlying cipher rejected its input.
    EncryptionFailure,
    /// Authenticated decryption failed: wrong key, corrupted ciphertext, or
    /// desynchronized ratchet state.
    DecryptionFailure,
    /// The decrypted bytes are not valid text.
    TextDecodeFailure,
}

/// Failures of the envelope protocol and of the registration handshake.
#[derive(Clone, Copy, Debug, PartialEq, Eq, Structural)]
pub enum ProtocolError {
    /// A line did not parse as any known envelope.
    MalformedEnvelope,
    /// An envelope arrived that the connection's current state does not accept.
    UnexpectedEnvelopeInState,
    /// A registration was attempted under a name that is already taken.
    AlreadyRegistered,
}

/// Failures of the peer directory.
#[derive(Clone, Copy, Debug, PartialEq, Eq, Structural)]
pub enum DirectoryError {
    /// The recipient name is not present in the directory.
    UnknownRecipient,
}

} // verus!
