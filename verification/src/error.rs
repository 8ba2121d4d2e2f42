//! The errors that the instruction processor surfaces.  Every check is a hard
//! stop: the first violated precondition aborts the request, and no error is
//! recovered or retried internally.

use vstd::prelude::*;

verus! {

/// Why a request was refused.  The first seven variants follow the record
/// store's taxonomy; the last three name conditions under which the host
/// collaborators refuse to proceed.
#[derive(Clone, Copy, Debug, PartialEq, Eq, Structural)]
pub enum StudentIntroError {
    /// The request bytes hold an unknown operation tag or a payload that
    /// cannot be fully consumed.
    InvalidInstruction,
    /// The requesting identity did not supply a valid authorization proof.
    MissingSignature,
    /// The supplied storage address does not match the re-derived one.
    InvalidAddress,
    /// The encoded record would exceed `MAX_RECORD_SIZE`, or would not fit in
    /// the storage it is to be written to.
    InvalidDataLength,
    /// The storage's owning capability holder is not this processor.
    IllegalOwner,
    /// The operation needs a previously created record and none exists.
    UninitializedAccount,
    /// The supplied name differs from the record's immutable stored name.
    InvalidStudentName,
    /// Create found the target storage already holding data; with strict
    /// creation the allocator refuses to touch it rather than silently
    /// overwrite, and with lenient creation it is returned for storage that
    /// cannot safely be reused.
    AlreadyInUse,
    /// The host's derivation primitive found no viable disambiguation nonce
    /// for the given seeds (for example, a name seed beyond the host's seed
    /// length limit).
    DerivationFailed,
    /// Update found storage whose bytes do not decode to a record.
    CorruptRecord,
}

} // verus!
