use vstd::prelude::*;

verus! {

/// Why an operation of the folder store failed.
#[derive(Clone, Copy, Debug, PartialEq, Eq, Structural)]
pub enum FlowyError {
    /// The identifier is unknown to the store.
    NotFound,
    /// An entity with the identifier, or a first revision of the object, is already stored.
    AlreadyExists,
    /// A stored revision does not match its checksum, its place in the
    /// sequence, or the folder layout.
    Corruption,
    /// The underlying storage cannot be reached.
    StoreUnavailable,
    /// No user is signed in.
    NotAuthenticated,
    /// The editor was used before the folder was initialized.
    ProtocolViolation,
    /// The revision counter cannot grow any further.
    SequenceExhausted,
    /// The machine's clock gives no time that can be kept.
    ClockOutOfRange,
    /// The operating system gives no random bytes.
    RandomUnavailable,
}

pub type FlowyResult<T> = Result<T, FlowyError>;

impl FlowyError {
    /// A short, stable name of the error kind.
    pub fn name(&self) -> (r: &'static str)
        ensures
            r@ == self.spec_name(),
    {
        match self {
            FlowyError::NotFound => "NotFound",
            FlowyError::AlreadyExists => "AlreadyExists",
            FlowyError::Corruption => "Corruption",
            FlowyError::StoreUnavailable => "StoreUnavailable",
            FlowyError::NotAuthenticated => "NotAuthenticated",
            FlowyError::ProtocolViolation => "ProtocolViolation",
            FlowyError::SequenceExhausted => "SequenceExhausted",
            FlowyError::ClockOutOfRange => "ClockOutOfRange",
            FlowyError::RandomUnavailable => "RandomUnavailable",
        }
    }

    pub open spec fn spec_name(&self) -> Seq<char> {
        match self {
            FlowyError::NotFound => "NotFound"@,
            FlowyError::AlreadyExists => "AlreadyExists"@,
            FlowyError::Corruption => "Corruption"@,
            FlowyError::StoreUnavailable => "StoreUnavailable"@,
            FlowyError::NotAuthenticated => "NotAuthenticated"@,
            FlowyError::ProtocolViolation => "ProtocolViolation"@,
            FlowyError::SequenceExhausted => "SequenceExhausted"@,
            FlowyError::ClockOutOfRange => "ClockOutOfRange"@,
            FlowyError::RandomUnavailable => "RandomUnavailable"@,
        }
    }
}

} // verus!
