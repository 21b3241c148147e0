//! Core error type used across planner, backend, and executor code.

use vstd::prelude::*;

use crate::pipeline::{BufferSlot, ElementKind, KernelKind};
use crate::text::{decimal, decimal_text};

verus! {

/// Standard result alias used by this crate.
pub type BraidResult<T> = Result<T, BraidError>;

/// Error type for core stack, planner, backend, and packet operations.
#[derive(Clone, Debug)]
pub enum BraidError {
    /// Job was cancelled cooperatively.
    Cancelled,
    /// A stack-local job id was not found.
    UnknownJob,
    /// Executor or backend runtime is shutting down.
    ExecutorShutdown,
    /// Backend did not know how to prepare the requested kernel kind.
    BackendRejectedKernel(KernelKind),
    /// Requested packet buffer slot was missing.
    MissingBuffer(BufferSlot),
    /// Packet buffer slot existed with the wrong element type.
    InvalidBufferType {
        /// Slot that had the wrong type.
        slot: BufferSlot,
        /// Expected element kind for that slot.
        expected: ElementKind,
    },
    /// Planner encountered a duplicate identifier.
    DuplicateId {
        /// Identifier kind label.
        kind: &'static str,
        /// Duplicate identifier value.
        id: String,
    },
    /// Planner encountered a missing referenced identifier.
    MissingReference {
        /// Identifier kind label.
        kind: &'static str,
        /// Owner identifier value.
        id: String,
        /// Missing referenced identifier.
        reference: String,
    },
    /// Planner encountered an empty required scope.
    EmptyScope {
        /// Identifier kind label.
        kind: &'static str,
        /// Identifier value with empty scope.
        id: String,
    },
    /// Generic invalid compiled-plan or pipeline-layout error.
    InvalidSpec(String),
    /// Generic message error.
    Message(String),
    /// Shared synchronization primitive was poisoned.
    Poisoned(&'static str),
}

/// The name that `Debug` gives an element kind.
pub open spec fn kind_name(kind: ElementKind) -> Seq<char> {
    match kind {
        ElementKind::U32 => "U32"@,
        ElementKind::U64 => "U64"@,
        ElementKind::F32 => "F32"@,
    }
}

fn kind_name_text(kind: ElementKind) -> (s: &'static str)
    ensures
        s@ == kind_name(kind),
{
    match kind {
        ElementKind::U32 => "U32",
        ElementKind::U64 => "U64",
        ElementKind::F32 => "F32",
    }
}

/// `e` is an `InvalidSpec` error carrying exactly the message `msg`.
pub open spec fn is_invalid_spec(e: BraidError, msg: Seq<char>) -> bool {
    e matches BraidError::InvalidSpec(m) && m@ == msg
}

impl BraidError {
    /// Helper for creating a poisoned shared-state error.
    pub fn poisoned(name: &'static str) -> (e: Self)
        ensures
            e == BraidError::Poisoned(name),
    {
        BraidError::Poisoned(name)
    }

    /// The human-readable text of the error, as its `Display` form reads.
    pub open spec fn display_text(&self) -> Seq<char> {
        match self {
            BraidError::Cancelled => "job cancelled"@,
            BraidError::UnknownJob => "unknown job"@,
            BraidError::ExecutorShutdown => "executor is shut down"@,
            BraidError::BackendRejectedKernel(kind) => "backend rejected kernel kind "@ + decimal(
                kind@ as nat,
            ),
            BraidError::MissingBuffer(slot) => "missing buffer at slot "@ + decimal(slot@ as nat),
            BraidError::InvalidBufferType { slot, expected } => "invalid buffer type at slot "@
                + decimal(slot@ as nat) + " expected "@ + kind_name(*expected),
            BraidError::DuplicateId { kind, id } => "duplicate "@ + kind@ + " id '"@ + id@ + "'"@,
            BraidError::MissingReference { kind, id, reference } => kind@ + " '"@ + id@
                + "' references missing '"@ + reference@ + "'"@,
            BraidError::EmptyScope { kind, id } => kind@ + " '"@ + id@ + "' has empty scope"@,
            BraidError::InvalidSpec(msg) => "invalid spec: "@ + msg@,
            BraidError::Message(msg) => msg@,
            BraidError::Poisoned(name) => "shared state '"@ + name@ + "' was poisoned"@,
        }
    }

    /// Render the error as text, the way its `Display` form reads.
    pub fn display_string(&self) -> (s: String)
        ensures
            s@ == self.display_text(),
    {
        match self {
            BraidError::Cancelled => String::from_str("job cancelled"),
            BraidError::UnknownJob => String::from_str("unknown job"),
            BraidError::ExecutorShutdown => String::from_str("executor is shut down"),
            BraidError::BackendRejectedKernel(kind) => {
                let mut s = String::from_str("backend rejected kernel kind ");
                s.append(kind.display_string().as_str());
                s
            },
            BraidError::MissingBuffer(slot) => {
                let mut s = String::from_str("missing buffer at slot ");
                s.append(slot.display_string().as_str());
                s
            },
            BraidError::InvalidBufferType { slot, expected } => {
                let mut s = String::from_str("invalid buffer type at slot ");
                s.append(slot.display_string().as_str());
                s.append(" expected ");
                s.append(kind_name_text(*expected));
                s
            },
            BraidError::DuplicateId { kind, id } => {
                let mut s = String::from_str("duplicate ");
                s.append(kind);
                s.append(" id '");
                s.append(id.as_str());
                s.append("'");
                s
            },
            BraidError::MissingReference { kind, id, reference } => {
                let mut s = String::from_str(kind);
                s.append(" '");
                s.append(id.as_str());
                s.append("' references missing '");
                s.append(reference.as_str());
                s.append("'");
                s
            },
            BraidError::EmptyScope { kind, id } => {
                let mut s = String::from_str(kind);
                s.append(" '");
                s.append(id.as_str());
                s.append("' has empty scope");
                s
            },
            BraidError::InvalidSpec(msg) => {
                let mut s = String::from_str("invalid spec: ");
                s.append(msg.as_str());
                s
            },
            BraidError::Message(msg) => String::from_str(msg.as_str()),
            BraidError::Poisoned(name) => {
                let mut s = String::from_str("shared state '");
                s.append(name);
                s.append("' was poisoned");
                s
            },
        }
    }
}

impl From<String> for BraidError {
    fn from(value: String) -> (e: Self)
        ensures
            e == BraidError::Message(value),
    {
        BraidError::Message(value)
    }
}

impl vstd::std_specs::convert::FromSpecImpl<String> for BraidError {
    open spec fn obeys_from_spec() -> bool {
        true
    }

    open spec fn from_spec(v: String) -> Self {
        BraidError::Message(v)
    }
}

impl From<&str> for BraidError {
    fn from(value: &str) -> (e: Self)
        ensures
            e matches BraidError::Message(m) && m@ == value@,
    {
        BraidError::Message(value.to_owned())
    }
}

/// The message of a borrowed string is an owned copy, which no spec value can
/// name; `from` above states what it returns instead.
impl vstd::std_specs::convert::FromSpecImpl<&str> for BraidError {
    open spec fn obeys_from_spec() -> bool {
        false
    }

    open spec fn from_spec(v: &str) -> Self {
        vstd::pervasive::arbitrary()
    }
}

} // verus!
