//! The errors that cross the boundary or end a generation run.
use crate::types::type_ident::{IdentModel, TypeIdent};
use vstd::prelude::*;

verus! {

/// What the guest reports to the host when it cannot take a value that the
/// host handed to it.
#[derive(Debug, Clone, PartialEq, Eq)]
pub enum FPGuestError {
    /// Deserialization of data failed, possible mismatch between guest and
    /// runtime protocol version.
    SerdeError {
        /// Path to the field that failed to deserialize.
        path: String,
        message: String,
    },
    /// Received an invalid `FatPtr`.
    InvalidFatPtr,
}

/// Why bindings cannot be generated from the collected types. Such an
/// error ends the generation: there is no partial result.
#[derive(Debug, PartialEq)]
pub enum GenerationError {
    /// A type is named that the type map does not hold.
    UnresolvedType(TypeIdent),
    /// A type was derived with another shape than the one that is
    /// registered under its identifier.
    ConflictingType(TypeIdent),
    /// An attribute of the member `member` of the type `ty` has no meaning
    /// where it stands.
    MalformedAttributes { ty: TypeIdent, member: String },
}

/// The mathematical value of a [`GenerationError`].
pub ghost enum ProblemModel {
    /// A type names the type `0`, which is not registered.
    Unresolved(IdentModel),
    /// The type `0` is registered with another shape.
    Conflicting(IdentModel),
    /// An attribute of the member `member` of `ty` has no meaning there.
    Malformed { ty: IdentModel, member: Seq<char> },
}

impl View for GenerationError {
    type V = ProblemModel;

    open spec fn view(&self) -> ProblemModel {
        match self {
            GenerationError::UnresolvedType(ident) => ProblemModel::Unresolved(ident@),
            GenerationError::ConflictingType(ident) => ProblemModel::Conflicting(ident@),
            GenerationError::MalformedAttributes { ty, member } => ProblemModel::Malformed {
                ty: ty@,
                member: member@,
            },
        }
    }
}

/// Why a call across the boundary did not give a result.
#[derive(Debug, Clone, Copy, PartialEq, Eq, Structural)]
pub enum InvocationError {
    /// The instance has no function of that name. The instance stays usable.
    FunctionNotExported,
    /// A handle does not describe a region of guest memory that can be
    /// read. Only the call is lost.
    InvalidFatPtr,
    /// An asynchronous call was resolved that is not pending: its handle is
    /// unknown or was resolved before. Only the call is lost.
    UnknownHandle,
    /// The engine failed at what it was asked for. The instance must be
    /// discarded.
    InstanceFailed,
    /// What the engine reported does not answer what it was asked for.
    UnexpectedReply,
}

} // verus!
