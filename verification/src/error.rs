//! Error taxonomy shared by every operation of the exchange core.

use vstd::prelude::*;

verus! {

/// Typed failure of a core operation.
///
/// `NotFound` is returned both when an entity is absent and when an
/// access-scoped lookup matched nothing, so that callers cannot tell whether
/// an entity they do not participate in exists.
#[derive(Debug, Clone, PartialEq, Eq)]
pub enum Error {
    LoginFail,
    InternalServer,
    NotFound,
    BadRequest,
    /// A named entity with the given id is absent.
    EntityNotFound { entity: &'static str, id: i64 },
    /// Storage failure, with a driver message.
    Database(String),
    /// Missing or insufficient principal.
    Auth(String),
    /// Process-wide configuration is absent or malformed.
    Config(String),
    /// The operation is not legal for the entity's current status.
    InvalidState(String),
    /// An entity is absent, with an explanatory message.
    NotFoundMsg(String),
}

} // verus!
