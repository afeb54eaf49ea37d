//! Notifications shown to the user, each with its own random identifier.

use vstd::prelude::*;

verus! {

#[verifier::external_type_specification]
#[verifier::external_body]
pub struct ExUuid(uuid::Uuid);

/// Calls `uuid::Uuid::new_v4`: a fresh random identifier. Nothing is
/// claimed of it, since it comes from the random number generator.
#[verifier::external_body]
fn fresh_id() -> (id: uuid::Uuid) {
    uuid::Uuid::new_v4()
}

/// A notification, by severity.
#[derive(Debug)]
pub enum Alert {
    Info { id: uuid::Uuid, msg: String },
    Error { id: uuid::Uuid, msg: String },
    Success { id: uuid::Uuid, msg: String },
    Warning { id: uuid::Uuid, msg: String },
}

/// The severity of a notification.
#[derive(Debug, Clone, Copy, PartialEq, Eq, Structural)]
pub enum Severity {
    Info,
    Error,
    Success,
    Warning,
}

/// The severity of `a`.
pub open spec fn severity_of(a: Alert) -> Severity {
    match a {
        Alert::Info { .. } => Severity::Info,
        Alert::Error { .. } => Severity::Error,
        Alert::Success { .. } => Severity::Success,
        Alert::Warning { .. } => Severity::Warning,
    }
}

/// The message of `a`.
pub open spec fn message_of(a: Alert) -> Seq<char> {
    match a {
        Alert::Info { msg, .. } => msg@,
        Alert::Error { msg, .. } => msg@,
        Alert::Success { msg, .. } => msg@,
        Alert::Warning { msg, .. } => msg@,
    }
}

/// The identifier of `a`.
pub open spec fn id_of(a: Alert) -> uuid::Uuid {
    match a {
        Alert::Info { id, .. } => id,
        Alert::Error { id, .. } => id,
        Alert::Success { id, .. } => id,
        Alert::Warning { id, .. } => id,
    }
}

impl Alert {
    /// An informational notification with a fresh identifier.
    pub fn info(msg: String) -> (r: Self)
        ensures
            severity_of(r) == Severity::Info,
            message_of(r) == msg@,
    {
        Alert::Info { id: fresh_id(), msg }
    }

    /// An error notification with a fresh identifier.
    pub fn error(msg: String) -> (r: Self)
        ensures
            severity_of(r) == Severity::Error,
            message_of(r) == msg@,
    {
        Alert::Error { id: fresh_id(), msg }
    }

    /// A warning with a fresh identifier.
    pub fn warning(msg: String) -> (r: Self)
        ensures
            severity_of(r) == Severity::Warning,
            message_of(r) == msg@,
    {
        Alert::Warning { id: fresh_id(), msg }
    }

    /// A success notification with a fresh identifier.
    pub fn ok(msg: String) -> (r: Self)
        ensures
            severity_of(r) == Severity::Success,
            message_of(r) == msg@,
    {
        Alert::Success { id: fresh_id(), msg }
    }

    /// The identifier, whatever the severity.
    pub fn id(&self) -> (r: uuid::Uuid)
        ensures
            r == id_of(*self),
    {
        match self {
            Alert::Info { id, .. } => *id,
            Alert::Error { id, .. } => *id,
            Alert::Success { id, .. } => *id,
            Alert::Warning { id, .. } => *id,
        }
    }

    /// The message, whatever the severity.
    pub fn message(&self) -> (r: &str)
        ensures
            r@ == message_of(*self),
    {
        match self {
            Alert::Info { msg, .. } => msg.as_str(),
            Alert::Error { msg, .. } => msg.as_str(),
            Alert::Success { msg, .. } => msg.as_str(),
            Alert::Warning { msg, .. } => msg.as_str(),
        }
    }

    /// The severity.
    pub fn severity(&self) -> (r: Severity)
        ensures
            r == severity_of(*self),
    {
        match self {
            Alert::Info { .. } => Severity::Info,
            Alert::Error { .. } => Severity::Error,
            Alert::Success { .. } => Severity::Success,
            Alert::Warning { .. } => Severity::Warning,
        }
    }
}

/// Ways to report events to the user through notifications.
pub trait LoggingLayer {
    /// Reports an error.
    fn error(&self, message: String);

    /// Reports information.
    fn info(&self, message: String);

    /// Reports a success.
    fn ok(&self, message: String);

    /// Reports a warning.
    fn warning(&self, message: String);
}

} // verus!
