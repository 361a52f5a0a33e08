//! The failures the core reports.

use vstd::prelude::*;

verus! {

/// Why an operation of the core failed.
#[derive(Clone, Copy, Debug, PartialEq, Eq, Structural)]
pub enum Error {
    /// A name is already taken: a collector name in a collection, a map name
    /// in a hook or in the probe manager, an owner in the unmarshaler registry.
    NameConflict,
    /// A probe was requested for a target of another kind.
    TargetKindMismatch,
    /// A builder was handed a probe of a kind it does not handle.
    WrongProbeType,
    /// Something required is absent: a marker table, a program, a map.
    MissingCapability,
    /// A lookup found nothing: a marker, a symbol, a process.
    NotFound,
    /// An event payload does not have the length its layout fixes.
    SizeMismatch,
    /// No unmarshaler is registered for the owner of an event section.
    UnknownOwner,
    /// The loader, the attacher or a resolver failed for a reason of its own.
    UnderlyingFailure,
}

} // verus!
