//! The ways in which a build can fail. Every failure is fatal for the build
//! that met it: nothing is substituted and nothing is retried.
use vstd::prelude::*;
use vstd::string::*;

verus! {

/// Why a build stopped.
#[derive(Debug, Clone, Copy, PartialEq, Eq, Structural)]
pub enum BuildError {
    /// A handle names no finished component of the registry.
    UnresolvedHandle,
    /// Following array or generic references did not reach a named or simple
    /// type within as many steps as the registry has components.
    CyclicReference,
    /// An internally tagged enum has a variant whose payload is not an object.
    InternalTagOnNonObject,
    /// A route takes a path parameter, which the client generator does not support.
    PathParameterUnsupported,
    /// The shape `None` was asked for a declaration.
    NoDeclaration,
    /// The base of a generic type produces no declaration of its own.
    MissingBaseType,
    /// Two methods of one route would get the same client function name.
    ClientNameCollision,
}

impl BuildError {
    /// The text shown to the user when the build is abandoned.
    pub open spec fn spec_message(self) -> Seq<char> {
        match self {
            BuildError::UnresolvedHandle => "a handle refers to a component that was never finalized"@,
            BuildError::CyclicReference => "array or generic references form a cycle"@,
            BuildError::InternalTagOnNonObject => "an internally tagged variant must have an object payload"@,
            BuildError::PathParameterUnsupported => "path parameters are not supported"@,
            BuildError::NoDeclaration => "the empty shape has no declaration"@,
            BuildError::MissingBaseType => "the base of a generic type has no declaration"@,
            BuildError::ClientNameCollision => "two methods share a client function name; rename one"@,
        }
    }

    /// The text shown to the user when the build is abandoned.
    pub fn message(&self) -> (s: String)
        ensures
            s@ == self.spec_message(),
    {
        match self {
            BuildError::UnresolvedHandle => String::from_str("a handle refers to a component that was never finalized"),
            BuildError::CyclicReference => String::from_str("array or generic references form a cycle"),
            BuildError::InternalTagOnNonObject => String::from_str("an internally tagged variant must have an object payload"),
            BuildError::PathParameterUnsupported => String::from_str("path parameters are not supported"),
            BuildError::NoDeclaration => String::from_str("the empty shape has no declaration"),
            BuildError::MissingBaseType => String::from_str("the base of a generic type has no declaration"),
            BuildError::ClientNameCollision => String::from_str("two methods share a client function name; rename one"),
        }
    }
}

} // verus!
