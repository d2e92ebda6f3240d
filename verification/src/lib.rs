//! A single-writer, message-driven application runtime, modelled as explicit
//! state machines: a host event loop that applies messages to a model one at a
//! time, commands that describe asynchronous work as value sequences, reactive
//! signals with coalesced notifications, a hierarchical model store, and a
//! keyed registry of auxiliary state.

use vstd::prelude::*;

pub mod channel;
pub mod command;
pub mod descriptor;
pub mod dispatcher;
pub mod handle;
pub mod host;
pub mod maybe;
pub mod model;
pub mod samples;
pub mod signal;
pub mod world;

verus! {

/// The error conditions a caller of the runtime can observe.
#[derive(Clone, Copy, PartialEq, Eq, Structural, Debug)]
pub enum Error {
    MvuRuntimeChannelClosed,
    ModelGetterChannelClosed,
}

impl Error {
    /// A human-readable description of the condition.
    pub fn message(&self) -> (r: &'static str)
        ensures
            *self is MvuRuntimeChannelClosed ==> r@ == "the channel to the mvu runtime is closed"@,
            *self is ModelGetterChannelClosed ==> r@ == "the channel to the model getter is closed"@,
    {
        match self {
            Error::MvuRuntimeChannelClosed => "the channel to the mvu runtime is closed",
            Error::ModelGetterChannelClosed => "the channel to the model getter is closed",
        }
    }
}

/// The typed failure of sending into the runtime whose host has stopped.
#[derive(Clone, Copy, PartialEq, Eq, Structural, Debug)]
pub struct MvuRuntimeChannelClosedError;

impl MvuRuntimeChannelClosedError {
    /// A human-readable description of the condition.
    pub fn message(&self) -> (r: &'static str)
        ensures
            r@ == "the channel to the mvu runtime is closed"@,
    {
        "the channel to the mvu runtime is closed"
    }
}

/// The typed failure of asking a getter whose channel is gone.
#[derive(Clone, Copy, PartialEq, Eq, Structural, Debug)]
pub struct ModelGetterChannelClosedError;

impl ModelGetterChannelClosedError {
    /// A human-readable description of the condition.
    pub fn message(&self) -> (r: &'static str)
        ensures
            r@ == "the channel to the model getter is closed"@,
    {
        "the channel to the model getter is closed"
    }
}

impl From<MvuRuntimeChannelClosedError> for Error {
    /// Folds the specific condition into the common error type.
    fn from(e: MvuRuntimeChannelClosedError) -> (r: Error) {
        Error::MvuRuntimeChannelClosed
    }
}

impl vstd::std_specs::convert::FromSpecImpl<MvuRuntimeChannelClosedError> for Error {
    open spec fn obeys_from_spec() -> bool {
        true
    }

    open spec fn from_spec(e: MvuRuntimeChannelClosedError) -> Error {
        Error::MvuRuntimeChannelClosed
    }
}

impl From<ModelGetterChannelClosedError> for Error {
    /// Folds the specific condition into the common error type.
    fn from(e: ModelGetterChannelClosedError) -> (r: Error) {
        Error::ModelGetterChannelClosed
    }
}

impl vstd::std_specs::convert::FromSpecImpl<ModelGetterChannelClosedError> for Error {
    open spec fn obeys_from_spec() -> bool {
        true
    }

    open spec fn from_spec(e: ModelGetterChannelClosedError) -> Error {
        Error::ModelGetterChannelClosed
    }
}

} // verus!
