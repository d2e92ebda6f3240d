//! Capability markers for the build-time choice between a thread-safe and
//! a single-threaded backend.
//!
//! The same runtime API compiles against either a multi-threaded backend,
//! where these markers demand `Send`, `Sync` and `'static`, or a
//! single-threaded one, where they demand nothing. The verified core is
//! the single-threaded backend: every type satisfies the markers, and the
//! host's single-writer discipline is what the proofs rest on.

use vstd::prelude::*;

verus! {

/// Demands `Send` under the thread-safe backend; nothing here.
pub trait MaybeSend {

}

/// Demands `Sync` under the thread-safe backend; nothing here.
pub trait MaybeSync {

}

/// Demands `'static` under the thread-safe backend; nothing here.
pub trait MaybeStatic {

}

impl<T> MaybeSend for T {

}

impl<T> MaybeSync for T {

}

impl<T> MaybeStatic for T {

}

/// What a value shared across the runtime must satisfy.
pub trait MaybeSendSync: MaybeSend + MaybeSync + MaybeStatic {

}

impl<T: MaybeSend + MaybeSync + MaybeStatic> MaybeSendSync for T {

}

/// What a message or getter payload must satisfy.
pub trait MaybeSendStatic: MaybeSend + MaybeStatic {

}

impl<T: MaybeSend + MaybeStatic> MaybeSendStatic for T {

}

} // verus!
