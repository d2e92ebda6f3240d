//! Handles: what external callers hold on a running application.
//!
//! An [`Updater`] sends messages into the host's inbound channel and fails
//! with the runtime-channel-closed condition once the host has stopped. A
//! [`Getter`] asks the model for read-only snapshots and fails with the
//! getter-channel-closed condition once its channel is gone. An
//! [`AppHandle`] bundles one typed wrapper around each.

use vstd::prelude::*;

use crate::{ModelGetterChannelClosedError, MvuRuntimeChannelClosedError};
use crate::channel::Channel;
use crate::model::{Application, Cells, Model, ModelBase, ModelGetterHandler, ModelGetterMessage};

verus! {

/// A sender of messages into a host's inbound channel.
pub struct Updater<M: Model> {
    /// Ties the handle to its model type.
    pub _model: core::marker::PhantomData<M>,
}

impl<M: Model> Clone for Updater<M> {
    /// Cloning hands out another sender into the same channel.
    fn clone(&self) -> (r: Self)
        ensures
            r == *self,
    {
        Updater { _model: core::marker::PhantomData }
    }
}

impl<M: Model> Copy for Updater<M> {

}

impl<M: Model> Updater<M> {
    /// The updater for a host whose root model is `M`.
    pub fn new() -> (r: Self) {
        Updater { _model: core::marker::PhantomData }
    }

    /// Sends one message into the host's inbound channel.
    ///
    /// A full buffer is the back-pressure point: the caller waits for the
    /// host to drain before sending, which is what the `requires` stands
    /// for. Sending after the host has stopped fails with the
    /// channel-closed condition and changes nothing.
    pub fn send(&self, queue: &mut Channel<M::Message>, message: M::Message) -> (r: Result<
        (),
        MvuRuntimeChannelClosedError,
    >)
        requires
            old(queue).has_room() || old(queue).receiver_gone,
        ensures
            old(queue).receiver_gone ==> r == Result::<(), MvuRuntimeChannelClosedError>::Err(
                MvuRuntimeChannelClosedError,
            ) && *final(queue) == *old(queue),
            !old(queue).receiver_gone ==> r == Result::<(), MvuRuntimeChannelClosedError>::Ok(())
                && final(queue).contents() == old(queue).contents().push(message)
                && final(queue).capacity == old(queue).capacity
                && final(queue).senders_gone == old(queue).senders_gone
                && final(queue).receiver_gone == old(queue).receiver_gone,
    {
        match queue.try_send(message) {
            Ok(()) => Ok(()),
            Err(_) => Err(MvuRuntimeChannelClosedError),
        }
    }
}

/// A read-only asker: answers getter messages from the model's state, and
/// fails once its channel to the model is gone.
pub struct Getter<M: Model> {
    /// The handle to the root model's slot.
    pub handle: ModelBase<M>,
    /// True once the channel to the model is gone.
    pub closed: bool,
}

impl<M: Model> Clone for Getter<M> {
    /// Cloning hands out another asker of the same model.
    fn clone(&self) -> (r: Self)
        ensures
            r == *self,
    {
        Getter { handle: self.handle, closed: self.closed }
    }
}

impl<M: Model> Getter<M> {
    /// The getter for the model in the given slot.
    pub fn new(handle: ModelBase<M>) -> (r: Self)
        ensures
            r.handle == handle,
            !r.closed,
    {
        Getter { handle, closed: false }
    }

    /// Asks the model one getter message: the answer is a pure function
    /// of the model's state. Fails with the getter-channel-closed
    /// condition, and only then, once the channel is gone.
    pub fn try_get<Msg: ModelGetterMessage>(&self, cells: &Cells<M>, message: Msg) -> (r: Result<
        Msg::Data,
        ModelGetterChannelClosedError,
    >) where M: ModelGetterHandler<Msg>
        requires
            self.handle.valid(*cells),
        ensures
            self.closed <==> r == Result::<Msg::Data, ModelGetterChannelClosedError>::Err(
                ModelGetterChannelClosedError,
            ),
            !self.closed ==> (r matches Result::Ok(data) && data == M::getter_spec(
                cells.slots@[self.handle.cell as int].model(),
                message,
            )),
    {
        if self.closed {
            Err(ModelGetterChannelClosedError)
        } else {
            Ok(self.handle.get(cells, message))
        }
    }

    /// Records that the channel to the model is gone.
    pub fn close(&mut self)
        ensures
            final(self).handle == old(self).handle,
            final(self).closed,
    {
        self.closed = true;
    }
}

/// What a running application hands its embedder: one typed updater
/// wrapper and one typed getter wrapper, bound to one application tag.
pub struct AppHandle<A: Application, WU, WG> {
    /// The typed updater wrapper.
    pub updater: WU,
    /// The typed getter wrapper.
    pub getter: WG,
    /// Ties the handle to its application.
    pub _app: core::marker::PhantomData<A>,
}

impl<A: Application, WU: Copy, WG: Copy> AppHandle<A, WU, WG> {
    /// Bundles the two wrappers of a started application.
    pub fn new(updater: WU, getter: WG) -> (r: Self)
        ensures
            r.updater == updater,
            r.getter == getter,
    {
        AppHandle { updater, getter, _app: core::marker::PhantomData }
    }

    /// The typed updater wrapper.
    pub fn updater(&self) -> (r: WU)
        ensures
            r == self.updater,
    {
        self.updater
    }

    /// The typed getter wrapper.
    pub fn getter(&self) -> (r: WG)
        ensures
            r == self.getter,
    {
        self.getter
    }
}

} // verus!
