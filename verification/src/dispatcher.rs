//! Dispatchers: typed senders into the runtime's inbound channel.
//!
//! A dispatcher routes a message — possibly a nested sub-model's message,
//! lifted through a chain of mappings — into the host's bounded inbound
//! channel. Sending after the host has stopped fails with the typed
//! channel-closed condition rather than panicking.

use vstd::prelude::*;

use crate::MvuRuntimeChannelClosedError;
use crate::channel::Channel;
use crate::model::Model;

verus! {

/// Something that can route a message of type `Msg` into the runtime.
pub trait Dispatcher<Msg>: Sized {
    /// The message type of the runtime's root model.
    type RootMessage;

    /// Which messages this dispatcher may be handed.
    spec fn accepts(self, message: Msg) -> bool;

    /// Whether `routed` is a value this dispatcher may turn `message`
    /// into.
    spec fn maps_to(self, message: Msg, routed: Self::RootMessage) -> bool;

    /// Tries to route one message into the inbound channel.
    ///
    /// A full buffer is the back-pressure point: the caller waits for the
    /// host to drain before dispatching, which is what the `requires`
    /// stands for. Dispatching after the host has stopped fails with the
    /// channel-closed condition and changes nothing.
    fn try_dispatch(&mut self, queue: &mut Channel<Self::RootMessage>, message: Msg) -> (r: Result<
        (),
        MvuRuntimeChannelClosedError,
    >)
        requires
            old(self).accepts(message),
            old(queue).has_room() || old(queue).receiver_gone,
        ensures
            old(queue).receiver_gone ==> r == Result::<(), MvuRuntimeChannelClosedError>::Err(
                MvuRuntimeChannelClosedError,
            ) && *final(queue) == *old(queue),
            !old(queue).receiver_gone ==> r == Result::<(), MvuRuntimeChannelClosedError>::Ok(())
                && exists|routed: Self::RootMessage|
                old(self).maps_to(message, routed) && final(queue).contents() == old(
                    queue,
                ).contents().push(routed),
            final(queue).capacity == old(queue).capacity,
            final(queue).senders_gone == old(queue).senders_gone,
            final(queue).receiver_gone == old(queue).receiver_gone,
    ;
}

/// The panicking flavour of dispatching: for callers that treat a stopped
/// runtime as fatal. Dispatching on a stopped runtime is excluded up
/// front, so the verified path never aborts.
pub trait DispatcherExt<Msg>: Dispatcher<Msg> {
    /// Routes one message, on a runtime known to be live.
    fn dispatch(&mut self, queue: &mut Channel<Self::RootMessage>, message: Msg)
        requires
            old(self).accepts(message),
            old(queue).has_room(),
            !old(queue).receiver_gone,
        ensures
            exists|routed: Self::RootMessage|
                old(self).maps_to(message, routed) && final(queue).contents() == old(
                    queue,
                ).contents().push(routed),
            final(queue).capacity == old(queue).capacity,
            final(queue).senders_gone == old(queue).senders_gone,
            final(queue).receiver_gone == old(queue).receiver_gone,
    {
        let r = self.try_dispatch(queue, message);
        match r {
            Ok(()) => (),
            Err(_) => {
                proof {
                    assert(false);
                }
            },
        }
    }
}

impl<Msg, D: Dispatcher<Msg>> DispatcherExt<Msg> for D {

}

/// The root dispatcher: sends a root model's messages into the inbound
/// channel unchanged.
pub struct MessageDispatcher<M: Model> {
    /// Ties the dispatcher to its model type.
    pub _model: core::marker::PhantomData<M>,
}

impl<M: Model> Clone for MessageDispatcher<M> {
    /// Cloning a dispatcher hands out another sender to the same channel.
    fn clone(&self) -> (r: Self)
        ensures
            r == *self,
    {
        MessageDispatcher { _model: core::marker::PhantomData }
    }
}

impl<M: Model> MessageDispatcher<M> {
    /// The dispatcher for a host whose root model is `M`.
    pub fn new() -> (r: Self) {
        MessageDispatcher { _model: core::marker::PhantomData }
    }

    /// Derives a dispatcher for a sub-model's messages: each is lifted
    /// into a root message by `f`, then routed as usual.
    pub fn map<MChild: Model, F: Fn(MChild::Message) -> M::Message>(self, f: F) -> (r:
        MappedDispatcher<MChild, Self, F>)
        ensures
            r.dispatcher == self,
            r.f == f,
    {
        MappedDispatcher { dispatcher: self, f, _child: core::marker::PhantomData }
    }
}

impl<M: Model> Dispatcher<M::Message> for MessageDispatcher<M> {
    type RootMessage = M::Message;

    open spec fn accepts(self, message: M::Message) -> bool {
        true
    }

    open spec fn maps_to(self, message: M::Message, routed: M::Message) -> bool {
        routed == message
    }

    fn try_dispatch(&mut self, queue: &mut Channel<M::Message>, message: M::Message) -> (r: Result<
        (),
        MvuRuntimeChannelClosedError,
    >) {
        let r = match queue.try_send(message) {
            Ok(()) => Ok(()),
            Err(_) => Err(MvuRuntimeChannelClosedError),
        };
        proof {
            if !old(queue).receiver_gone {
                assert(old(self).maps_to(message, message) && queue.contents() == old(
                    queue,
                ).contents().push(message));
            }
        }
        r
    }
}

/// A dispatcher for a nested sub-model's messages: lifts each message
/// through `f`, then hands it to the underlying dispatcher.
pub struct MappedDispatcher<MChild: Model, D, F> {
    /// The dispatcher the lifted message goes to.
    pub dispatcher: D,
    /// Lifts a sub-model message into the underlying dispatcher's type.
    pub f: F,
    /// Ties the dispatcher to the sub-model type.
    pub _child: core::marker::PhantomData<MChild>,
}

impl<MChild: Model, D, F> MappedDispatcher<MChild, D, F> {
    /// Derives a dispatcher one level deeper: a sub-sub-model's messages
    /// are lifted by `sub_f`, then by this dispatcher's own mapping.
    pub fn map<MSubChild: Model, SubF: Fn(MSubChild::Message) -> MChild::Message>(
        self,
        sub_f: SubF,
    ) -> (r: MappedDispatcher<MSubChild, Self, SubF>)
        ensures
            r.dispatcher == self,
            r.f == sub_f,
    {
        MappedDispatcher { dispatcher: self, f: sub_f, _child: core::marker::PhantomData }
    }
}

impl<MChild, Mid, D, F> Dispatcher<MChild::Message> for MappedDispatcher<MChild, D, F> where
    MChild: Model,
    D: Dispatcher<Mid>,
    F: Fn(MChild::Message) -> Mid,
 {
    type RootMessage = D::RootMessage;

    open spec fn accepts(self, message: MChild::Message) -> bool {
        &&& call_requires(self.f, (message,))
        &&& forall|mid: Mid|
            call_ensures(self.f, (message,), mid) ==> self.dispatcher.accepts(mid)
    }

    open spec fn maps_to(self, message: MChild::Message, routed: D::RootMessage) -> bool {
        exists|mid: Mid|
            call_ensures(self.f, (message,), mid) && self.dispatcher.maps_to(mid, routed)
    }

    fn try_dispatch(&mut self, queue: &mut Channel<D::RootMessage>, message: MChild::Message) -> (r:
        Result<(), MvuRuntimeChannelClosedError>) {
        let mid = (self.f)(message);
        let r = self.dispatcher.try_dispatch(queue, mid);
        proof {
            if !old(queue).receiver_gone {
                let routed0 = choose|routed: D::RootMessage|
                    old(self).dispatcher.maps_to(mid, routed) && queue.contents() == old(
                        queue,
                    ).contents().push(routed);
                assert(call_ensures(old(self).f, (message,), mid));
                assert(old(self).maps_to(message, routed0));
            }
        }
        r
    }
}

} // verus!
