//! The host: the single-writer event loop that owns the root model, the
//! auxiliary state, the bounded inbound channel and the interceptors.
//!
//! Messages are applied to the model strictly one at a time, in arrival
//! order; no two updates ever overlap. Each message is processed by the
//! same fixed transition: interceptors observe, the model updates, the
//! emitted command is handed back for spawning, and every signal is
//! flushed. Single-writer determinism — the model state after a run of
//! messages equals the fold of the update function over them — is stated
//! and proved here.

use vstd::prelude::*;

use crate::MvuRuntimeChannelClosedError;
use crate::channel::Channel;
use crate::command::Command;
use crate::model::{Application, Interceptor, Model};
use crate::signal::FlushSignals;
use crate::world::World;

verus! {

/// The inbound channel's buffer size when the builder is not told one.
pub const DEFAULT_CHANNEL_BUFFER_SIZE: usize = 64;

/// One model state transition as the host performs it: the update applied,
/// then every signal flushed.
pub open spec fn step_model<M: Model>(pre: M::StateModel, message: M::Message) -> M::StateModel {
    M::flushed_model(M::update_spec(pre, message).0)
}

/// The model state after a run of messages, applied strictly one at a
/// time, in order.
pub open spec fn fold_updates<M: Model>(pre: M::StateModel, messages: Seq<M::Message>)
    -> M::StateModel
    decreases messages.len(),
{
    if messages.len() == 0 {
        pre
    } else {
        fold_updates::<M>(step_model::<M>(pre, messages.first()), messages.drop_first())
    }
}

/// The outputs of the commands a run of messages makes the model emit,
/// message by message.
pub open spec fn fold_commands<M: Model>(pre: M::StateModel, messages: Seq<M::Message>) -> Seq<
    Option<Seq<M::Message>>,
>
    decreases messages.len(),
{
    if messages.len() == 0 {
        Seq::empty()
    } else {
        seq![M::update_spec(pre, messages.first()).1] + fold_commands::<M>(
            step_model::<M>(pre, messages.first()),
            messages.drop_first(),
        )
    }
}

/// A run of messages emits exactly one command per message.
pub proof fn lemma_fold_commands_len<M: Model>(pre: M::StateModel, messages: Seq<M::Message>)
    ensures
        fold_commands::<M>(pre, messages).len() == messages.len(),
    decreases messages.len(),
{
    if messages.len() > 0 {
        lemma_fold_commands_len::<M>(step_model::<M>(pre, messages.first()), messages.drop_first());
    }
}

/// Folding over one more message steps the fold once more.
proof fn lemma_fold_snoc<M: Model>(pre: M::StateModel, messages: Seq<M::Message>, m: M::Message)
    ensures
        fold_updates::<M>(pre, messages.push(m)) == step_model::<M>(
            fold_updates::<M>(pre, messages),
            m,
        ),
        fold_commands::<M>(pre, messages.push(m)) == fold_commands::<M>(pre, messages).push(
            M::update_spec(fold_updates::<M>(pre, messages), m).1,
        ),
    decreases messages.len(),
{
    let snoc = messages.push(m);
    if messages.len() == 0 {
        assert(snoc.first() == m);
        assert(snoc.drop_first() =~= Seq::<M::Message>::empty());
        assert(fold_updates::<M>(pre, snoc) == fold_updates::<M>(
            step_model::<M>(pre, m),
            snoc.drop_first(),
        ));
        assert(fold_updates::<M>(step_model::<M>(pre, m), snoc.drop_first()) == step_model::<M>(
            pre,
            m,
        ));
        assert(fold_updates::<M>(pre, messages) == pre);
        assert(fold_commands::<M>(pre, snoc) == seq![M::update_spec(pre, m).1] + fold_commands::<
            M,
        >(step_model::<M>(pre, m), snoc.drop_first()));
        assert(fold_commands::<M>(step_model::<M>(pre, m), snoc.drop_first()) =~= Seq::<
            Option<Seq<M::Message>>,
        >::empty());
        assert(fold_commands::<M>(pre, messages) =~= Seq::<Option<Seq<M::Message>>>::empty());
        assert(fold_commands::<M>(pre, snoc) =~= fold_commands::<M>(pre, messages).push(
            M::update_spec(fold_updates::<M>(pre, messages), m).1,
        ));
    } else {
        assert(snoc.first() == messages.first());
        assert(snoc.drop_first() =~= messages.drop_first().push(m));
        lemma_fold_snoc::<M>(step_model::<M>(pre, messages.first()), messages.drop_first(), m);
        assert(fold_updates::<M>(pre, snoc) == fold_updates::<M>(
            step_model::<M>(pre, messages.first()),
            snoc.drop_first(),
        ));
        assert(fold_commands::<M>(pre, snoc) == seq![M::update_spec(pre, messages.first()).1]
            + fold_commands::<M>(step_model::<M>(pre, messages.first()), snoc.drop_first()));
        assert(fold_commands::<M>(pre, snoc) =~= fold_commands::<M>(pre, messages).push(
            M::update_spec(fold_updates::<M>(pre, messages), m).1,
        ));
    }
}

/// Single-writer determinism: processing the first `k` messages and then
/// the rest is the same as processing them all — the state observed after
/// each message is a prefix fold of the whole run.
pub proof fn lemma_single_writer_determinism<M: Model>(
    pre: M::StateModel,
    messages: Seq<M::Message>,
    k: int,
)
    requires
        0 <= k <= messages.len(),
    ensures
        fold_updates::<M>(pre, messages) == fold_updates::<M>(
            fold_updates::<M>(pre, messages.take(k)),
            messages.skip(k),
        ),
    decreases k,
{
    if k == 0 {
        assert(messages.take(0) =~= Seq::<M::Message>::empty());
        assert(messages.skip(0) =~= messages);
    } else {
        assert(messages.take(k) =~= messages.take(k - 1).push(messages[k - 1]));
        lemma_single_writer_determinism::<M>(pre, messages, k - 1);
        lemma_fold_snoc::<M>(pre, messages.take(k - 1), messages[k - 1]);
        let mid = fold_updates::<M>(pre, messages.take(k - 1));
        assert(messages.skip(k - 1) =~= seq![messages[k - 1]] + messages.skip(k));
        assert(messages.skip(k - 1).len() > 0);
        assert(messages.skip(k - 1).first() == messages[k - 1]);
        assert(messages.skip(k - 1).drop_first() =~= messages.skip(k));
        assert(fold_updates::<M>(mid, messages.skip(k - 1)) == fold_updates::<M>(
            step_model::<M>(mid, messages[k - 1]),
            messages.skip(k),
        ));
    }
}

/// What one call of [`Host::step`] reported.
pub enum HostStep<T> {
    /// The queue is empty but senders remain: the loop waits for the next
    /// message.
    Idle,
    /// Every sender is gone and the queue is drained: the loop is over.
    Stopped,
    /// One message was applied; the command it emitted, to be spawned.
    Handled(Command<T>),
}

/// The single-writer event loop: the root model, the auxiliary state, the
/// interceptors, and the bounded inbound channel.
pub struct Host<A: Application, I: Interceptor<A>, V> {
    /// The root model, mutated only by this host, one message at a time.
    pub model: A::RootModel,
    /// The bounded inbound channel.
    pub queue: Channel<<A::RootModel as Model>::Message>,
    /// The observers run on every message, in registration order.
    pub interceptors: Vec<I>,
    /// The auxiliary shared state, independent from the model tree.
    pub world: World<V>,
}

impl<A: Application, I: Interceptor<A>, V> Host<A, I, V> {
    /// Whether the host has stopped: its end of the inbound channel is
    /// gone and every send fails from now on.
    pub open spec fn is_stopped(self) -> bool {
        self.queue.receiver_gone
    }

    /// A builder with nothing supplied yet.
    pub fn builder() -> (r: HostBuilder<A, I, V>)
        ensures
            r.model is None,
            r.interceptors@.len() == 0,
            r.buffer_size == DEFAULT_CHANNEL_BUFFER_SIZE,
            r.world.entries@.len() == 0,
    {
        HostBuilder::new()
    }

    /// A host for the given root model, with everything else defaulted.
    pub fn new(model: A::RootModel) -> (r: Self)
        ensures
            r.model == model,
            r.queue.contents() == Seq::<<A::RootModel as Model>::Message>::empty(),
            r.queue.capacity == DEFAULT_CHANNEL_BUFFER_SIZE,
            !r.queue.senders_gone,
            !r.queue.receiver_gone,
            r.interceptors@.len() == 0,
    {
        Self::builder().model(model).build()
    }

    /// A host whose root model is its type's default, with everything
    /// else defaulted too.
    pub fn defaults() -> (r: Self) where A::RootModel: Default
        ensures
            r.queue.contents() == Seq::<<A::RootModel as Model>::Message>::empty(),
            r.queue.capacity == DEFAULT_CHANNEL_BUFFER_SIZE,
            !r.queue.senders_gone,
            !r.queue.receiver_gone,
            r.interceptors@.len() == 0,
    {
        HostBuilder::defaults().build()
    }

    /// Tries to enqueue one message for the host to process.
    ///
    /// Back pressure: a full buffer is not an error here — the caller must
    /// wait for the host to drain and retry, which is what the `requires`
    /// stands for. Sending after the host has stopped fails with the
    /// channel-closed condition and changes nothing.
    pub fn try_send(&mut self, message: <A::RootModel as Model>::Message) -> (r: Result<
        (),
        MvuRuntimeChannelClosedError,
    >)
        requires
            old(self).queue.has_room() || old(self).is_stopped(),
        ensures
            old(self).is_stopped() ==> r == Result::<(), MvuRuntimeChannelClosedError>::Err(
                MvuRuntimeChannelClosedError,
            ) && *final(self) == *old(self),
            !old(self).is_stopped() ==> r == Result::<(), MvuRuntimeChannelClosedError>::Ok(())
                && final(self).queue.contents() == old(self).queue.contents().push(message)
                && final(self).queue.capacity == old(self).queue.capacity
                && final(self).queue.senders_gone == old(self).queue.senders_gone
                && final(self).queue.receiver_gone == old(self).queue.receiver_gone
                && final(self).model == old(self).model
                && final(self).interceptors == old(self).interceptors
                && final(self).world == old(self).world,
    {
        match self.queue.try_send(message) {
            Ok(()) => Ok(()),
            Err(_) => Err(MvuRuntimeChannelClosedError),
        }
    }

    /// A sender handle for this host's root messages.
    pub fn updater(&self) -> (r: crate::handle::Updater<A::RootModel>) {
        crate::handle::Updater::new()
    }

    /// Records that every updater handle is gone: once the queue drains,
    /// the loop stops.
    pub fn close_senders(&mut self)
        ensures
            final(self).queue.contents() == old(self).queue.contents(),
            final(self).queue.capacity == old(self).queue.capacity,
            final(self).queue.senders_gone,
            final(self).queue.receiver_gone == old(self).queue.receiver_gone,
            final(self).model == old(self).model,
            final(self).interceptors == old(self).interceptors,
            final(self).world == old(self).world,
    {
        self.queue.close_senders();
    }

    /// Applies one message: every interceptor observes it, the model
    /// updates under exclusive access, every signal is flushed, and the
    /// emitted command is handed back for the spawner. The flush happens
    /// after the update and reflects only that update's synchronous
    /// mutation.
    pub fn handle_message(&mut self, message: <A::RootModel as Model>::Message) -> (cmd: Command<
        <A::RootModel as Model>::Message,
    >)
        ensures
            final(self).model.model() == step_model::<A::RootModel>(
                old(self).model.model(),
                message,
            ),
            cmd.repr() == <A::RootModel as Model>::update_spec(
                old(self).model.model(),
                message,
            ).1,
            final(self).queue == old(self).queue,
            final(self).interceptors@.len() == old(self).interceptors@.len(),
            final(self).world == old(self).world,
    {
        let mut i: usize = 0;
        let n = self.interceptors.len();
        while i < n
            invariant
                n == self.interceptors@.len(),
                i <= n,
                self.model == old(self).model,
                self.queue == old(self).queue,
                self.world == old(self).world,
            decreases n - i,
        {
            let mut interceptor = self.interceptors.remove(i);
            interceptor.intercept(&self.model, &message);
            self.interceptors.insert(i, interceptor);
            i = i + 1;
        }
        let cmd = self.model.update(message);
        self.model.flush_signals();
        cmd
    }

    /// One turn of the event loop: receives the next message and applies
    /// it; reports `Idle` on an empty queue with senders remaining, and
    /// `Stopped` — closing the host's end of the channel for good — once
    /// every sender is gone and the queue is drained.
    pub fn step(&mut self) -> (r: HostStep<<A::RootModel as Model>::Message>)
        ensures
            old(self).queue.contents().len() == 0 && !old(self).queue.senders_gone ==> r
                is Idle && *final(self) == *old(self),
            old(self).queue.contents().len() == 0 && old(self).queue.senders_gone ==> r
                is Stopped && final(self).is_stopped() && final(self).model == old(self).model
                && final(self).queue.contents() == old(self).queue.contents(),
            old(self).queue.contents().len() > 0 ==> (r is Handled && final(self).model.model()
                == step_model::<A::RootModel>(
                old(self).model.model(),
                old(self).queue.contents().first(),
            ) && (r matches HostStep::Handled(cmd) ==> cmd.repr() == <A::RootModel as Model>::update_spec(
                old(self).model.model(),
                old(self).queue.contents().first(),
            ).1) && final(self).queue.contents() == old(self).queue.contents().drop_first()
                && final(self).queue.capacity == old(self).queue.capacity
                && final(self).queue.senders_gone == old(self).queue.senders_gone
                && final(self).queue.receiver_gone == old(self).queue.receiver_gone
                && final(self).world == old(self).world),
    {
        match self.queue.try_recv() {
            Some(message) => HostStep::Handled(self.handle_message(message)),
            None => {
                if self.queue.senders_gone {
                    self.queue.close_receiver();
                    HostStep::Stopped
                } else {
                    HostStep::Idle
                }
            },
        }
    }

    /// Drains the queue: applies every queued message, one at a time, in
    /// order, and hands back the emitted commands in the same order.
    ///
    /// Single-writer determinism: the model ends in exactly the state
    /// obtained by folding the update function over the drained messages
    /// outside the runtime.
    pub fn run_until_idle(&mut self) -> (cmds: Vec<Command<<A::RootModel as Model>::Message>>)
        ensures
            final(self).model.model() == fold_updates::<A::RootModel>(
                old(self).model.model(),
                old(self).queue.contents(),
            ),
            final(self).queue.contents().len() == 0,
            final(self).queue.capacity == old(self).queue.capacity,
            final(self).queue.senders_gone == old(self).queue.senders_gone,
            final(self).queue.receiver_gone == old(self).queue.receiver_gone,
            final(self).world == old(self).world,
            cmds@.len() == old(self).queue.contents().len(),
            forall|k: int|
                0 <= k < cmds@.len() ==> (#[trigger] cmds@[k]).repr() == fold_commands::<
                    A::RootModel,
                >(old(self).model.model(), old(self).queue.contents())[k],
    {
        let ghost msgs = self.queue.contents();
        let ghost pre = self.model.model();
        let mut cmds: Vec<Command<<A::RootModel as Model>::Message>> = Vec::new();
        let ghost mut done: Seq<<A::RootModel as Model>::Message> = Seq::empty();
        proof {
            assert(msgs.take(0) =~= Seq::<<A::RootModel as Model>::Message>::empty());
        }
        loop
            invariant
                done == msgs.take(cmds@.len() as int),
                cmds@.len() <= msgs.len(),
                self.queue.contents() == msgs.skip(cmds@.len() as int),
                self.queue.capacity == old(self).queue.capacity,
                self.queue.senders_gone == old(self).queue.senders_gone,
                self.queue.receiver_gone == old(self).queue.receiver_gone,
                self.world == old(self).world,
                pre == old(self).model.model(),
                msgs == old(self).queue.contents(),
                self.model.model() == fold_updates::<A::RootModel>(pre, done),
                forall|k: int|
                    0 <= k < cmds@.len() ==> (#[trigger] cmds@[k]).repr() == fold_commands::<
                        A::RootModel,
                    >(pre, done)[k],
            ensures
                done == msgs,
                cmds@.len() == msgs.len(),
                self.queue.contents().len() == 0,
                self.queue.capacity == old(self).queue.capacity,
                self.queue.senders_gone == old(self).queue.senders_gone,
                self.queue.receiver_gone == old(self).queue.receiver_gone,
                self.world == old(self).world,
                self.model.model() == fold_updates::<A::RootModel>(pre, msgs),
                forall|k: int|
                    0 <= k < cmds@.len() ==> (#[trigger] cmds@[k]).repr() == fold_commands::<
                        A::RootModel,
                    >(pre, msgs)[k],
            decreases self.queue.contents().len(),
        {
            let ghost k = cmds@.len() as int;
            match self.queue.try_recv() {
                None => {
                    proof {
                        assert(msgs.skip(k) =~= Seq::<<A::RootModel as Model>::Message>::empty());
                        assert(k == msgs.len());
                        assert(done =~= msgs);
                    }
                    break ;
                },
                Some(message) => {
                    proof {
                        assert(msgs.skip(k).first() == msgs[k]);
                        assert(msgs.skip(k).drop_first() =~= msgs.skip(k + 1));
                    }
                    let cmd = self.handle_message(message);
                    cmds.push(cmd);
                    proof {
                        lemma_fold_snoc::<A::RootModel>(pre, done, message);
                        lemma_fold_commands_len::<A::RootModel>(pre, done);
                        let ghost prev = done;
                        done = done.push(message);
                        lemma_fold_commands_len::<A::RootModel>(pre, done);
                        assert(done =~= msgs.take(k + 1));
                        assert(fold_commands::<A::RootModel>(pre, done) == fold_commands::<
                            A::RootModel,
                        >(pre, prev).push(
                            <A::RootModel as Model>::update_spec(
                                fold_updates::<A::RootModel>(pre, prev),
                                message,
                            ).1,
                        ));
                        assert forall|k2: int|
                            0 <= k2 < cmds@.len() implies (#[trigger] cmds@[k2]).repr()
                            == fold_commands::<A::RootModel>(pre, done)[k2] by {
                            if k2 < k {
                                assert(fold_commands::<A::RootModel>(pre, done)[k2]
                                    == fold_commands::<A::RootModel>(pre, prev)[k2]);
                            } else {
                                assert(fold_commands::<A::RootModel>(pre, done)[k]
                                    == <A::RootModel as Model>::update_spec(
                                    fold_updates::<A::RootModel>(pre, prev),
                                    message,
                                ).1);
                            }
                        }
                    }
                },
            }
        }
        proof {
            lemma_fold_commands_len::<A::RootModel>(pre, msgs);
        }
        cmds
    }
}

/// Builds a [`Host`]: a root model must be supplied; world entries,
/// interceptors and a buffer size may be.
pub struct HostBuilder<A: Application, I: Interceptor<A>, V> {
    /// The root model, once supplied.
    pub model: Option<A::RootModel>,
    /// The observers to run on every message.
    pub interceptors: Vec<I>,
    /// The inbound channel's buffer size.
    pub buffer_size: usize,
    /// The auxiliary state entries registered so far.
    pub world: World<V>,
}

impl<A: Application, I: Interceptor<A>, V> HostBuilder<A, I, V> {
    /// A builder with nothing supplied yet.
    pub fn new() -> (r: Self)
        ensures
            r.model is None,
            r.interceptors@.len() == 0,
            r.buffer_size == DEFAULT_CHANNEL_BUFFER_SIZE,
            r.world.entries@.len() == 0,
    {
        HostBuilder {
            model: None,
            interceptors: Vec::new(),
            buffer_size: DEFAULT_CHANNEL_BUFFER_SIZE,
            world: World::new(),
        }
    }

    /// A builder whose root model is already the type's default.
    pub fn defaults() -> (r: Self) where A::RootModel: Default
        ensures
            r.model is Some,
            r.interceptors@.len() == 0,
            r.buffer_size == DEFAULT_CHANNEL_BUFFER_SIZE,
            r.world.entries@.len() == 0,
    {
        Self::new().default_model()
    }

    /// Supplies the root model's type default as the root model.
    pub fn default_model(self) -> (r: Self) where A::RootModel: Default
        ensures
            r.model is Some,
            r.interceptors == self.interceptors,
            r.buffer_size == self.buffer_size,
            r.world == self.world,
    {
        let value = <A::RootModel as Default>::default();
        self.model(value)
    }

    /// Registers the type default of one auxiliary state entry under its
    /// key; a later entry with the same key replaces the earlier.
    pub fn state(self, key: u64) -> (r: Self) where V: Default
        requires
            self.world.wf(),
        ensures
            r.model == self.model,
            r.interceptors == self.interceptors,
            r.buffer_size == self.buffer_size,
            r.world.wf(),
            forall|k: u64| r.world.contains_key(k) <==> (self.world.contains_key(k) || k == key),
            r.world.contains_key(key),
    {
        let mut world = self.world;
        world.add(key);
        HostBuilder { world, ..self }
    }

    /// Supplies the root model.
    pub fn model(self, value: A::RootModel) -> (r: Self)
        ensures
            r == (HostBuilder { model: Option::Some(value), ..self }),
    {
        HostBuilder { model: Some(value), ..self }
    }

    /// Registers one auxiliary state entry under its key; a later entry
    /// with the same key replaces the earlier.
    pub fn state_with(self, key: u64, value: V) -> (r: Self)
        requires
            self.world.wf(),
        ensures
            r.model == self.model,
            r.interceptors == self.interceptors,
            r.buffer_size == self.buffer_size,
            r.world.wf(),
            forall|k: u64| r.world.contains_key(k) <==> (self.world.contains_key(k) || k == key),
            forall|k: u64|
                self.world.contains_key(k) && k != key ==> r.world.value_of(k)
                    == self.world.value_of(k),
            r.world.contains_key(key) && r.world.value_of(key) == value,
    {
        let mut world = self.world;
        world.add_with(key, value);
        HostBuilder { world, ..self }
    }

    /// Registers one more interceptor; they run in registration order.
    pub fn interceptor(self, value: I) -> (r: Self)
        ensures
            r.model == self.model,
            r.interceptors@ == self.interceptors@.push(value),
            r.buffer_size == self.buffer_size,
            r.world == self.world,
    {
        let mut interceptors = self.interceptors;
        interceptors.push(value);
        HostBuilder { interceptors, ..self }
    }

    /// Sets the inbound channel's buffer size.
    pub fn buffer_size(self, value: usize) -> (r: Self)
        ensures
            r == (HostBuilder { buffer_size: value, ..self }),
    {
        HostBuilder { buffer_size: value, ..self }
    }

    /// Builds the host. A root model must have been supplied: building
    /// without one is a configuration error the builder refuses.
    pub fn build(self) -> (r: Host<A, I, V>)
        requires
            self.model is Some,
        ensures
            r.model == self.model->0,
            r.queue.contents() == Seq::<<A::RootModel as Model>::Message>::empty(),
            r.queue.capacity == self.buffer_size,
            !r.queue.senders_gone,
            !r.queue.receiver_gone,
            r.interceptors == self.interceptors,
            r.world == self.world,
    {
        let model = self.model.unwrap();
        Host {
            model,
            queue: Channel::new(self.buffer_size),
            interceptors: self.interceptors,
            world: self.world,
        }
    }
}

} // verus!
