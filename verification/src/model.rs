//! Models: units of application state with their transition functions, and
//! the shared, lockable cells that hold them.
//!
//! A model receives a message, mutates its state, and optionally emits a
//! command. Model state lives in [`Cells`], an explicit store of shared
//! slots: a [`ModelBase`] handle names one slot, cloning a handle is O(1)
//! and duplicates no state, and `zoom` derives a handle to a nested
//! sub-model that shares the child's slot. The sharing law at the end of
//! this module makes the "shared backing storage, not a copy" guarantee
//! exact.

use vstd::prelude::*;

use crate::command::Command;
use crate::signal::FlushSignals;

verus! {

/// A unit of application state plus its transition function.
///
/// `update` must be synchronous: all asynchronous work is delegated to the
/// returned [`Command`], whose outputs are further messages. Its exact
/// behaviour is pinned by `update_spec`, the mathematical transition
/// function over the model's [`FlushSignals::model`] state.
pub trait Model: FlushSignals {
    /// The messages this model receives.
    type Message;

    /// The mathematical transition: the state after the message, and the
    /// outputs of the emitted command (`None` when no command is emitted).
    spec fn update_spec(pre: Self::StateModel, message: Self::Message) -> (
        Self::StateModel,
        Option<Seq<Self::Message>>,
    );

    /// Applies one message and returns the optional command it emits.
    fn update(&mut self, message: Self::Message) -> (cmd: Command<Self::Message>)
        ensures
            final(self).model() == Self::update_spec(old(self).model(), message).0,
            cmd.repr() == Self::update_spec(old(self).model(), message).1,
    ;
}

/// A compile-time tag binding a model tree to one root.
pub trait Application: Sized {
    /// The root of the application's model tree.
    type RootModel: Model;
}

/// An application tag made up on the spot for a root model that does not
/// declare its own.
pub struct AdHocApp<RootModel> {
    _root: core::marker::PhantomData<RootModel>,
}

impl<RootModel: Model> Application for AdHocApp<RootModel> {
    type RootModel = RootModel;
}

/// A read-only request: a getter message names what is asked for and the
/// type of the answer.
pub trait ModelGetterMessage: Sized {
    /// The type of the answer.
    type Data;
}

/// A model that answers the getter message `M`.
pub trait ModelGetterHandler<M: ModelGetterMessage>: Model {
    /// The mathematical answer, a function of the state alone.
    spec fn getter_spec(pre: Self::StateModel, message: M) -> M::Data;

    /// Answers the request under shared access, mutating nothing.
    fn getter(&self, message: M) -> (r: M::Data)
        ensures
            r == Self::getter_spec(self.model(), message),
    ;
}

/// A read-only observer of every message before it reaches the model.
/// It receives the model by shared reference: it can watch, but neither
/// mutate nor veto.
pub trait Interceptor<A: Application>: Sized {
    /// Called once per inbound message, in registration order.
    fn intercept(
        &mut self,
        model: &A::RootModel,
        message: &<A::RootModel as Model>::Message,
    );
}

/// The store of shared model slots of one model type. Every handle into
/// the store names one slot; handles that name the same slot share state.
pub struct Cells<M> {
    /// The slots, each holding one model.
    pub slots: Vec<M>,
}

impl<M> Cells<M> {
    /// An empty store.
    pub fn new() -> (r: Self)
        ensures
            r.slots@ == Seq::<M>::empty(),
    {
        Cells { slots: Vec::new() }
    }
}

/// A shared, clonable handle to one model slot in a [`Cells`] store.
/// Cloning the handle is O(1) and does not duplicate the state: all clones
/// read and write the same slot.
pub struct ModelBase<M> {
    /// The slot this handle names.
    pub cell: usize,
    /// Ties the handle to its model type.
    pub _model: core::marker::PhantomData<M>,
}

impl<M> Clone for ModelBase<M> {
    /// Cloning a handle is O(1): the clone names the same slot.
    fn clone(&self) -> (r: Self)
        ensures
            r == *self,
    {
        ModelBase { cell: self.cell, _model: core::marker::PhantomData }
    }
}

impl<M> Copy for ModelBase<M> {

}

impl<M> ModelBase<M> {
    /// Whether the handle names a slot of the store.
    pub open spec fn valid(self, cells: Cells<M>) -> bool {
        self.cell < cells.slots@.len()
    }

    /// Allocates a fresh slot holding `model` and returns its handle.
    pub fn new(cells: &mut Cells<M>, model: M) -> (r: Self)
        ensures
            r.cell == old(cells).slots@.len(),
            final(cells).slots@ == old(cells).slots@.push(model),
            r.valid(*final(cells)),
    {
        let cell = cells.slots.len();
        cells.slots.push(model);
        ModelBase { cell, _model: core::marker::PhantomData }
    }

    /// Shared read access to the slot.
    pub fn read<'a>(&self, cells: &'a Cells<M>) -> (r: &'a M)
        requires
            self.valid(*cells),
        ensures
            *r == cells.slots@[self.cell as int],
    {
        &cells.slots[self.cell]
    }

    /// Exclusive write access to the slot: stores a whole new value.
    /// Every other handle naming the same slot observes the new value.
    pub fn set(&self, cells: &mut Cells<M>, value: M)
        requires
            self.valid(*old(cells)),
        ensures
            final(cells).slots@ == old(cells).slots@.update(self.cell as int, value),
    {
        let slot = self.cell;
        let _ = cells.slots.remove(slot);
        cells.slots.insert(slot, value);
        proof {
            assert(cells.slots@ =~= old(cells).slots@.update(self.cell as int, value));
        }
    }

    /// A read-only handle to the same slot.
    pub fn reader(&self) -> (r: ModelBaseReader<M>)
        ensures
            r.base == *self,
    {
        ModelBaseReader { base: *self }
    }
}

impl<M: Model> ModelBase<M> {
    /// Applies one message to the model in this slot under exclusive
    /// access and hands back the command it emitted. Only this slot
    /// changes, and it changes exactly as the model's transition says.
    pub fn update(&self, cells: &mut Cells<M>, message: M::Message) -> (cmd: Command<M::Message>)
        requires
            self.valid(*old(cells)),
        ensures
            final(cells).slots@.len() == old(cells).slots@.len(),
            final(cells).slots@[self.cell as int].model() == M::update_spec(
                old(cells).slots@[self.cell as int].model(),
                message,
            ).0,
            cmd.repr() == M::update_spec(old(cells).slots@[self.cell as int].model(), message).1,
            forall|j: int|
                0 <= j < old(cells).slots@.len() && j != self.cell ==> final(cells).slots@[j]
                    == old(cells).slots@[j],
    {
        let mut m = cells.slots.remove(self.cell);
        let cmd = m.update(message);
        cells.slots.insert(self.cell, m);
        proof {
            assert(forall|j: int|
                0 <= j < old(cells).slots@.len() && j != self.cell ==> cells.slots@[j] == old(
                    cells,
                ).slots@[j]);
        }
        cmd
    }

    /// Answers a getter message under shared access.
    pub fn get<Msg: ModelGetterMessage>(&self, cells: &Cells<M>, message: Msg) -> (r: Msg::Data)
        where M: ModelGetterHandler<Msg>
        requires
            self.valid(*cells),
        ensures
            r == M::getter_spec(cells.slots@[self.cell as int].model(), message),
    {
        cells.slots[self.cell].getter(message)
    }

    /// Derives a handle to a nested sub-model: the lens reads the child
    /// handle out of the parent's state, and the result shares the child's
    /// slot with every other handle derived the same way. Only the
    /// projection itself reads the parent slot.
    pub fn zoom<Child, L: Fn(&M) -> ModelBase<Child>>(&self, cells: &Cells<M>, lens: L) -> (r:
        ModelBase<Child>)
        requires
            self.valid(*cells),
            call_requires(lens, (&cells.slots@[self.cell as int],)),
        ensures
            call_ensures(lens, (&cells.slots@[self.cell as int],), r),
    {
        lens(&cells.slots[self.cell])
    }

    /// Flushes the signals of the model in this slot.
    pub fn flush_signals(&self, cells: &mut Cells<M>)
        requires
            self.valid(*old(cells)),
        ensures
            final(cells).slots@.len() == old(cells).slots@.len(),
            final(cells).slots@[self.cell as int].model() == M::flushed_model(
                old(cells).slots@[self.cell as int].model(),
            ),
            forall|j: int|
                0 <= j < old(cells).slots@.len() && j != self.cell ==> final(cells).slots@[j]
                    == old(cells).slots@[j],
    {
        let mut m = cells.slots.remove(self.cell);
        m.flush_signals();
        cells.slots.insert(self.cell, m);
        proof {
            assert(forall|j: int|
                0 <= j < old(cells).slots@.len() && j != self.cell ==> cells.slots@[j] == old(
                    cells,
                ).slots@[j]);
        }
    }
}

/// A handle that exposes only read access to a slot; handed to
/// interceptors and commands so they can observe without mutating.
pub struct ModelBaseReader<M> {
    /// The underlying handle.
    pub base: ModelBase<M>,
}

impl<M> Clone for ModelBaseReader<M> {
    /// Cloning a reader is O(1): the clone names the same slot.
    fn clone(&self) -> (r: Self)
        ensures
            r == *self,
    {
        ModelBaseReader { base: self.base }
    }
}

impl<M> Copy for ModelBaseReader<M> {

}

impl<M> ModelBaseReader<M> {
    /// Shared read access to the slot.
    pub fn read<'a>(&self, cells: &'a Cells<M>) -> (r: &'a M)
        requires
            self.base.valid(*cells),
        ensures
            *r == cells.slots@[self.base.cell as int],
    {
        self.base.read(cells)
    }
}

impl<M: Model> ModelBaseReader<M> {
    /// Answers a getter message under shared access.
    pub fn get<Msg: ModelGetterMessage>(&self, cells: &Cells<M>, message: Msg) -> (r: Msg::Data)
        where M: ModelGetterHandler<Msg>
        requires
            self.base.valid(*cells),
        ensures
            r == M::getter_spec(cells.slots@[self.base.cell as int].model(), message),
    {
        self.base.get(cells, message)
    }

    /// Derives a read-only handle to a nested sub-model.
    pub fn zoom<Child, L: Fn(&M) -> ModelBase<Child>>(&self, cells: &Cells<M>, lens: L) -> (r:
        ModelBaseReader<Child>)
        requires
            self.base.valid(*cells),
            call_requires(lens, (&cells.slots@[self.base.cell as int],)),
        ensures
            call_ensures(lens, (&cells.slots@[self.base.cell as int],), r.base),
    {
        ModelBaseReader { base: self.base.zoom(cells, lens) }
    }
}

/// Shared backing storage, not a copy: when two handles name the same
/// slot — as two `zoom`s of clones of one parent do — a write through one
/// is observed by a read through the other.
pub proof fn lemma_shared_backing<M>(
    h1: ModelBase<M>,
    h2: ModelBase<M>,
    pre: Cells<M>,
    post: Cells<M>,
    value: M,
)
    requires
        h1.cell == h2.cell,
        h1.valid(pre),
        post.slots@ == pre.slots@.update(h1.cell as int, value),
    ensures
        h2.valid(post),
        post.slots@[h2.cell as int] == value,
{
}

} // verus!
