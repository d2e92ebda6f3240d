//! Reference models: the smallest useful implementations of the runtime's
//! traits. They show what an application binds to the runtime — a counter
//! with a change signal, a getter, an observing interceptor, and a parent
//! model holding shared handles to nested children — and the test suite
//! drives the runtime through them.

use vstd::prelude::*;

use crate::command::Command;
use crate::model::{
    Application, Cells, Interceptor, Model, ModelBase, ModelGetterHandler, ModelGetterMessage,
};
use crate::signal::{FlushSignals, Signal, SignalView, flush_view, set_view};

verus! {

/// The messages a counter understands.
#[derive(Clone, Copy, PartialEq, Eq, Structural, Debug)]
pub enum CounterMsg {
    /// Adds one; wraps at the top.
    Increment,
    /// Adds `n`; saturates at the top.
    Add(u64),
    /// Back to zero.
    Reset,
    /// Changes nothing itself, but emits a command whose work delivers
    /// `Add(n)` back into the loop.
    Emit(u64),
}

/// The mathematical state of a [`CounterModel`].
pub struct CounterState {
    pub count: u64,
    pub changes: SignalView<u64>,
}

/// A counter with a change signal: every mutation stores the new count in
/// the signal, so subscribers learn of changes without seeing messages.
pub struct CounterModel {
    /// The count.
    pub count: u64,
    /// Notifies subscribers when the count changed.
    pub changes: Signal<u64>,
}

impl CounterModel {
    /// A counter at zero with a clean signal.
    pub fn new() -> (r: Self)
        ensures
            r.model().count == 0,
            !r.model().changes.dirty,
            r.model().changes.subscribers.len() == 0,
    {
        CounterModel { count: 0, changes: Signal::new(0) }
    }
}

impl Default for CounterModel {
    /// The default counter is a fresh one at zero.
    fn default() -> (r: Self)
        ensures
            r.model().count == 0,
            !r.model().changes.dirty,
            r.model().changes.subscribers.len() == 0,
    {
        Self::new()
    }
}

impl FlushSignals for CounterModel {
    type StateModel = CounterState;

    open spec fn model(self) -> CounterState {
        CounterState { count: self.count, changes: self.changes.model() }
    }

    open spec fn flushed_model(pre: CounterState) -> CounterState {
        CounterState { changes: flush_view(pre.changes), ..pre }
    }

    fn flush_signals(&mut self)
        ensures
            final(self).model() == Self::flushed_model(old(self).model()),
    {
        self.changes.flush();
    }
}

/// What one counter message does to the state: the new count, stored in
/// the signal too, and the outputs of the emitted command.
pub open spec fn counter_step(pre: CounterState, message: CounterMsg) -> (
    CounterState,
    Option<Seq<CounterMsg>>,
) {
    match message {
        CounterMsg::Increment => {
            let c: u64 = if pre.count == u64::MAX {
                0
            } else {
                (pre.count + 1) as u64
            };
            (CounterState { count: c, changes: set_view(pre.changes, c) }, Option::None)
        },
        CounterMsg::Add(n) => {
            let c: u64 = if pre.count <= u64::MAX - n {
                (pre.count + n) as u64
            } else {
                u64::MAX
            };
            (CounterState { count: c, changes: set_view(pre.changes, c) }, Option::None)
        },
        CounterMsg::Reset => (
            CounterState { count: 0, changes: set_view(pre.changes, 0) },
            Option::None,
        ),
        CounterMsg::Emit(n) => (pre, Option::Some(seq![CounterMsg::Add(n)])),
    }
}

impl Model for CounterModel {
    type Message = CounterMsg;

    open spec fn update_spec(pre: CounterState, message: CounterMsg) -> (
        CounterState,
        Option<Seq<CounterMsg>>,
    ) {
        counter_step(pre, message)
    }

    fn update(&mut self, message: CounterMsg) -> (cmd: Command<CounterMsg>)
        ensures
            final(self).model() == Self::update_spec(old(self).model(), message).0,
            cmd.repr() == Self::update_spec(old(self).model(), message).1,
    {
        match message {
            CounterMsg::Increment => {
                let c = if self.count == u64::MAX {
                    0
                } else {
                    self.count + 1
                };
                self.count = c;
                self.changes.set(c);
                Command::none()
            },
            CounterMsg::Add(n) => {
                let c = if self.count <= u64::MAX - n {
                    self.count + n
                } else {
                    u64::MAX
                };
                self.count = c;
                self.changes.set(c);
                Command::none()
            },
            CounterMsg::Reset => {
                self.count = 0;
                self.changes.set(0);
                Command::none()
            },
            CounterMsg::Emit(n) => Command::done(CounterMsg::Add(n)),
        }
    }
}

/// Asks a counter for its count.
pub struct CountQuery;

impl ModelGetterMessage for CountQuery {
    type Data = u64;
}

impl ModelGetterHandler<CountQuery> for CounterModel {
    open spec fn getter_spec(pre: CounterState, message: CountQuery) -> u64 {
        pre.count
    }

    fn getter(&self, message: CountQuery) -> (r: u64)
        ensures
            r == Self::getter_spec(self.model(), message),
    {
        self.count
    }
}

/// An interceptor that counts the messages it observed.
pub struct MessageCounter {
    /// How many messages passed by.
    pub seen: u64,
}

impl<A: Application> Interceptor<A> for MessageCounter {
    fn intercept(&mut self, model: &A::RootModel, message: &<A::RootModel as Model>::Message) {
        if self.seen < u64::MAX {
            self.seen = self.seen + 1;
        }
    }
}

/// The messages a [`PairModel`] understands: one side's counter message,
/// routed to that side's child.
#[derive(Clone, Copy, PartialEq, Eq, Structural, Debug)]
pub enum PairMsg {
    /// For the child the left handle names.
    Left(CounterMsg),
    /// For the child the right handle names.
    Right(CounterMsg),
}

/// The mathematical state of a [`PairModel`]: the states of the child
/// slots and the slots the two handles name.
pub struct PairState {
    pub kids: Seq<CounterState>,
    pub left: int,
    pub right: int,
}

/// Flushing one child slot; a handle naming no slot flushes nothing.
pub open spec fn flush_kid(kids: Seq<CounterState>, i: int) -> Seq<CounterState> {
    if 0 <= i < kids.len() {
        kids.update(i, CounterState { changes: flush_view(kids[i].changes), ..kids[i] })
    } else {
        kids
    }
}

/// A child's command outputs lifted into the parent's message type.
pub open spec fn lift_outputs(
    outs: Option<Seq<CounterMsg>>,
    f: spec_fn(CounterMsg) -> PairMsg,
) -> Option<Seq<PairMsg>> {
    match outs {
        Option::None => Option::None,
        Option::Some(s) => Option::Some(s.map_values(f)),
    }
}

/// What one routed message does: the named child steps, the other slots
/// stay, and the child's command outputs come back lifted. A handle
/// naming no slot routes nowhere.
pub open spec fn pair_step(pre: PairState, message: PairMsg) -> (
    PairState,
    Option<Seq<PairMsg>>,
) {
    match message {
        PairMsg::Left(cm) => {
            if 0 <= pre.left < pre.kids.len() {
                let stepped = counter_step(pre.kids[pre.left], cm);
                (
                    PairState { kids: pre.kids.update(pre.left, stepped.0), ..pre },
                    lift_outputs(stepped.1, |c: CounterMsg| PairMsg::Left(c)),
                )
            } else {
                (pre, Option::None)
            }
        },
        PairMsg::Right(cm) => {
            if 0 <= pre.right < pre.kids.len() {
                let stepped = counter_step(pre.kids[pre.right], cm);
                (
                    PairState { kids: pre.kids.update(pre.right, stepped.0), ..pre },
                    lift_outputs(stepped.1, |c: CounterMsg| PairMsg::Right(c)),
                )
            } else {
                (pre, Option::None)
            }
        },
    }
}

/// A parent model owning a store of nested counters and two shared
/// handles into it. The two handles may name the same slot: then they are
/// two views of one child, and a write through one is seen through the
/// other. Messages are routed to the named child, the child's commands
/// come back lifted into the parent's message type, and flushing the
/// parent flushes every child a handle reaches.
pub struct PairModel {
    /// The store the children live in.
    pub kids: Cells<CounterModel>,
    /// A handle to one nested counter.
    pub left: ModelBase<CounterModel>,
    /// A handle to another — possibly the same — nested counter.
    pub right: ModelBase<CounterModel>,
}

impl PairModel {
    /// The states of the child slots.
    pub open spec fn kid_states(self) -> Seq<CounterState> {
        self.kids.slots@.map_values(|c: CounterModel| c.model())
    }
}

impl FlushSignals for PairModel {
    type StateModel = PairState;

    open spec fn model(self) -> PairState {
        PairState {
            kids: self.kid_states(),
            left: self.left.cell as int,
            right: self.right.cell as int,
        }
    }

    open spec fn flushed_model(pre: PairState) -> PairState {
        PairState { kids: flush_kid(flush_kid(pre.kids, pre.left), pre.right), ..pre }
    }

    fn flush_signals(&mut self)
        ensures
            final(self).model() == Self::flushed_model(old(self).model()),
    {
        let ghost pre = self.model();
        if self.left.cell < self.kids.slots.len() {
            self.left.flush_signals(&mut self.kids);
        }
        proof {
            assert(self.kid_states() =~= flush_kid(pre.kids, pre.left));
        }
        let ghost mid = self.model();
        if self.right.cell < self.kids.slots.len() {
            self.right.flush_signals(&mut self.kids);
        }
        proof {
            assert(self.kid_states() =~= flush_kid(mid.kids, pre.right));
        }
    }
}

impl Model for PairModel {
    type Message = PairMsg;

    open spec fn update_spec(pre: PairState, message: PairMsg) -> (
        PairState,
        Option<Seq<PairMsg>>,
    ) {
        pair_step(pre, message)
    }

    fn update(&mut self, message: PairMsg) -> (cmd: Command<PairMsg>)
        ensures
            final(self).model() == Self::update_spec(old(self).model(), message).0,
            cmd.repr() == Self::update_spec(old(self).model(), message).1,
    {
        let ghost pre = self.model();
        match message {
            PairMsg::Left(cm) => {
                if self.left.cell < self.kids.slots.len() {
                    let inner = self.left.update(&mut self.kids, cm);
                    let ghost stepped = counter_step(pre.kids[pre.left], cm);
                    proof {
                        assert(self.kid_states() =~= pre.kids.update(pre.left, stepped.0));
                    }
                    let lift = |c: CounterMsg| -> (r: PairMsg)
                        ensures
                            r == PairMsg::Left(c),
                        {
                            PairMsg::Left(c)
                        };
                    let lifted = inner.map(lift);
                    proof {
                        if stepped.1 is Some {
                            assert(lifted.outputs_or_empty() =~= stepped.1->0.map_values(
                                |c: CounterMsg| PairMsg::Left(c),
                            ));
                        }
                    }
                    lifted
                } else {
                    Command { work: None }
                }
            },
            PairMsg::Right(cm) => {
                if self.right.cell < self.kids.slots.len() {
                    let inner = self.right.update(&mut self.kids, cm);
                    let ghost stepped = counter_step(pre.kids[pre.right], cm);
                    proof {
                        assert(self.kid_states() =~= pre.kids.update(pre.right, stepped.0));
                    }
                    let lift = |c: CounterMsg| -> (r: PairMsg)
                        ensures
                            r == PairMsg::Right(c),
                        {
                            PairMsg::Right(c)
                        };
                    let lifted = inner.map(lift);
                    proof {
                        if stepped.1 is Some {
                            assert(lifted.outputs_or_empty() =~= stepped.1->0.map_values(
                                |c: CounterMsg| PairMsg::Right(c),
                            ));
                        }
                    }
                    lifted
                } else {
                    Command { work: None }
                }
            },
        }
    }
}

} // verus!
