//! Commands: composable descriptions of asynchronous work.
//!
//! A command is either empty ("no work") or one pending unit of work that
//! will produce a sequence of output values. The runtime model is
//! denotational: the work's eventual outputs are carried as data, handed in
//! by whichever layer performs the actual asynchronous calls, and every
//! combinator is specified exactly by what it does to that output sequence.
//! Concurrent completion order, where the runtime leaves it open, enters as
//! an explicit arrival order (see [`Command::batch`]), so the combinators'
//! ordering guarantees are theorems rather than conventions.

use vstd::prelude::*;

verus! {

broadcast use vstd::seq_lib::group_seq_properties, vstd::prelude::Seq::group_seq_flatten;

/// A set of concurrent actions to be performed by the host.
///
/// A `Command` may produce a bunch of values of type `T`. `work` is `None`
/// for the command that does nothing, and otherwise holds the sequence of
/// values the pending work will deliver, in delivery order.
pub struct Command<T> {
    pub work: Option<Vec<T>>,
}

impl<T> Command<T> {
    /// The command's outputs: `None` when there is no pending work,
    /// otherwise the sequence of values the work delivers.
    pub open spec fn repr(self) -> Option<Seq<T>> {
        match self.work {
            Option::Some(v) => Option::Some(v@),
            Option::None => Option::None,
        }
    }

    /// The outputs the command delivers; an empty command delivers none.
    pub open spec fn outputs_or_empty(self) -> Seq<T> {
        match self.work {
            Option::Some(v) => v@,
            Option::None => Seq::empty(),
        }
    }

    /// Creates a `Command` that does nothing.
    pub fn none() -> (r: Self)
        ensures
            r.repr() is None,
    {
        Command { work: None }
    }

    /// Creates a new `Command` that instantly produces the given value.
    pub fn done(value: T) -> (r: Self)
        ensures
            r.repr() == Option::Some(seq![value]),
    {
        let mut v = Vec::new();
        v.push(value);
        Command { work: Some(v) }
    }

    /// Creates a new `Command` for one unit of asynchronous work that
    /// resolves to a single value; `value` is what the work resolved to.
    pub fn future(value: T) -> (r: Self)
        ensures
            r.repr() == Option::Some(seq![value]),
    {
        Self::done(value)
    }

    /// Creates a new `Command` for a unit of asynchronous work that delivers
    /// each item of a sequence; `outputs` are the items the sequence
    /// produced, in production order.
    pub fn stream(outputs: Vec<T>) -> (r: Self)
        ensures
            r.repr() == Option::Some(outputs@),
    {
        Command { work: Some(outputs) }
    }

    /// Creates a `Command` that runs one unit of asynchronous work to
    /// completion and maps its resolved value with the given closure.
    pub fn perform<A, FMap: FnOnce(A) -> T>(resolved: A, f: FMap) -> (r: Self)
        requires
            call_requires(f, (resolved,)),
        ensures
            r.repr() is Some,
            r.repr()->Some_0.len() == 1,
            call_ensures(f, (resolved,), r.repr()->Some_0[0]),
    {
        Self::done(f(resolved))
    }

    /// Chains a new `Command` to be performed once the current one finishes
    /// completely: none of `command`'s outputs is delivered before every
    /// output of `self` has been, and an empty `self` behaves as `command`
    /// alone.
    pub fn chain(self, command: Self) -> (r: Self)
        ensures
            r.repr() == chain_repr(self.repr(), command.repr()),
    {
        match self.work {
            None => command,
            Some(mut first) => match command.work {
                None => Command { work: Some(first) },
                Some(mut second) => {
                    first.append(&mut second);
                    Command { work: Some(first) }
                },
            },
        }
    }

    /// Creates a new `Command` that collects all the output of the current
    /// one into a single `Vec`, delivered as one final output.
    pub fn collect(self) -> (r: Command<Vec<T>>)
        ensures
            r.repr() is Some,
            r.repr()->Some_0.len() == 1,
            r.repr()->Some_0[0]@ == self.outputs_or_empty(),
    {
        match self.work {
            None => Command::done(Vec::new()),
            Some(outputs) => Command::done(outputs),
        }
    }

    /// Creates a new `Command` that discards the result of the current one.
    ///
    /// Useful if you only care about the side effects of a `Command`.
    pub fn discard<O>(self) -> (r: Command<O>)
        ensures
            self.repr() is None ==> r.repr() is None,
            self.repr() is Some ==> r.repr() == Option::Some(Seq::<O>::empty()),
    {
        match self.work {
            None => Command { work: None },
            Some(_) => Command { work: Some(Vec::new()) },
        }
    }
}

impl<T> Command<T> {
    /// Maps the output of a `Command` with the given closure.
    pub fn map<O, F: Fn(T) -> O>(self, f: F) -> (r: Command<O>)
        requires
            forall|i: int|
                0 <= i < self.outputs_or_empty().len() ==> call_requires(
                    f,
                    (self.outputs_or_empty()[i],),
                ),
        ensures
            self.repr() is None ==> r.repr() is None,
            self.repr() is Some ==> r.repr() is Some,
            r.outputs_or_empty().len() == self.outputs_or_empty().len(),
            forall|i: int|
                0 <= i < self.outputs_or_empty().len() ==> call_ensures(
                    f,
                    (self.outputs_or_empty()[i],),
                    #[trigger] r.outputs_or_empty()[i],
                ),
    {
        match self.work {
            None => Command { work: None },
            Some(v) => {
                let ghost orig = v@;
                proof {
                    assert(orig =~= self.outputs_or_empty());
                }
                let mut rest = v;
                let mut out: Vec<O> = Vec::new();
                while rest.len() > 0
                    invariant
                        orig == self.outputs_or_empty(),
                        out@.len() + rest@.len() == orig.len(),
                        rest@ =~= orig.skip(out@.len() as int),
                        forall|i: int|
                            0 <= i < orig.len() ==> call_requires(f, (orig[i],)),
                        forall|i: int|
                            0 <= i < out@.len() ==> call_ensures(f, (orig[i],), #[trigger] out@[i]),
                    decreases rest.len(),
                {
                    let x = rest.remove(0);
                    proof {
                        assert(x == orig[out@.len() as int]);
                    }
                    out.push(f(x));
                    proof {
                        assert(rest@ =~= orig.skip(out@.len() as int));
                    }
                }
                Command { work: Some(out) }
            },
        }
    }

    /// Performs a new `Command` for every output of the current `Command`
    /// using the given closure, and flattens every resulting command's
    /// outputs into the result, in source order.
    pub fn then<O, F: Fn(T) -> Command<O>>(self, f: F) -> (r: Command<O>)
        requires
            forall|i: int|
                0 <= i < self.outputs_or_empty().len() ==> call_requires(
                    f,
                    (self.outputs_or_empty()[i],),
                ),
        ensures
            self.repr() is None ==> r.repr() is None,
            self.repr() is Some ==> r.repr() is Some && exists|cs: Seq<Command<O>>|
                {
                    &&& cs.len() == self.outputs_or_empty().len()
                    &&& forall|i: int|
                        0 <= i < cs.len() ==> call_ensures(
                            f,
                            (self.outputs_or_empty()[i],),
                            #[trigger] cs[i],
                        )
                    &&& r.outputs_or_empty() == flat_outputs(cs)
                },
    {
        match self.work {
            None => Command { work: None },
            Some(v) => {
                let ghost orig = v@;
                proof {
                    assert(orig =~= self.outputs_or_empty());
                }
                let ghost mut cs: Seq<Command<O>> = Seq::empty();
                let mut rest = v;
                let mut out: Vec<O> = Vec::new();
                proof {
                    assert(cs.map_values(|cm: Command<O>| cm.outputs_or_empty())
                        =~= Seq::<Seq<O>>::empty());
                    assert(out@ =~= flat_outputs(cs));
                }
                while rest.len() > 0
                    invariant
                        orig == self.outputs_or_empty(),
                        cs.len() + rest@.len() == orig.len(),
                        rest@ =~= orig.skip(cs.len() as int),
                        forall|i: int|
                            0 <= i < orig.len() ==> call_requires(f, (orig[i],)),
                        forall|i: int|
                            0 <= i < cs.len() ==> call_ensures(f, (orig[i],), #[trigger] cs[i]),
                        out@ == flat_outputs(cs),
                    decreases rest.len(),
                {
                    let x = rest.remove(0);
                    proof {
                        assert(x == orig[cs.len() as int]);
                    }
                    let c = f(x);
                    let ghost gc = c;
                    proof {
                        lemma_flat_outputs_push(cs, gc);
                        cs = cs.push(gc);
                    }
                    match c.work {
                        Some(mut w) => out.append(&mut w),
                        None => {},
                    }
                    proof {
                        assert(out@ =~= flat_outputs(cs));
                        assert(rest@ =~= orig.skip(cs.len() as int));
                    }
                }
                Command { work: Some(out) }
            },
        }
    }
}

/// The outputs of a list of commands, concatenated in list order.
pub open spec fn flat_outputs<T>(cs: Seq<Command<T>>) -> Seq<T> {
    cs.map_values(|c: Command<T>| c.outputs_or_empty()).flatten()
}

/// One more command appends its outputs at the end of the flattening.
proof fn lemma_flat_outputs_push<T>(cs: Seq<Command<T>>, c: Command<T>)
    ensures
        flat_outputs(cs.push(c)) == flat_outputs(cs) + c.outputs_or_empty(),
{
    assert(cs.push(c).map_values(|cm: Command<T>| cm.outputs_or_empty()) =~= cs.map_values(
        |cm: Command<T>| cm.outputs_or_empty(),
    ).push(c.outputs_or_empty()));
}

impl<T> Command<T> {
    /// Creates a new `Command` for a unit of asynchronous work that produced
    /// the given items, mapping each with the given closure.
    pub fn run<A, FMap: Fn(A) -> T>(produced: Vec<A>, f: FMap) -> (r: Self)
        requires
            forall|i: int| 0 <= i < produced@.len() ==> call_requires(f, (produced@[i],)),
        ensures
            r.repr() is Some,
            r.outputs_or_empty().len() == produced@.len(),
            forall|i: int|
                0 <= i < produced@.len() ==> call_ensures(
                    f,
                    (produced@[i],),
                    #[trigger] r.outputs_or_empty()[i],
                ),
    {
        Command::<A>::stream(produced).map(f)
    }
}

/// How one output of the inner command turns into one follow-up command:
/// a present value is handed to the closure, an absent one contributes no
/// work.
pub open spec fn option_step<T, A, F: Fn(T) -> Command<A>>(
    f: F,
    x: Option<T>,
    c: Command<A>,
) -> bool {
    match x {
        Option::Some(t) => call_ensures(f, (t,), c),
        Option::None => c.repr() is None,
    }
}

impl<T> Command<Option<T>> {
    /// Executes a new `Command` after this one, only when it produces a
    /// `Some` value; the value is provided to the closure to create the
    /// subsequent `Command`.
    pub fn and_then<A, F: Fn(T) -> Command<A>>(self, f: F) -> (r: Command<A>)
        requires
            forall|i: int|
                0 <= i < self.outputs_or_empty().len() && self.outputs_or_empty()[i] is Some
                    ==> call_requires(f, (self.outputs_or_empty()[i]->0,)),
        ensures
            self.repr() is None ==> r.repr() is None,
            self.repr() is Some ==> r.repr() is Some && exists|cs: Seq<Command<A>>|
                {
                    &&& cs.len() == self.outputs_or_empty().len()
                    &&& forall|i: int|
                        0 <= i < cs.len() ==> option_step(
                            f,
                            self.outputs_or_empty()[i],
                            #[trigger] cs[i],
                        )
                    &&& r.outputs_or_empty() == flat_outputs(cs)
                },
    {
        match self.work {
            None => Command { work: None },
            Some(v) => {
                let ghost orig = v@;
                proof {
                    assert(orig =~= self.outputs_or_empty());
                }
                let ghost mut cs: Seq<Command<A>> = Seq::empty();
                let mut rest = v;
                let mut out: Vec<A> = Vec::new();
                proof {
                    assert(cs.map_values(|cm: Command<A>| cm.outputs_or_empty())
                        =~= Seq::<Seq<A>>::empty());
                    assert(out@ =~= flat_outputs(cs));
                }
                while rest.len() > 0
                    invariant
                        orig == self.outputs_or_empty(),
                        cs.len() + rest@.len() == orig.len(),
                        rest@ =~= orig.skip(cs.len() as int),
                        forall|i: int|
                            0 <= i < orig.len() && orig[i] is Some ==> call_requires(
                                f,
                                (orig[i]->0,),
                            ),
                        forall|i: int|
                            0 <= i < cs.len() ==> option_step(f, orig[i], #[trigger] cs[i]),
                        out@ == flat_outputs(cs),
                    decreases rest.len(),
                {
                    let x = rest.remove(0);
                    proof {
                        assert(x == orig[cs.len() as int]);
                    }
                    let c = match x {
                        Some(t) => f(t),
                        None => Command { work: None },
                    };
                    let ghost gc = c;
                    proof {
                        lemma_flat_outputs_push(cs, gc);
                        cs = cs.push(gc);
                    }
                    match c.work {
                        Some(mut w) => out.append(&mut w),
                        None => {},
                    }
                    proof {
                        assert(out@ =~= flat_outputs(cs));
                        assert(rest@ =~= orig.skip(cs.len() as int));
                    }
                }
                Command { work: Some(out) }
            },
        }
    }
}

/// How one output of the inner command turns into one follow-up command: a
/// success is handed to the closure, a failure flows through unchanged as
/// one output.
pub open spec fn result_step<T, E, A, F: Fn(T) -> Command<Result<A, E>>>(
    f: F,
    x: Result<T, E>,
    c: Command<Result<A, E>>,
) -> bool {
    match x {
        Result::Ok(t) => call_ensures(f, (t,), c),
        Result::Err(e) => c.repr() == Option::Some(seq![Result::<A, E>::Err(e)]),
    }
}

/// How mapping the error side rewrites one output: a success is kept as it
/// is, a failure is replaced by the closure's image of it.
pub open spec fn map_err_step<T, E, E2, F: Fn(E) -> E2>(
    f: F,
    x: Result<T, E>,
    y: Result<T, E2>,
) -> bool {
    match x {
        Result::Ok(t) => y == Result::<T, E2>::Ok(t),
        Result::Err(e) => y is Err && call_ensures(f, (e,), y->Err_0),
    }
}

impl<T, E> Command<Result<T, E>> {
    /// Executes a new `Command` after this one, only when it succeeds with
    /// an `Ok` value; a failure is delivered unchanged.
    pub fn and_then<A, F: Fn(T) -> Command<Result<A, E>>>(self, f: F) -> (r: Command<
        Result<A, E>,
    >)
        requires
            forall|i: int|
                0 <= i < self.outputs_or_empty().len() && self.outputs_or_empty()[i] is Ok
                    ==> call_requires(f, (self.outputs_or_empty()[i]->Ok_0,)),
        ensures
            self.repr() is None ==> r.repr() is None,
            self.repr() is Some ==> r.repr() is Some && exists|cs: Seq<Command<Result<A, E>>>|
                {
                    &&& cs.len() == self.outputs_or_empty().len()
                    &&& forall|i: int|
                        0 <= i < cs.len() ==> result_step(
                            f,
                            self.outputs_or_empty()[i],
                            #[trigger] cs[i],
                        )
                    &&& r.outputs_or_empty() == flat_outputs(cs)
                },
    {
        match self.work {
            None => Command { work: None },
            Some(v) => {
                let ghost orig = v@;
                proof {
                    assert(orig =~= self.outputs_or_empty());
                }
                let ghost mut cs: Seq<Command<Result<A, E>>> = Seq::empty();
                let mut rest = v;
                let mut out: Vec<Result<A, E>> = Vec::new();
                proof {
                    assert(cs.map_values(|cm: Command<Result<A, E>>| cm.outputs_or_empty())
                        =~= Seq::<Seq<Result<A, E>>>::empty());
                    assert(out@ =~= flat_outputs(cs));
                }
                while rest.len() > 0
                    invariant
                        orig == self.outputs_or_empty(),
                        cs.len() + rest@.len() == orig.len(),
                        rest@ =~= orig.skip(cs.len() as int),
                        forall|i: int|
                            0 <= i < orig.len() && orig[i] is Ok ==> call_requires(
                                f,
                                (orig[i]->Ok_0,),
                            ),
                        forall|i: int|
                            0 <= i < cs.len() ==> result_step(f, orig[i], #[trigger] cs[i]),
                        out@ == flat_outputs(cs),
                    decreases rest.len(),
                {
                    let x = rest.remove(0);
                    proof {
                        assert(x == orig[cs.len() as int]);
                    }
                    let c = match x {
                        Ok(t) => f(t),
                        Err(e) => Command::done(Err(e)),
                    };
                    let ghost gc = c;
                    proof {
                        lemma_flat_outputs_push(cs, gc);
                        cs = cs.push(gc);
                    }
                    match c.work {
                        Some(mut w) => out.append(&mut w),
                        None => {},
                    }
                    proof {
                        assert(out@ =~= flat_outputs(cs));
                        assert(rest@ =~= orig.skip(cs.len() as int));
                    }
                }
                Command { work: Some(out) }
            },
        }
    }

    /// Maps the error type of this `Command` to a different one using the
    /// given function; successes flow through unchanged.
    pub fn map_err<E2, F: Fn(E) -> E2>(self, f: F) -> (r: Command<Result<T, E2>>)
        requires
            forall|i: int|
                0 <= i < self.outputs_or_empty().len() && self.outputs_or_empty()[i] is Err
                    ==> call_requires(f, (self.outputs_or_empty()[i]->Err_0,)),
        ensures
            self.repr() is None ==> r.repr() is None,
            self.repr() is Some ==> r.repr() is Some,
            r.outputs_or_empty().len() == self.outputs_or_empty().len(),
            forall|i: int|
                0 <= i < self.outputs_or_empty().len() ==> map_err_step(
                    f,
                    self.outputs_or_empty()[i],
                    #[trigger] r.outputs_or_empty()[i],
                ),
    {
        match self.work {
            None => Command { work: None },
            Some(v) => {
                let ghost orig = v@;
                proof {
                    assert(orig =~= self.outputs_or_empty());
                }
                let mut rest = v;
                let mut out: Vec<Result<T, E2>> = Vec::new();
                while rest.len() > 0
                    invariant
                        orig == self.outputs_or_empty(),
                        out@.len() + rest@.len() == orig.len(),
                        rest@ =~= orig.skip(out@.len() as int),
                        forall|i: int|
                            0 <= i < orig.len() && orig[i] is Err ==> call_requires(
                                f,
                                (orig[i]->Err_0,),
                            ),
                        forall|i: int|
                            0 <= i < out@.len() ==> map_err_step(f, orig[i], #[trigger] out@[i]),
                    decreases rest.len(),
                {
                    let x = rest.remove(0);
                    proof {
                        assert(x == orig[out@.len() as int]);
                    }
                    match x {
                        Ok(t) => out.push(Ok(t)),
                        Err(e) => out.push(Err(f(e))),
                    }
                    proof {
                        assert(rest@ =~= orig.skip(out@.len() as int));
                    }
                }
                Command { work: Some(out) }
            },
        }
    }
}

/// What chaining does to the two commands' outputs: an empty first command
/// behaves as the second alone, and otherwise the first's outputs all come
/// before the second's.
pub open spec fn chain_repr<T>(a: Option<Seq<T>>, b: Option<Seq<T>>) -> Option<Seq<T>> {
    match (a, b) {
        (Option::None, _) => b,
        (Option::Some(_), Option::None) => a,
        (Option::Some(x), Option::Some(y)) => Option::Some(x + y),
    }
}

/// Hands out a command's representation: `None` for no work, otherwise the
/// outputs of its pending unit of work.
pub fn into_repr<T>(command: Command<T>) -> (r: Option<Vec<T>>)
    ensures
        command.repr() is None <==> r is None,
        command.repr() is Some ==> r is Some && r->0@ == command.repr()->Some_0,
{
    command.work
}

impl<T> Default for Command<T> {
    /// The default command does nothing.
    fn default() -> (r: Self)
        ensures
            r.repr() is None,
    {
        Self::none()
    }
}

/// The views of a vector of vectors.
pub open spec fn seq_views<T>(s: Seq<Vec<T>>) -> Seq<Seq<T>> {
    s.map_values(|v: Vec<T>| v@)
}

/// The output sequences of a list of commands, an empty command
/// contributing an empty sequence.
pub open spec fn batch_sources<T>(cmds: Seq<Command<T>>) -> Seq<Seq<T>> {
    cmds.map_values(|c: Command<T>| c.outputs_or_empty())
}

/// The sequence a concurrent merge of `srcs` delivers under a given arrival
/// order: each entry of `order` names the source whose next undelivered
/// value arrives next (entries naming an exhausted or unknown source stand
/// for arrivals that cannot happen and are passed over), and whatever the
/// order leaves undelivered arrives afterwards, source by source.
pub open spec fn merge_spec<T>(srcs: Seq<Seq<T>>, order: Seq<usize>) -> Seq<T>
    decreases order.len(),
{
    if order.len() == 0 {
        srcs.flatten()
    } else {
        let i = order.first() as int;
        if 0 <= i < srcs.len() && srcs[i].len() > 0 {
            seq![srcs[i].first()] + merge_spec(
                srcs.update(i, srcs[i].drop_first()),
                order.drop_first(),
            )
        } else {
            merge_spec(srcs, order.drop_first())
        }
    }
}

/// Moves every value out of `sources` into one vector, source by source.
fn flatten_all<T>(sources: Vec<Vec<T>>) -> (r: Vec<T>)
    ensures
        r@ == seq_views(sources@).flatten(),
{
    let ghost all = sources@;
    let mut rest = sources;
    let mut out: Vec<T> = Vec::new();
    while rest.len() > 0
        invariant
            out@ + seq_views(rest@).flatten() == seq_views(all).flatten(),
        decreases rest.len(),
    {
        let ghost prev = rest@;
        let mut v = rest.remove(0);
        proof {
            assert(seq_views(prev).drop_first() =~= seq_views(prev.drop_first()));
            assert(seq_views(prev).first() == v@);
            assert(seq_views(prev).flatten() == v@ + seq_views(rest@).flatten());
        }
        out.append(&mut v);
    }
    proof {
        assert(seq_views(rest@).len() == 0);
        assert(seq_views(rest@).flatten() =~= Seq::<T>::empty());
        assert(out@ =~= seq_views(all).flatten());
    }
    out
}

/// Delivers every value of `sources` in the given arrival order,
/// implementing [`merge_spec`].
fn merge_by_order<T>(sources: Vec<Vec<T>>, order: &Vec<usize>, from: usize) -> (r: Vec<T>)
    requires
        from <= order@.len(),
    ensures
        r@ == merge_spec(seq_views(sources@), order@.skip(from as int)),
    decreases order@.len() - from,
{
    let ghost orig = sources@;
    if from == order.len() {
        proof {
            assert(order@.skip(from as int).len() == 0);
        }
        flatten_all(sources)
    } else {
        proof {
            assert(order@.skip(from as int).first() == order@[from as int]);
            assert(order@.skip(from as int).drop_first() =~= order@.skip(from as int + 1));
        }
        let i = order[from];
        let mut sources = sources;
        if i < sources.len() && sources[i].len() > 0 {
            let mut s = sources.remove(i);
            let x = s.remove(0);
            sources.insert(i, s);
            proof {
                assert(sources@ =~= orig.update(i as int, sources@[i as int]));
                assert(seq_views(sources@) =~= seq_views(orig).update(
                    i as int,
                    seq_views(orig)[i as int].drop_first(),
                ));
            }
            let mut rest = merge_by_order(sources, order, from + 1);
            rest.insert(0, x);
            proof {
                assert(rest@ =~= seq![x] + merge_spec(
                    seq_views(orig).update(i as int, seq_views(orig)[i as int].drop_first()),
                    order@.skip(from as int).drop_first(),
                ));
            }
            rest
        } else {
            merge_by_order(sources, order, from + 1)
        }
    }
}

impl<T> Command<T> {
    /// Combines the given commands and produces a single `Command` that runs
    /// all of them in parallel: each command's own outputs keep their order,
    /// while the relative order across commands is fixed only by `arrival`,
    /// the order in which the concurrent units actually delivered
    /// (see [`merge_spec`]). The result is a pending unit of work even when
    /// every given command is empty.
    pub fn batch(commands: Vec<Command<T>>, arrival: &Vec<usize>) -> (r: Self)
        ensures
            r.repr() == Option::Some(merge_spec(batch_sources(commands@), arrival@)),
    {
        let ghost cmds = commands@;
        let mut rest = commands;
        let mut sources: Vec<Vec<T>> = Vec::new();
        while rest.len() > 0
            invariant
                seq_views(sources@) + batch_sources(rest@) =~= batch_sources(cmds),
            decreases rest.len(),
        {
            let ghost prev = rest@;
            let c = rest.remove(0);
            match c.work {
                Some(v) => sources.push(v),
                None => sources.push(Vec::new()),
            }
            proof {
                assert(batch_sources(prev).drop_first() =~= batch_sources(prev.drop_first()));
                assert(seq_views(sources@) =~= seq_views(sources@.drop_last()).push(
                    c.outputs_or_empty(),
                ));
                assert(seq_views(sources@) + batch_sources(rest@) =~= batch_sources(cmds));
            }
        }
        proof {
            assert(batch_sources(rest@).len() == 0);
            assert(seq_views(sources@) =~= batch_sources(cmds));
        }
        let out = merge_by_order(sources, arrival, 0);
        proof {
            assert(arrival@.skip(0) =~= arrival@);
        }
        Command { work: Some(out) }
    }
}

/// Whether `r` interleaves `a` and `b`: every value of both appears in `r`,
/// each sequence's internal order is preserved, and nothing else appears.
pub open spec fn is_interleaving<T>(r: Seq<T>, a: Seq<T>, b: Seq<T>) -> bool
    decreases r.len(),
{
    if r.len() == 0 {
        a.len() == 0 && b.len() == 0
    } else {
        ||| (a.len() > 0 && r.first() == a.first() && is_interleaving(
            r.drop_first(),
            a.drop_first(),
            b,
        ))
        ||| (b.len() > 0 && r.first() == b.first() && is_interleaving(
            r.drop_first(),
            a,
            b.drop_first(),
        ))
    }
}

/// A sequence interleaves the empty sequence and itself.
proof fn lemma_empty_interleaving<T>(b: Seq<T>)
    ensures
        is_interleaving(b, Seq::empty(), b),
    decreases b.len(),
{
    if b.len() > 0 {
        lemma_empty_interleaving::<T>(b.drop_first());
    }
}

/// Plain concatenation is one interleaving.
proof fn lemma_concat_interleaving<T>(a: Seq<T>, b: Seq<T>)
    ensures
        is_interleaving(a + b, a, b),
    decreases a.len(),
{
    if a.len() == 0 {
        assert(a + b =~= b);
        lemma_empty_interleaving(b);
    } else {
        lemma_concat_interleaving(a.drop_first(), b);
        assert((a + b).first() == a.first());
        assert((a + b).drop_first() =~= a.drop_first() + b);
    }
}

/// Flattening a two-source list concatenates the two sources.
proof fn lemma_flatten_two<T>(a: Seq<T>, b: Seq<T>)
    ensures
        seq![a, b].flatten() == a + b,
{
    assert(seq![a, b].drop_first() =~= seq![b]);
    assert(seq![b].drop_first() =~= Seq::<Seq<T>>::empty());
    assert(Seq::<Seq<T>>::empty().flatten() =~= Seq::<T>::empty());
    assert(seq![b].flatten() =~= b);
    assert(seq![a, b].flatten() =~= a + b);
}

/// Merging two sources delivers an interleaving of the two, whatever the
/// arrival order.
proof fn lemma_merge_two_interleaving<T>(a: Seq<T>, b: Seq<T>, order: Seq<usize>)
    ensures
        is_interleaving(merge_spec(seq![a, b], order), a, b),
    decreases order.len(),
{
    if order.len() == 0 {
        lemma_flatten_two(a, b);
        lemma_concat_interleaving(a, b);
    } else {
        let i = order.first() as int;
        if i == 0 && a.len() > 0 {
            assert(seq![a, b].update(0, a.drop_first()) =~= seq![a.drop_first(), b]);
            lemma_merge_two_interleaving(a.drop_first(), b, order.drop_first());
            let m = merge_spec(seq![a.drop_first(), b], order.drop_first());
            assert(merge_spec(seq![a, b], order) == seq![a.first()] + m);
            assert((seq![a.first()] + m).first() == a.first());
            assert((seq![a.first()] + m).drop_first() =~= m);
        } else if i == 1 && b.len() > 0 {
            assert(seq![a, b].update(1, b.drop_first()) =~= seq![a, b.drop_first()]);
            lemma_merge_two_interleaving(a, b.drop_first(), order.drop_first());
            let m = merge_spec(seq![a, b.drop_first()], order.drop_first());
            assert(merge_spec(seq![a, b], order) == seq![b.first()] + m);
            assert((seq![b.first()] + m).first() == b.first());
            assert((seq![b.first()] + m).drop_first() =~= m);
        } else {
            lemma_merge_two_interleaving(a, b, order.drop_first());
        }
    }
}

/// Mapping a function over an interleaving gives an interleaving of the
/// mapped sequences.
proof fn lemma_interleaving_map<T, O>(r: Seq<T>, a: Seq<T>, b: Seq<T>, f: spec_fn(T) -> O)
    requires
        is_interleaving(r, a, b),
    ensures
        is_interleaving(r.map_values(f), a.map_values(f), b.map_values(f)),
    decreases r.len(),
{
    if r.len() == 0 {
    } else if a.len() > 0 && r.first() == a.first() && is_interleaving(
        r.drop_first(),
        a.drop_first(),
        b,
    ) {
        lemma_interleaving_map(r.drop_first(), a.drop_first(), b, f);
        assert(r.map_values(f).drop_first() =~= r.drop_first().map_values(f));
        assert(a.map_values(f).drop_first() =~= a.drop_first().map_values(f));
        assert(r.map_values(f).first() == a.map_values(f).first());
    } else {
        lemma_interleaving_map(r.drop_first(), a, b.drop_first(), f);
        assert(r.map_values(f).drop_first() =~= r.drop_first().map_values(f));
        assert(b.map_values(f).drop_first() =~= b.drop_first().map_values(f));
        assert(r.map_values(f).first() == b.map_values(f).first());
    }
}

/// Running two commands in parallel and mapping every output delivers the
/// mapped outputs of both commands, each command's internal order
/// preserved, with no relative order across the two beyond what the
/// arrival order itself fixes.
pub proof fn lemma_batch_map_interleaving<T, O>(
    a: Command<T>,
    b: Command<T>,
    arrival: Seq<usize>,
    f: spec_fn(T) -> O,
)
    ensures
        is_interleaving(
            merge_spec(batch_sources(seq![a, b]), arrival).map_values(f),
            a.outputs_or_empty().map_values(f),
            b.outputs_or_empty().map_values(f),
        ),
{
    assert(batch_sources(seq![a, b]) =~= seq![a.outputs_or_empty(), b.outputs_or_empty()]);
    lemma_merge_two_interleaving(a.outputs_or_empty(), b.outputs_or_empty(), arrival);
    lemma_interleaving_map(
        merge_spec(batch_sources(seq![a, b]), arrival),
        a.outputs_or_empty(),
        b.outputs_or_empty(),
        f,
    );
}

/// Every interleaving of two sources is delivered under some arrival
/// order: the merge requires no relative order between the two.
pub proof fn lemma_interleaving_realizable<T>(r: Seq<T>, a: Seq<T>, b: Seq<T>)
    requires
        is_interleaving(r, a, b),
    ensures
        exists|order: Seq<usize>| merge_spec(seq![a, b], order) == r,
    decreases r.len(),
{
    if r.len() == 0 {
        let order = Seq::<usize>::empty();
        lemma_flatten_two(a, b);
        assert(merge_spec(seq![a, b], order) =~= r);
    } else if a.len() > 0 && r.first() == a.first() && is_interleaving(
        r.drop_first(),
        a.drop_first(),
        b,
    ) {
        lemma_interleaving_realizable(r.drop_first(), a.drop_first(), b);
        let sub = choose|sub: Seq<usize>|
            merge_spec(seq![a.drop_first(), b], sub) == r.drop_first();
        let order = seq![0usize] + sub;
        assert(order.first() == 0usize);
        assert(order.drop_first() =~= sub);
        assert(seq![a, b].update(0, a.drop_first()) =~= seq![a.drop_first(), b]);
        assert(merge_spec(seq![a, b], order) =~= r);
    } else {
        lemma_interleaving_realizable(r.drop_first(), a, b.drop_first());
        let sub = choose|sub: Seq<usize>|
            merge_spec(seq![a, b.drop_first()], sub) == r.drop_first();
        let order = seq![1usize] + sub;
        assert(order.first() == 1usize);
        assert(order.drop_first() =~= sub);
        assert(seq![a, b].update(1, b.drop_first()) =~= seq![a, b.drop_first()]);
        assert(merge_spec(seq![a, b], order) =~= r);
    }
}

/// Collecting the command that instantly produces `v` yields, run to
/// completion, a single final output: the one-element list holding exactly
/// `v`. The premises are what [`Command::done`] and [`Command::collect`]
/// ensure of their results.
pub proof fn lemma_done_collect<T>(c: Command<T>, collected: Command<Vec<T>>, v: T)
    requires
        c.repr() == Option::Some(seq![v]),
        collected.repr() is Some,
        collected.repr()->Some_0.len() == 1,
        collected.repr()->Some_0[0]@ == c.outputs_or_empty(),
    ensures
        collected.outputs_or_empty().len() == 1,
        collected.outputs_or_empty()[0]@ == seq![v],
{
}

/// Chaining never delivers an output of the second command before every
/// output of the first has been delivered: the chained outputs are exactly
/// the first command's followed by the second's, and an empty first
/// command behaves as the second alone. The premise is what
/// [`Command::chain`] ensures of its result.
pub proof fn lemma_chain_ordering<T>(a: Command<T>, b: Command<T>, r: Command<T>)
    requires
        r.repr() == chain_repr(a.repr(), b.repr()),
    ensures
        r.outputs_or_empty() == a.outputs_or_empty() + b.outputs_or_empty(),
{
    if a.repr() is None {
        assert(r.outputs_or_empty() =~= a.outputs_or_empty() + b.outputs_or_empty());
    } else if b.repr() is None {
        assert(r.outputs_or_empty() =~= a.outputs_or_empty() + b.outputs_or_empty());
    }
}

/// Creates a new `Command` for work that is handed a one-shot sender:
/// the value the work itself returns and the value later fed to the sender,
/// if any, are both delivered, in that order.
pub fn oneshot<T>(returned: T, sent: Option<T>) -> (r: Command<T>)
    ensures
        r.repr() is Some,
        sent is None ==> r.repr()->Some_0 == seq![returned],
        sent is Some ==> r.repr()->Some_0 == seq![returned, sent->0],
{
    let mut v = Vec::new();
    v.push(returned);
    match sent {
        None => {},
        Some(x) => v.push(x),
    }
    Command { work: Some(v) }
}

/// Creates a new `Command` for work that is handed a buffered sender: the
/// value the work itself returns is delivered first, then every value fed
/// to the sender, in send order.
pub fn channel<T>(returned: T, sent: Vec<T>) -> (r: Command<T>)
    ensures
        r.repr() is Some,
        r.repr()->Some_0 == seq![returned] + sent@,
{
    let mut v = Vec::new();
    v.push(returned);
    let mut rest = sent;
    v.append(&mut rest);
    assert(v@ =~= seq![returned] + sent@);
    Command { work: Some(v) }
}

} // verus!
