use mvu_core::handle::{AppHandle, Getter, Updater};
use mvu_core::ModelGetterChannelClosedError;
use mvu_core::channel::Channel;
use mvu_core::model::{AdHocApp, Cells, Model, ModelBase};
use mvu_core::samples::{CountQuery, CounterModel, CounterMsg, PairModel, PairMsg};

#[test]
fn zoomed_handles_share_the_child_not_a_copy() {
    let mut kids: Cells<CounterModel> = Cells::new();
    let shared = ModelBase::new(&mut kids, CounterModel::new());
    let pair = PairModel { kids, left: shared, right: shared };
    let mut parents: Cells<PairModel> = Cells::new();
    let p1 = ModelBase::new(&mut parents, pair);
    let p2 = p1.clone();

    // Two handles derived from two clones of the same parent.
    let z1 = p1.zoom(&parents, |p: &PairModel| p.left);
    let z2 = p2.zoom(&parents, |p: &PairModel| p.right);
    assert_eq!(z1.cell, z2.cell);

    // Mutate the child through one route...
    let _ = p1.update(&mut parents, PairMsg::Left(CounterMsg::Add(41)));
    let _ = p1.update(&mut parents, PairMsg::Left(CounterMsg::Increment));

    // ...and the other zoomed handle observes it: shared backing storage,
    // not a copy.
    let parent = p2.read(&parents);
    assert_eq!(z2.read(&parent.kids).count, 42);
    assert_eq!(z2.get(&parent.kids, CountQuery), 42);
}

#[test]
fn clones_of_a_handle_name_the_same_slot() {
    let mut cells: Cells<CounterModel> = Cells::new();
    let h1 = ModelBase::new(&mut cells, CounterModel::new());
    let h2 = h1.clone();
    h1.set(&mut cells, CounterModel { count: 9, ..CounterModel::new() });
    assert_eq!(h2.read(&cells).count, 9);
}

#[test]
fn distinct_slots_do_not_interfere() {
    let mut cells: Cells<CounterModel> = Cells::new();
    let h1 = ModelBase::new(&mut cells, CounterModel::new());
    let h2 = ModelBase::new(&mut cells, CounterModel::new());
    let _ = h1.update(&mut cells, CounterMsg::Add(5));
    assert_eq!(h1.read(&cells).count, 5);
    assert_eq!(h2.read(&cells).count, 0);
}

#[test]
fn readers_observe_without_mutating() {
    let mut cells: Cells<CounterModel> = Cells::new();
    let h = ModelBase::new(&mut cells, CounterModel::new());
    let reader = h.reader();
    let _ = h.update(&mut cells, CounterMsg::Add(3));
    assert_eq!(reader.read(&cells).count, 3);
    assert_eq!(reader.get(&cells, CountQuery), 3);
}

#[test]
fn reader_zoom_follows_the_lens() {
    let mut kids: Cells<CounterModel> = Cells::new();
    let child = ModelBase::new(&mut kids, CounterModel::new());
    let mut parents: Cells<PairModel> = Cells::new();
    let parent = ModelBase::new(&mut parents, PairModel { kids, left: child, right: child });
    let zoomed = parent.reader().zoom(&parents, |p: &PairModel| p.left);
    let _ = parent.update(&mut parents, PairMsg::Right(CounterMsg::Add(8)));
    assert_eq!(zoomed.read(&parent.read(&parents).kids).count, 8);
}

#[test]
fn a_parent_routes_messages_and_lifts_commands() {
    let mut kids: Cells<CounterModel> = Cells::new();
    let child = ModelBase::new(&mut kids, CounterModel::new());
    let mut pair = PairModel { kids, left: child, right: child };
    let cmd = pair.update(PairMsg::Left(CounterMsg::Emit(3)));
    let outputs = mvu_core::command::into_repr(cmd).expect("an emitting child emits");
    assert_eq!(outputs, vec![PairMsg::Left(CounterMsg::Add(3))]);
    let quiet = pair.update(PairMsg::Right(CounterMsg::Increment));
    assert!(mvu_core::command::into_repr(quiet).is_none());
    assert_eq!(pair.left.read(&pair.kids).count, 1);
}

#[test]
fn getter_answers_from_the_shared_state() {
    let mut cells: Cells<CounterModel> = Cells::new();
    let h = ModelBase::new(&mut cells, CounterModel::new());
    let getter = Getter::new(h);
    let _ = h.update(&mut cells, CounterMsg::Add(6));
    assert_eq!(getter.try_get(&cells, CountQuery), Ok(6));
}

#[test]
fn getter_fails_with_the_typed_condition_once_closed() {
    let mut cells: Cells<CounterModel> = Cells::new();
    let h = ModelBase::new(&mut cells, CounterModel::new());
    let mut getter = Getter::new(h);
    getter.close();
    assert_eq!(getter.try_get(&cells, CountQuery), Err(ModelGetterChannelClosedError));
}

#[test]
fn updater_pushes_into_the_channel() {
    let mut queue: Channel<CounterMsg> = Channel::new(4);
    let updater: Updater<CounterModel> = Updater::new();
    updater.send(&mut queue, CounterMsg::Increment).unwrap();
    assert_eq!(queue.len(), 1);
}

#[test]
fn app_handle_hands_out_its_wrappers() {
    let updater: Updater<CounterModel> = Updater::new();
    let mut cells: Cells<CounterModel> = Cells::new();
    let h = ModelBase::new(&mut cells, CounterModel::new());
    let handle: AppHandle<AdHocApp<CounterModel>, Updater<CounterModel>, ModelBase<CounterModel>> =
        AppHandle::new(updater, h);
    let g = handle.getter();
    assert_eq!(g.read(&cells).count, 0);
    let u = handle.updater();
    let mut queue: Channel<CounterMsg> = Channel::new(4);
    u.send(&mut queue, CounterMsg::Reset).unwrap();
    assert_eq!(queue.len(), 1);
}
