use mvu_core::{Error, ModelGetterChannelClosedError, MvuRuntimeChannelClosedError};
use mvu_core::channel::{Channel, SendError};
use mvu_core::dispatcher::{Dispatcher, DispatcherExt, MessageDispatcher};
use mvu_core::samples::{CounterModel, CounterMsg};

#[test]
fn dispatching_pushes_the_message() {
    let mut queue: Channel<CounterMsg> = Channel::new(4);
    let mut d: MessageDispatcher<CounterModel> = MessageDispatcher::new();
    d.try_dispatch(&mut queue, CounterMsg::Increment).unwrap();
    assert_eq!(queue.len(), 1);
    assert!(matches!(queue.try_recv(), Some(CounterMsg::Increment)));
}

#[test]
fn dispatching_on_a_closed_channel_fails_with_the_typed_condition() {
    let mut queue: Channel<CounterMsg> = Channel::new(4);
    queue.close_receiver();
    let mut d: MessageDispatcher<CounterModel> = MessageDispatcher::new();
    let r = d.try_dispatch(&mut queue, CounterMsg::Increment);
    assert_eq!(r, Err(MvuRuntimeChannelClosedError));
    assert_eq!(queue.len(), 0);
}

#[test]
fn mapped_dispatchers_lift_child_messages() {
    let mut queue: Channel<CounterMsg> = Channel::new(4);
    let root: MessageDispatcher<CounterModel> = MessageDispatcher::new();
    let mut mapped = root.map::<CounterModel, _>(|m: CounterMsg| match m {
        CounterMsg::Increment => CounterMsg::Add(10),
        other => other,
    });
    mapped.try_dispatch(&mut queue, CounterMsg::Increment).unwrap();
    assert!(matches!(queue.try_recv(), Some(CounterMsg::Add(10))));
}

#[test]
fn mapped_dispatchers_compose() {
    let mut queue: Channel<CounterMsg> = Channel::new(4);
    let root: MessageDispatcher<CounterModel> = MessageDispatcher::new();
    let outer = root.map::<CounterModel, _>(|m: CounterMsg| match m {
        CounterMsg::Add(n) => CounterMsg::Add(n + 1),
        other => other,
    });
    let mut inner = outer.map::<CounterModel, _>(|m: CounterMsg| match m {
        CounterMsg::Add(n) => CounterMsg::Add(n * 2),
        other => other,
    });
    inner.try_dispatch(&mut queue, CounterMsg::Add(3)).unwrap();
    // The sub-model's message is lifted innermost first: 3 * 2, then + 1.
    assert!(matches!(queue.try_recv(), Some(CounterMsg::Add(7))));
}

#[test]
fn dispatch_routes_on_a_live_runtime() {
    let mut queue: Channel<CounterMsg> = Channel::new(4);
    let mut d: MessageDispatcher<CounterModel> = MessageDispatcher::new();
    d.dispatch(&mut queue, CounterMsg::Reset);
    assert_eq!(queue.len(), 1);
}

#[test]
fn a_full_channel_refuses_with_the_full_condition() {
    let mut queue: Channel<u64> = Channel::new(1);
    assert_eq!(queue.try_send(1), Ok(()));
    assert_eq!(queue.try_send(2), Err(SendError::Full));
    assert_eq!(queue.len(), 1);
}

#[test]
fn a_channel_is_first_in_first_out() {
    let mut queue: Channel<u64> = Channel::new(3);
    queue.try_send(1).unwrap();
    queue.try_send(2).unwrap();
    assert_eq!(queue.try_recv(), Some(1));
    queue.try_send(3).unwrap();
    assert_eq!(queue.try_recv(), Some(2));
    assert_eq!(queue.try_recv(), Some(3));
    assert_eq!(queue.try_recv(), None);
}

#[test]
fn error_conditions_have_their_messages() {
    assert_eq!(
        MvuRuntimeChannelClosedError.message(),
        "the channel to the mvu runtime is closed"
    );
    assert_eq!(
        ModelGetterChannelClosedError.message(),
        "the channel to the model getter is closed"
    );
    assert_eq!(
        Error::MvuRuntimeChannelClosed.message(),
        "the channel to the mvu runtime is closed"
    );
    assert_eq!(
        Error::ModelGetterChannelClosed.message(),
        "the channel to the model getter is closed"
    );
}

#[test]
fn specific_conditions_fold_into_the_common_error() {
    assert_eq!(Error::from(MvuRuntimeChannelClosedError), Error::MvuRuntimeChannelClosed);
    assert_eq!(Error::from(ModelGetterChannelClosedError), Error::ModelGetterChannelClosed);
}
