use mvu_core::MvuRuntimeChannelClosedError;
use mvu_core::command::into_repr;
use mvu_core::host::{DEFAULT_CHANNEL_BUFFER_SIZE, Host, HostBuilder, HostStep};
use mvu_core::model::{AdHocApp, Cells, Model, ModelBase};
use mvu_core::samples::{CounterModel, CounterMsg, MessageCounter, PairModel, PairMsg};
use mvu_core::signal::FlushSignals;

type CounterHost = Host<AdHocApp<CounterModel>, MessageCounter, u64>;
type CounterHostBuilder = HostBuilder<AdHocApp<CounterModel>, MessageCounter, u64>;

#[test]
fn states_match_folding_update_outside_the_runtime() {
    let messages = vec![
        CounterMsg::Increment,
        CounterMsg::Add(5),
        CounterMsg::Increment,
        CounterMsg::Reset,
        CounterMsg::Add(41),
        CounterMsg::Increment,
    ];

    let mut host: CounterHost = Host::new(CounterModel::new());
    for m in messages.clone() {
        host.try_send(m).unwrap();
    }
    let cmds = host.run_until_idle();
    assert_eq!(cmds.len(), messages.len());

    // The same messages folded over `update` outside the runtime.
    let mut reference = CounterModel::new();
    for m in messages {
        let _ = reference.update(m);
        reference.flush_signals();
    }
    assert_eq!(host.model.count, reference.count);
    assert_eq!(host.model.count, 42);
}

#[test]
fn messages_are_applied_one_at_a_time_in_order() {
    let mut host: CounterHost = Host::new(CounterModel::new());
    host.try_send(CounterMsg::Add(2)).unwrap();
    host.try_send(CounterMsg::Reset).unwrap();
    host.try_send(CounterMsg::Add(3)).unwrap();
    match host.step() {
        HostStep::Handled(_) => assert_eq!(host.model.count, 2),
        _ => panic!("a queued message must be handled"),
    }
    match host.step() {
        HostStep::Handled(_) => assert_eq!(host.model.count, 0),
        _ => panic!("a queued message must be handled"),
    }
    match host.step() {
        HostStep::Handled(_) => assert_eq!(host.model.count, 3),
        _ => panic!("a queued message must be handled"),
    }
    assert!(matches!(host.step(), HostStep::Idle));
}

#[test]
fn commands_feed_the_loop_they_were_born_from() {
    let mut host: CounterHost = Host::new(CounterModel::new());
    host.try_send(CounterMsg::Emit(7)).unwrap();
    let cmds = host.run_until_idle();
    assert_eq!(host.model.count, 0);
    // The spawner's work: every output of the command re-enters the
    // inbound channel as a new message.
    for cmd in cmds {
        if let Some(outputs) = into_repr(cmd) {
            for m in outputs {
                host.try_send(m).unwrap();
            }
        }
    }
    let _ = host.run_until_idle();
    assert_eq!(host.model.count, 7);
}

#[test]
fn sending_after_the_host_stopped_fails_with_channel_closed() {
    let mut host: CounterHost = Host::new(CounterModel::new());
    host.close_senders();
    assert!(matches!(host.step(), HostStep::Stopped));
    let r = host.try_send(CounterMsg::Increment);
    assert_eq!(r, Err(MvuRuntimeChannelClosedError));
    // The failure is a typed condition, not a panic, and the host stays
    // stopped.
    assert!(matches!(host.step(), HostStep::Stopped));
}

#[test]
fn the_host_drains_queued_messages_before_stopping() {
    let mut host: CounterHost = Host::new(CounterModel::new());
    host.try_send(CounterMsg::Add(4)).unwrap();
    host.close_senders();
    assert!(matches!(host.step(), HostStep::Handled(_)));
    assert_eq!(host.model.count, 4);
    assert!(matches!(host.step(), HostStep::Stopped));
}

#[test]
fn interceptors_observe_every_message() {
    let mut host: CounterHost = Host::builder()
        .model(CounterModel::new())
        .interceptor(MessageCounter { seen: 0 })
        .interceptor(MessageCounter { seen: 100 })
        .build();
    host.try_send(CounterMsg::Increment).unwrap();
    host.try_send(CounterMsg::Increment).unwrap();
    host.try_send(CounterMsg::Reset).unwrap();
    let _ = host.run_until_idle();
    assert_eq!(host.interceptors[0].seen, 3);
    assert_eq!(host.interceptors[1].seen, 103);
}

#[test]
fn the_host_flushes_signals_after_every_message() {
    let mut host: CounterHost = Host::new(CounterModel::new());
    let id = host.model.changes.subscribe();
    host.try_send(CounterMsg::Increment).unwrap();
    host.try_send(CounterMsg::Increment).unwrap();
    let _ = host.run_until_idle();
    assert!(host.model.changes.take_notification(id));
    assert!(!host.model.changes.take_notification(id));
    assert_eq!(*host.model.changes.read(), 2);
}

#[test]
fn builder_defaults_and_settings() {
    let builder: CounterHostBuilder = Host::builder();
    assert_eq!(builder.buffer_size, DEFAULT_CHANNEL_BUFFER_SIZE);
    let host: CounterHost = builder
        .model(CounterModel::new())
        .buffer_size(2)
        .state_with(7, 99u64)
        .build();
    assert_eq!(host.queue.capacity, 2);
    assert_eq!(host.model.count, 0);
    assert!(host.world.try_state(7).is_some());
    assert!(host.world.try_state(8).is_none());
}

#[test]
fn emitted_commands_arrive_in_message_order() {
    let mut host: CounterHost = Host::new(CounterModel::new());
    host.try_send(CounterMsg::Emit(1)).unwrap();
    host.try_send(CounterMsg::Increment).unwrap();
    host.try_send(CounterMsg::Emit(2)).unwrap();
    let cmds = host.run_until_idle();
    let reprs: Vec<Option<Vec<CounterMsg>>> = cmds.into_iter().map(into_repr).collect();
    assert_eq!(reprs.len(), 3);
    assert!(matches!(reprs[0].as_deref(), Some([CounterMsg::Add(1)])));
    assert!(reprs[1].is_none());
    assert!(matches!(reprs[2].as_deref(), Some([CounterMsg::Add(2)])));
}

#[test]
fn the_host_flushes_nested_signals_through_the_tree() {
    let mut kids: Cells<CounterModel> = Cells::new();
    let child = ModelBase::new(&mut kids, CounterModel::new());
    let pair = PairModel { kids, left: child, right: child };
    let mut host: Host<AdHocApp<PairModel>, MessageCounter, u64> = Host::new(pair);
    let id = host.model.kids.slots[0].changes.subscribe();
    host.try_send(PairMsg::Left(CounterMsg::Increment)).unwrap();
    host.try_send(PairMsg::Right(CounterMsg::Increment)).unwrap();
    let _ = host.run_until_idle();
    // One coalesced notification for the nested child, flushed by the host
    // through the tree.
    assert!(host.model.kids.slots[0].changes.take_notification(id));
    assert!(!host.model.kids.slots[0].changes.take_notification(id));
    assert_eq!(*host.model.kids.slots[0].changes.read(), 2);
}

#[test]
fn defaults_builds_a_host_around_the_default_model() {
    let mut host: CounterHost = Host::defaults();
    assert_eq!(host.model.count, 0);
    host.try_send(CounterMsg::Increment).unwrap();
    let _ = host.run_until_idle();
    assert_eq!(host.model.count, 1);
}
