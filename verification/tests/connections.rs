use blec::callbacks::OnDisconnectHandler;
use blec::connect::Connect;
use blec::disconnect::DisconnectDevice;
use blec::error::BleError;
use blec::event::{CentralEvent, HandleEvent};
use blec::handler::Handler;
use blec::models::{BleDevice, Characteristic, LockName, Service, Uuid};
use blec::step::{Action, Reply, Step};

type H = Handler<&'static str, &'static str, &'static str, u8>;
type Act = Action<&'static str, &'static str>;
type ConnectOp = Connect<&'static str, &'static str>;
type DisconnectOp = DisconnectDevice<&'static str, &'static str>;
type EventOp = HandleEvent<&'static str, &'static str>;
type St<O, R> = Step<O, &'static str, &'static str, Result<R, BleError>>;

const A: &str = "AA:AA:AA:AA:AA:AA";
const B: &str = "BB:BB:BB:BB:BB:BB";

fn named(address: &str) -> Result<BleDevice, BleError> {
    Ok(BleDevice {
        address: address.to_string(),
        name: "x".to_string(),
        is_connected: false,
        services: vec![],
    })
}

fn handler_with_devices() -> H {
    let mut h: H = Handler::new();
    let devices = h.add_devices(vec![10, 20], vec![named(A), named(B)]);
    assert_eq!(devices.len(), 2);
    h
}

fn charac(uuid: u128, service: u128, handle: u64) -> Characteristic {
    Characteristic { uuid: Uuid { value: uuid }, service_uuid: Uuid { value: service }, handle }
}

fn services() -> Vec<Service> {
    vec![
        Service {
            uuid: Uuid { value: 100 },
            characteristics: vec![charac(1, 100, 0), charac(2, 100, 1)],
        },
        Service { uuid: Uuid { value: 200 }, characteristics: vec![charac(1, 200, 2)] },
    ]
}

fn cont<O, R>(step: St<O, R>) -> (O, Act) {
    match step {
        Step::Do(op, action) => (op, action),
        Step::Done(_) => panic!("the operation has ended"),
    }
}

fn ended<O, R>(step: St<O, R>) -> Result<R, BleError> {
    match step {
        Step::Do(_, action) => panic!("the operation asks for {:?}", action),
        Step::Done(r) => r,
    }
}

fn next(h: &mut H, op: ConnectOp, reply: Reply) -> St<ConnectOp, ()> {
    assert!(op.is_awaiting(h, &reply));
    h.resume_connect(op, reply)
}

fn next_event(h: &mut H, op: EventOp, reply: Reply) -> St<EventOp, ()> {
    assert!(op.is_awaiting(h, &reply));
    h.resume_handle_event(op, reply)
}

fn next_disconnect(h: &mut H, op: DisconnectOp, reply: Reply) -> St<DisconnectOp, ()> {
    assert!(op.is_awaiting(h, &reply));
    h.resume_disconnect(op, reply)
}

fn report_connected(h: &mut H, peripheral: u64) {
    let first = !h.is_connected();
    let (event, action) = cont(h.handle_event(CentralEvent::DeviceConnected(peripheral)));
    assert!(matches!(action, Action::SendLink { value: true, .. }));
    let step = next_event(h, event, Reply::Acknowledged);
    if first {
        let (event, action) = cont(step);
        assert!(matches!(action, Action::Announce(true)));
        assert!(ended(next_event(h, event, Reply::Acknowledged)).is_ok());
    } else {
        assert!(ended(step).is_ok());
    }
}

fn report_disconnected(h: &mut H, peripheral: u64) {
    let mut step = h.handle_event(CentralEvent::DeviceDisconnected(peripheral));
    while let Step::Do(op, _) = step {
        step = next_event(h, op, Reply::Acknowledged);
    }
    assert!(ended(step).is_ok());
}

fn connect(h: &mut H, address: &str, on_disconnect: &'static str) {
    let (op, action) = cont(h.connect(address, OnDisconnectHandler::from_sync(on_disconnect), false));
    assert!(matches!(action, Action::StopScan));
    let (op, action) = cont(next(h, op, Reply::Settled(Ok(()))));
    assert!(matches!(action, Action::QueryConnected(_)));
    let (op, action) = cont(next(h, op, Reply::Queried(Ok(false))));
    assert!(matches!(action, Action::Connect { .. }));
    let (op, action) = cont(next(h, op, Reply::Timed(Some(Ok(())))));
    assert!(matches!(action, Action::ReadLink(_)));
    let (op, action) = cont(next(h, op, Reply::Flag(false)));
    assert!(matches!(action, Action::AwaitLink(_)));
    assert!(!h.is_connected_to(address));
    let peripheral = h.connection(address).unwrap().peripheral;
    report_connected(h, peripheral);
    assert!(h.is_connected_to(address));
    let (op, action) = cont(next(h, op, Reply::Acknowledged));
    assert!(matches!(action, Action::PeekLink(_)));
    let (op, action) = cont(next(h, op, Reply::Flag(true)));
    assert!(matches!(action, Action::DiscoverServices { guard: Some(_), .. }));
    let (op, action) = cont(next(h, op, Reply::Timed(Some(Ok(())))));
    assert!(matches!(action, Action::ListServices(_)));
    let (op, action) = cont(next(h, op, Reply::Listed(services())));
    assert!(matches!(action, Action::StartListening { replaced: None, .. }));
    assert!(ended(next(h, op, Reply::Acknowledged)).is_ok());
}

#[test]
fn connecting_a_second_device_keeps_the_first() {
    let mut h = handler_with_devices();
    assert!(!h.is_connected());
    connect(&mut h, A, "a gone");
    let lock = h.connection(A).unwrap().lock;
    assert!(h.is_connected());
    connect(&mut h, B, "b gone");
    assert!(h.is_connected_to(A));
    assert!(h.is_connected_to(B));
    assert_eq!(h.connection(A).unwrap().lock, lock);
    assert_ne!(h.connection(A).unwrap().lock, h.connection(B).unwrap().lock);
    assert_eq!(h.connection(A).unwrap().peripheral, 10);
    assert_eq!(h.connection(B).unwrap().peripheral, 20);
    let mut all = h.connected_addresses();
    all.sort();
    assert_eq!(all, vec![A.to_string(), B.to_string()]);
    let mut peripherals = h.connected_devices();
    peripherals.sort();
    assert_eq!(peripherals, vec![10, 20]);
}

#[test]
fn a_connected_device_has_callback_characteristics_and_task() {
    let mut h = handler_with_devices();
    connect(&mut h, A, "a gone");
    let c = h.connection(A).unwrap();
    assert!(matches!(c.on_disconnect, OnDisconnectHandler::Sync("a gone")));
    assert_eq!(c.characs, vec![charac(1, 100, 0), charac(2, 100, 1), charac(1, 200, 2)]);
    assert!(c.listen_task.is_some());
    assert!(c.listeners.is_empty());
}

#[test]
fn a_connected_device_is_refused() {
    let mut h = handler_with_devices();
    connect(&mut h, A, "a gone");
    let r = ended(h.connect(A, OnDisconnectHandler::Unset, false));
    assert!(matches!(r, Err(BleError::AlreadyConnected)));
}

#[test]
fn without_devices_a_scan_comes_first() {
    let mut h: H = Handler::new();
    let (op, action) = cont(h.connect(A, OnDisconnectHandler::Unset, true));
    assert!(matches!(action, Action::Discover { timeout: 1000, allow_ibeacons: true }));
    let r = ended(next(&mut h, op, Reply::Settled(Err(BleError::NoAdapters))));
    assert!(matches!(r, Err(BleError::NoAdapters)));
    let (op, _) = cont(h.connect(A, OnDisconnectHandler::Unset, true));
    let (op, action) = cont(next(&mut h, op, Reply::Settled(Ok(()))));
    assert!(matches!(action, Action::StopScan));
    let (_, action) = cont(next(&mut h, op, Reply::Settled(Err(BleError::NoAdapters))));
    assert!(matches!(action, Action::Sleep(1000)));
}

#[test]
fn the_third_failure_is_final() {
    let mut h = handler_with_devices();
    let (op, _) = cont(h.connect(A, OnDisconnectHandler::Unset, false));
    let (mut op, mut action) = cont(next(&mut h, op, Reply::Settled(Ok(()))));
    let mut tries = 0;
    let r = loop {
        assert!(matches!(action, Action::QueryConnected(10)));
        let (o, a) = cont(next(&mut h, op, Reply::Queried(Ok(false))));
        assert!(matches!(a, Action::Connect { peripheral: 10, .. }));
        tries += 1;
        match next(&mut h, o, Reply::Timed(None)) {
            Step::Done(r) => break r,
            Step::Do(o, a) => {
                assert!(h.has_connection(A));
                assert!(matches!(a, Action::Sleep(1000)));
                let (o, a) = cont(next(&mut h, o, Reply::Acknowledged));
                op = o;
                action = a;
            }
        }
    };
    assert_eq!(tries, 3);
    match r {
        Err(BleError::Timeout(cmd)) => assert_eq!(cmd, "Connect"),
        other => panic!("unexpected {:?}", other),
    }
    assert!(!h.has_connection(A));
    assert!(!h.is_connected());
}

#[test]
fn a_retry_can_succeed() {
    let mut h = handler_with_devices();
    let (op, _) = cont(h.connect(A, OnDisconnectHandler::Unset, false));
    let (op, _) = cont(next(&mut h, op, Reply::Settled(Ok(()))));
    let failed = Reply::Queried(Err(btleplug::Error::NotConnected));
    let (op, action) = cont(next(&mut h, op, failed));
    assert!(matches!(action, Action::Sleep(1000)));
    let (op, action) = cont(next(&mut h, op, Reply::Acknowledged));
    assert!(matches!(action, Action::QueryConnected(10)));
    let (op, action) = cont(next(&mut h, op, Reply::Queried(Ok(true))));
    assert!(matches!(action, Action::SendLink { value: true, .. }));
    let (_, action) = cont(next(&mut h, op, Reply::Acknowledged));
    assert!(matches!(action, Action::DiscoverServices { peripheral: 10, guard: Some(_) }));
}

#[test]
fn an_unknown_device_fails_after_three_tries() {
    let mut h = handler_with_devices();
    let (op, _) = cont(h.connect("CC", OnDisconnectHandler::Unset, false));
    let (op, action) = cont(next(&mut h, op, Reply::Settled(Ok(()))));
    assert!(matches!(action, Action::Sleep(1000)));
    let (op, action) = cont(next(&mut h, op, Reply::Acknowledged));
    assert!(matches!(action, Action::Sleep(1000)));
    match ended(next(&mut h, op, Reply::Acknowledged)) {
        Err(BleError::UnknownPeripheral(a)) => assert_eq!(a, "CC"),
        other => panic!("unexpected {:?}", other),
    }
}

#[test]
fn an_event_that_denies_the_connection_is_a_failure() {
    let mut h = handler_with_devices();
    let (op, _) = cont(h.connect(A, OnDisconnectHandler::Unset, false));
    let (mut op, _) = cont(next(&mut h, op, Reply::Settled(Ok(()))));
    for last in [false, false, true] {
        let (o, _) = cont(next(&mut h, op, Reply::Queried(Ok(false))));
        let (o, _) = cont(next(&mut h, o, Reply::Timed(Some(Ok(())))));
        let (o, _) = cont(next(&mut h, o, Reply::Flag(false)));
        let (o, _) = cont(next(&mut h, o, Reply::Acknowledged));
        let step = next(&mut h, o, Reply::Flag(false));
        if last {
            assert!(matches!(ended(step), Err(BleError::ConnectionFailed)));
            return;
        }
        let (o, _) = cont(step);
        op = cont(next(&mut h, o, Reply::Acknowledged)).0;
    }
}

#[test]
fn a_failed_connection_takes_the_flag_back() {
    let mut h = handler_with_devices();
    let (op, _) = cont(h.connect(A, OnDisconnectHandler::Unset, false));
    let (mut op, _) = cont(next(&mut h, op, Reply::Settled(Ok(()))));
    report_connected(&mut h, 10);
    let link = h.connection_update_receiver(A).unwrap();
    assert!(h.is_connected());
    for last in [false, false, true] {
        let (o, _) = cont(next(&mut h, op, Reply::Queried(Ok(false))));
        let step = next(&mut h, o, Reply::Timed(None));
        let (o, action) = cont(step);
        if last {
            assert!(matches!(action, Action::SendLink { link: l, value: false } if l == link));
            assert!(!h.is_connected_to(A));
            let (o, action) = cont(next(&mut h, o, Reply::Acknowledged));
            assert!(matches!(action, Action::Announce(false)));
            assert!(!h.is_connected());
            let r = ended(next(&mut h, o, Reply::Acknowledged));
            assert!(matches!(r, Err(BleError::Timeout(_))));
            return;
        }
        op = cont(next(&mut h, o, Reply::Acknowledged)).0;
    }
}

#[test]
fn failing_services_are_reported() {
    let mut h = handler_with_devices();
    let (op, _) = cont(h.connect(A, OnDisconnectHandler::Unset, false));
    let (op, _) = cont(next(&mut h, op, Reply::Settled(Ok(()))));
    let (op, _) = cont(next(&mut h, op, Reply::Queried(Ok(true))));
    let (op, _) = cont(next(&mut h, op, Reply::Acknowledged));
    let (op, action) = cont(next(&mut h, op, Reply::Timed(None)));
    assert!(matches!(action, Action::Announce(true)));
    match ended(next(&mut h, op, Reply::Acknowledged)) {
        Err(BleError::Timeout(cmd)) => assert_eq!(cmd, "discover services"),
        other => panic!("unexpected {:?}", other),
    }
}

#[test]
fn a_connection_that_vanished_is_no_error() {
    let mut h = handler_with_devices();
    let (op, _) = cont(h.connect(A, OnDisconnectHandler::Unset, false));
    let (op, _) = cont(next(&mut h, op, Reply::Settled(Ok(()))));
    let (op, _) = cont(next(&mut h, op, Reply::Queried(Ok(true))));
    let (op, _) = cont(next(&mut h, op, Reply::Acknowledged));
    let (op, _) = cont(next(&mut h, op, Reply::Timed(Some(Ok(())))));
    let _ = cont(h.handle_disconnect(10));
    assert!(ended(next(&mut h, op, Reply::Listed(services()))).is_ok());
    assert!(!h.is_connected_to(A));
}

#[test]
fn a_connection_that_vanished_before_the_services_is_an_error() {
    let mut h = handler_with_devices();
    let (op, _) = cont(h.connect(A, OnDisconnectHandler::Unset, false));
    let (op, _) = cont(next(&mut h, op, Reply::Settled(Ok(()))));
    let (op, _) = cont(next(&mut h, op, Reply::Queried(Ok(true))));
    let _ = cont(h.handle_disconnect(10));
    let r = ended(next(&mut h, op, Reply::Acknowledged));
    assert!(matches!(r, Err(BleError::NoDeviceConnected)));
}

#[test]
fn a_disconnection_runs_the_callback_of_its_device() {
    let mut h = handler_with_devices();
    connect(&mut h, A, "a gone");
    connect(&mut h, B, "b gone");
    let link = h.connection_update_receiver(B).unwrap();
    let task = h.connection(B).unwrap().listen_task.unwrap();
    let lock = h.connection(B).unwrap().lock;
    let (op, action) = cont(h.handle_event(CentralEvent::DeviceDisconnected(20)));
    assert!(!h.is_connected_to(B));
    assert!(h.is_connected_to(A));
    assert!(matches!(action, Action::Quiet(l) if l == lock));
    let (op, action) = cont(next_event(&mut h, op, Reply::Acknowledged));
    assert!(matches!(action, Action::AbortTask(t) if t == task));
    let (op, action) = cont(next_event(&mut h, op, Reply::Acknowledged));
    assert!(matches!(action, Action::RunCallback(OnDisconnectHandler::Sync("b gone"))));
    let (op, action) = cont(next_event(&mut h, op, Reply::Acknowledged));
    assert!(matches!(action, Action::SendLink { link: l, value: false } if l == link));
    assert!(ended(next_event(&mut h, op, Reply::Acknowledged)).is_ok());
    assert!(h.is_connected());
    let (op, _) = cont(h.handle_event(CentralEvent::DeviceDisconnected(10)));
    let (op, _) = cont(next_event(&mut h, op, Reply::Acknowledged));
    let (op, _) = cont(next_event(&mut h, op, Reply::Acknowledged));
    let (op, _) = cont(next_event(&mut h, op, Reply::Acknowledged));
    let (op, action) = cont(next_event(&mut h, op, Reply::Acknowledged));
    assert!(matches!(action, Action::Announce(false)));
    assert!(ended(next_event(&mut h, op, Reply::Acknowledged)).is_ok());
    assert!(!h.is_connected());
}

#[test]
fn events_of_untracked_devices_are_ignored() {
    let mut h = handler_with_devices();
    connect(&mut h, A, "a gone");
    assert!(ended(h.handle_event(CentralEvent::DeviceDisconnected(99))).is_ok());
    assert!(ended(h.handle_event(CentralEvent::DeviceConnected(99))).is_ok());
    assert!(ended(h.handle_event(CentralEvent::Other)).is_ok());
    assert!(h.is_connected_to(A));
}

#[test]
fn a_connect_event_reaches_the_link_of_its_device() {
    let mut h = handler_with_devices();
    connect(&mut h, A, "a gone");
    connect(&mut h, B, "b gone");
    let link = h.connection_update_receiver(A).unwrap();
    assert_ne!(link, h.connection_update_receiver(B).unwrap());
    let (op, action) = cont(h.handle_event(CentralEvent::DeviceConnected(10)));
    assert!(matches!(action, Action::SendLink { link: l, value: true } if l == link));
    assert!(ended(next_event(&mut h, op, Reply::Acknowledged)).is_ok());
    let r = h.connection_update_receiver("CC");
    assert!(matches!(r, Err(BleError::NoDeviceConnected)));
}

#[test]
fn a_device_is_disconnected() {
    let mut h = handler_with_devices();
    connect(&mut h, A, "a gone");
    connect(&mut h, B, "b gone");
    let (op, action) = cont(h.disconnect_device(B));
    assert!(matches!(action, Action::QueryConnected(20)));
    let (op, action) = cont(next_disconnect(&mut h, op, Reply::Queried(Ok(true))));
    assert!(matches!(action, Action::ReadLink(_)));
    assert!(!op.is_awaiting(&h, &Reply::Flag(false)));
    let (op, action) = cont(next_disconnect(&mut h, op, Reply::Flag(true)));
    assert!(matches!(action, Action::Disconnect(20)));
    let (op, action) = cont(next_disconnect(&mut h, op, Reply::Finished(Ok(()))));
    assert!(matches!(action, Action::AwaitLink(_)));
    let (op, action) = cont(next_disconnect(&mut h, op, Reply::Acknowledged));
    assert!(matches!(action, Action::PeekLink(_)));
    assert!(ended(next_disconnect(&mut h, op, Reply::Flag(false))).is_ok());
    assert!(h.is_connected_to(A));
}

#[test]
fn a_disconnection_can_fail() {
    let mut h = handler_with_devices();
    connect(&mut h, A, "a gone");
    let (op, _) = cont(h.disconnect());
    let (op, _) = cont(next_disconnect(&mut h, op, Reply::Queried(Ok(true))));
    let (op, _) = cont(next_disconnect(&mut h, op, Reply::Flag(true)));
    let (op, _) = cont(next_disconnect(&mut h, op, Reply::Finished(Ok(()))));
    let (op, _) = cont(next_disconnect(&mut h, op, Reply::Acknowledged));
    let r = ended(next_disconnect(&mut h, op, Reply::Flag(true)));
    assert!(matches!(r, Err(BleError::DisconnectFailed)));
    let (op, _) = cont(h.disconnect());
    let (op, _) = cont(next_disconnect(&mut h, op, Reply::Queried(Ok(true))));
    let (op, _) = cont(next_disconnect(&mut h, op, Reply::Flag(true)));
    let failed = Reply::Finished(Err(btleplug::Error::NotConnected));
    let r = ended(next_disconnect(&mut h, op, failed));
    assert!(matches!(r, Err(BleError::Btleplug(btleplug::Error::NotConnected))));
}

#[test]
fn a_connection_that_the_peripheral_lacks_is_given_up() {
    let mut h = handler_with_devices();
    connect(&mut h, A, "a gone");
    let (op, _) = cont(h.disconnect_device(A));
    let (op, action) = cont(next_disconnect(&mut h, op, Reply::Queried(Ok(false))));
    assert!(matches!(action, Action::Quiet(_)));
    assert!(!h.is_connected_to(A));
    let (op, action) = cont(next_disconnect(&mut h, op, Reply::Acknowledged));
    assert!(matches!(action, Action::AbortTask(_)));
    let (op, action) = cont(next_disconnect(&mut h, op, Reply::Acknowledged));
    assert!(matches!(action, Action::RunCallback(OnDisconnectHandler::Sync("a gone"))));
    let (op, action) = cont(next_disconnect(&mut h, op, Reply::Acknowledged));
    assert!(matches!(action, Action::SendLink { value: false, .. }));
    let (op, action) = cont(next_disconnect(&mut h, op, Reply::Acknowledged));
    assert!(matches!(action, Action::Announce(false)));
    let r = ended(next_disconnect(&mut h, op, Reply::Acknowledged));
    assert!(matches!(r, Err(BleError::NoDeviceConnected)));
}

#[test]
fn calls_without_an_address_need_one_device() {
    let mut h = handler_with_devices();
    assert!(matches!(ended(h.disconnect()), Err(BleError::NoDeviceConnected)));
    assert!(matches!(h.mtu(), Err(BleError::NoDeviceConnected)));
    assert!(matches!(h.connected_device(), Err(BleError::NoDeviceConnected)));
    connect(&mut h, B, "b gone");
    assert_eq!(h.default_address().unwrap(), B);
    assert_eq!(h.mtu().unwrap(), 20);
    assert_eq!(h.connected_device().unwrap(), 20);
    let (_, action) = cont(h.disconnect());
    assert!(matches!(action, Action::QueryConnected(20)));
    connect(&mut h, A, "a gone");
    match h.default_address() {
        Err(BleError::AmbiguousDevice(list)) => {
            assert_eq!(list, vec![A.to_string(), B.to_string()])
        }
        other => panic!("unexpected {:?}", other),
    }
    assert!(matches!(ended(h.disconnect()), Err(BleError::AmbiguousDevice(_))));
    assert!(matches!(h.mtu(), Err(BleError::AmbiguousDevice(_))));
    assert_eq!(h.mtu_of(A).unwrap(), 10);
    assert_eq!(h.connected_device_at(B).unwrap(), 20);
    assert!(matches!(h.mtu_of("CC"), Err(BleError::NoDeviceConnected)));
    assert!(matches!(h.connected_device_at("CC"), Err(BleError::NoDeviceConnected)));
    assert!(matches!(ended(h.disconnect_device("CC")), Err(BleError::NoDeviceConnected)));
}

#[test]
fn write_behaviour_is_remembered() {
    let mut h: H = Handler::new();
    assert_eq!(h.get_write_behaviour(), (0, false));
    h.set_write_behaviour(Some(250), true);
    assert_eq!(h.get_write_behaviour(), (250, true));
    h.set_write_behaviour(None, false);
    assert_eq!(h.get_write_behaviour(), (0, false));
}

#[test]
fn channels_are_kept_in_order() {
    let mut h: H = Handler::new();
    h.set_connection_update_channel(1);
    h.set_connection_update_channel(2);
    h.set_scanning_update_channel(3);
    assert_eq!(h.connection_update_channels(), &vec![1, 2]);
    assert_eq!(h.scanning_update_channels(), &vec![3]);
}

#[test]
fn disconnect_callbacks_are_taken_once() {
    let mut f: OnDisconnectHandler<u8, u16> = OnDisconnectHandler::from_async(7);
    assert!(matches!(f.take(), OnDisconnectHandler::Async(7)));
    assert!(matches!(f.take(), OnDisconnectHandler::Unset));
    let mut f: OnDisconnectHandler<u8, u16> = OnDisconnectHandler::from_sync(3);
    assert!(matches!(f.take(), OnDisconnectHandler::Sync(3)));
    assert!(matches!(f, OnDisconnectHandler::Unset));
}

#[test]
fn a_callback_runs_though_the_device_was_lost_early() {
    let mut h = handler_with_devices();
    let (op, _) = cont(h.connect(A, OnDisconnectHandler::from_sync("a gone"), false));
    let (op, _) = cont(next(&mut h, op, Reply::Settled(Ok(()))));
    let (op, _) = cont(next(&mut h, op, Reply::Queried(Ok(true))));
    let (op, _) = cont(next(&mut h, op, Reply::Acknowledged));
    let (op, _) = cont(next(&mut h, op, Reply::Timed(Some(Ok(())))));
    report_disconnected(&mut h, 10);
    let (op, action) = cont(next(&mut h, op, Reply::Listed(services())));
    assert!(matches!(action, Action::RunCallback(OnDisconnectHandler::Sync("a gone"))));
    assert!(ended(next(&mut h, op, Reply::Acknowledged)).is_ok());
    assert!(!h.has_connection(A));
}

#[test]
fn a_device_that_is_being_connected_is_not_connected() {
    let mut h = handler_with_devices();
    let (op, _) = cont(h.connect(A, OnDisconnectHandler::Unset, false));
    let (op, _) = cont(next(&mut h, op, Reply::Settled(Ok(()))));
    assert!(h.has_connection(A));
    assert!(!h.is_connected_to(A));
    assert!(h.connected_addresses().is_empty());
    assert!(h.connected_devices().is_empty());
    assert_eq!(h.refresh_aggregate_connected(), None);
    let (_, _) = cont(next(&mut h, op, Reply::Queried(Ok(true))));
    assert!(h.is_connected_to(A));
    assert_eq!(h.connected_addresses(), vec![A.to_string()]);
    assert_eq!(h.connected_devices(), vec![10]);
    assert_eq!(h.refresh_aggregate_connected(), Some(true));
}

#[test]
fn a_link_outlives_the_connection() {
    let mut h = handler_with_devices();
    connect(&mut h, A, "a gone");
    connect(&mut h, B, "b gone");
    let link = h.connection_update_receiver(A).unwrap();
    report_disconnected(&mut h, 10);
    assert!(matches!(h.connection_update_receiver(A), Err(BleError::NoDeviceConnected)));
    let state = h.link(A).unwrap();
    assert_eq!((state.link, state.told), (link, false));
    connect(&mut h, A, "a gone again");
    assert_eq!(h.connection_update_receiver(A).unwrap(), link);
    assert!(h.link(A).unwrap().told);
    assert_ne!(h.connection_update_receiver(B).unwrap(), link);
}

#[test]
fn a_new_connection_keeps_the_link_for_itself() {
    let mut h = handler_with_devices();
    connect(&mut h, A, "a gone");
    let link = h.connection_update_receiver(A).unwrap();
    let (event, _) = cont(h.handle_event(CentralEvent::DeviceDisconnected(10)));
    let (event, _) = cont(next_event(&mut h, event, Reply::Acknowledged));
    let (event, action) = cont(next_event(&mut h, event, Reply::Acknowledged));
    assert!(matches!(action, Action::RunCallback(_)));
    let (op, _) = cont(h.connect(A, OnDisconnectHandler::Unset, false));
    let (op, action) = cont(next(&mut h, op, Reply::Settled(Ok(()))));
    assert!(matches!(action, Action::SendLink { link: l, value: false } if l == link));
    let (op, action) = cont(next(&mut h, op, Reply::Acknowledged));
    assert!(matches!(action, Action::QueryConnected(10)));
    let (_, action) = cont(next(&mut h, op, Reply::Queried(Ok(true))));
    assert!(matches!(action, Action::SendLink { link: l, value: true } if l == link));
    assert!(ended(next_event(&mut h, event, Reply::Acknowledged)).is_ok());
    assert!(h.link(A).unwrap().told);
    assert!(h.is_connected_to(A));
}

#[test]
fn a_callback_runs_though_another_connection_was_begun() {
    let mut h = handler_with_devices();
    let (op, _) = cont(h.connect(A, OnDisconnectHandler::from_sync("first gone"), false));
    let (op, _) = cont(next(&mut h, op, Reply::Settled(Ok(()))));
    let (op, _) = cont(next(&mut h, op, Reply::Queried(Ok(true))));
    let (op, _) = cont(next(&mut h, op, Reply::Acknowledged));
    let (op, _) = cont(next(&mut h, op, Reply::Timed(Some(Ok(())))));
    report_disconnected(&mut h, 10);
    connect(&mut h, A, "second gone");
    let (op, action) = cont(next(&mut h, op, Reply::Listed(services())));
    assert!(matches!(action, Action::RunCallback(OnDisconnectHandler::Sync("first gone"))));
    assert!(ended(next(&mut h, op, Reply::Acknowledged)).is_ok());
    let c = h.connection(A).unwrap();
    assert!(matches!(c.on_disconnect, OnDisconnectHandler::Sync("second gone")));
}

#[test]
fn a_disconnection_is_not_undone_by_a_new_connection() {
    let mut h = handler_with_devices();
    connect(&mut h, A, "a gone");
    let (op, _) = cont(h.disconnect_device(A));
    let (op, _) = cont(next_disconnect(&mut h, op, Reply::Queried(Ok(true))));
    let (op, _) = cont(next_disconnect(&mut h, op, Reply::Flag(true)));
    let (op, _) = cont(next_disconnect(&mut h, op, Reply::Finished(Ok(()))));
    report_disconnected(&mut h, 10);
    connect(&mut h, A, "a gone again");
    let (op, action) = cont(next_disconnect(&mut h, op, Reply::Acknowledged));
    assert!(matches!(action, Action::PeekLink(_)));
    assert!(ended(next_disconnect(&mut h, op, Reply::Flag(true))).is_ok());
    assert!(h.is_connected_to(A));
}

#[test]
fn a_connection_is_wound_up_after_its_notifications() {
    let mut h = handler_with_devices();
    connect(&mut h, A, "a gone");
    let lock = h.connection(A).unwrap().lock;
    h.begin_notification(lock);
    let (op, action) = cont(h.handle_event(CentralEvent::DeviceDisconnected(10)));
    assert!(matches!(action, Action::Quiet(l) if l == lock));
    assert!(!op.is_awaiting(&h, &Reply::Acknowledged));
    h.release(LockName::Listeners(lock));
    let (_, action) = cont(next_event(&mut h, op, Reply::Acknowledged));
    assert!(matches!(action, Action::AbortTask(_)));
}

#[test]
fn an_attempt_is_not_decided_by_another_connection() {
    let mut h = handler_with_devices();
    let (op, _) = cont(h.connect(A, OnDisconnectHandler::Unset, false));
    let (op, _) = cont(next(&mut h, op, Reply::Settled(Ok(()))));
    let (op, _) = cont(next(&mut h, op, Reply::Queried(Ok(false))));
    let (op, _) = cont(next(&mut h, op, Reply::Timed(Some(Ok(())))));
    let (op, action) = cont(next(&mut h, op, Reply::Flag(false)));
    assert!(matches!(action, Action::AwaitLink(_)));
    report_disconnected(&mut h, 10);
    connect(&mut h, A, "a gone");
    let (op, _) = cont(next(&mut h, op, Reply::Acknowledged));
    let (_, action) = cont(next(&mut h, op, Reply::Flag(true)));
    assert!(matches!(action, Action::Sleep(1000)));
}
