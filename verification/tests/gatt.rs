use blec::callbacks::{OnDisconnectHandler, SubscriptionHandler};
use blec::commands;
use blec::error::BleError;
use blec::gatt::{RecvData, SendData, Subscribe, Unsubscribe};
use blec::handler::Handler;
use blec::models::{
    BleDevice, Characteristic, LockName, ScanFilter, Service, Uuid, WriteType,
};
use blec::services::DiscoverServices;
use blec::step::{Action, Reply, Step};
use blec::text::{decode_text, encode_text, precedes};

type H = Handler<u8, u8, &'static str, u8>;
type St<O, R> = Step<O, u8, u8, Result<R, BleError>>;

const A: &str = "AA:AA:AA:AA:AA:AA";
const B: &str = "BB:BB:BB:BB:BB:BB";

fn cont<O, R>(step: St<O, R>) -> (O, Action<u8, u8>) {
    match step {
        Step::Do(op, action) => (op, action),
        Step::Done(_) => panic!("the operation has ended"),
    }
}

fn ended<O, R>(step: St<O, R>) -> Result<R, BleError> {
    match step {
        Step::Do(_, action) => panic!("the operation asks for {:?}", action),
        Step::Done(r) => r,
    }
}

fn uuid(value: u128) -> Uuid {
    Uuid { value }
}

fn charac(c: u128, service: u128, handle: u64) -> Characteristic {
    Characteristic { uuid: uuid(c), service_uuid: uuid(service), handle }
}

fn services() -> Vec<Service> {
    vec![
        Service {
            uuid: uuid(100),
            characteristics: vec![charac(1, 100, 0), charac(2, 100, 1)],
        },
        Service { uuid: uuid(200), characteristics: vec![charac(1, 200, 2)] },
    ]
}

fn handler_with_devices() -> H {
    let named = |a: &str| {
        Ok(BleDevice {
            address: a.to_string(),
            name: "x".to_string(),
            is_connected: false,
            services: vec![],
        })
    };
    let mut h: H = Handler::new();
    let _ = h.add_devices(vec![10, 20], vec![named(A), named(B)]);
    h
}

fn connect(h: &mut H, address: &str) {
    let (op, _) = cont(h.connect(address, OnDisconnectHandler::Unset, false));
    let (op, _) = cont(h.resume_connect(op, Reply::Settled(Ok(()))));
    let (op, _) = cont(h.resume_connect(op, Reply::Queried(Ok(true))));
    let (op, _) = cont(h.resume_connect(op, Reply::Acknowledged));
    let (op, _) = cont(h.resume_connect(op, Reply::Timed(Some(Ok(())))));
    let (op, _) = cont(h.resume_connect(op, Reply::Listed(services())));
    let mut step = h.resume_connect(op, Reply::Acknowledged);
    if let Step::Do(op, _) = step {
        step = h.resume_connect(op, Reply::Acknowledged);
    }
    assert!(ended(step).is_ok());
}

#[test]
fn data_go_to_the_characteristic_that_is_meant() {
    let mut h = handler_with_devices();
    connect(&mut h, A);
    let lock = h.connection(A).unwrap().lock;
    let step = h.send_data_to(A, uuid(1), Some(uuid(200)), vec![1, 2], WriteType::WithoutResponse);
    let (op, action) = cont(step);
    match action {
        Action::Write { peripheral, lock: l, charac: c, data, write_type } => {
            assert_eq!(peripheral, 10);
            assert_eq!(l, lock);
            assert_eq!(c, charac(1, 200, 2));
            assert_eq!(data, vec![1, 2]);
            assert_eq!(write_type, WriteType::WithoutResponse);
        }
        other => panic!("unexpected {:?}", other),
    }
    assert!(h.finish_send_data(op, Ok(())).is_ok());
    let r = h.finish_send_data(SendData, Err(btleplug::Error::NotConnected));
    assert!(matches!(r, Err(BleError::Btleplug(btleplug::Error::NotConnected))));
    let (_, action) = cont(h.send_data(uuid(1), None, vec![3], WriteType::WithResponse));
    match action {
        Action::Write { charac: c, .. } => assert_eq!(c, charac(1, 100, 0)),
        other => panic!("unexpected {:?}", other),
    }
}

#[test]
fn a_missing_characteristic_is_named() {
    let mut h = handler_with_devices();
    connect(&mut h, A);
    let c = uuid(0x51FF12BB_3ED8_46E5_B4F9_D64E2FEC021B);
    for service in [None, Some(uuid(100))] {
        match ended(h.recv_data_from(A, c, service)) {
            Err(BleError::CharacNotAvailable(text)) => {
                assert_eq!(text, "51ff12bb-3ed8-46e5-b4f9-d64e2fec021b")
            }
            other => panic!("unexpected {:?}", other),
        }
    }
    let r = ended(h.recv_data_from(A, uuid(2), Some(uuid(200))));
    assert!(matches!(r, Err(BleError::CharacNotAvailable(_))));
    let r = ended(h.recv_data_from(B, uuid(2), None));
    assert!(matches!(r, Err(BleError::NoDeviceConnected)));
}

#[test]
fn identifiers_have_a_hyphenated_form() {
    assert_eq!(uuid(0).to_text(), "00000000-0000-0000-0000-000000000000");
    assert_eq!(uuid(0xabc).to_text(), "00000000-0000-0000-0000-000000000abc");
    assert_eq!(uuid(u128::MAX).to_text(), "ffffffff-ffff-ffff-ffff-ffffffffffff");
}

#[test]
fn data_are_received() {
    let mut h = handler_with_devices();
    connect(&mut h, A);
    let (op, action) = cont(h.recv_data(uuid(2), None));
    match action {
        Action::Read { peripheral, lock, charac: c } => {
            assert_eq!(peripheral, 10);
            assert_eq!(lock, h.connection(A).unwrap().lock);
            assert_eq!(c, charac(2, 100, 1));
        }
        other => panic!("unexpected {:?}", other),
    }
    assert_eq!(h.finish_recv_data(op, Some(Ok(vec![7]))).unwrap(), vec![7]);
    match h.finish_recv_data(RecvData, None) {
        Err(BleError::Timeout(cmd)) => assert_eq!(cmd, "read"),
        other => panic!("unexpected {:?}", other),
    }
    let r = h.finish_recv_data(RecvData, Some(Err(btleplug::Error::NotConnected)));
    assert!(matches!(r, Err(BleError::Btleplug(_))));
}

fn lose(h: &mut H, peripheral: u64) {
    let mut step = h.handle_disconnect(peripheral);
    while let Step::Do(op, _) = step {
        step = h.resume_handle_event(op, Reply::Acknowledged);
    }
    assert!(ended(step).is_ok());
}

type SubscribeOp = Subscribe<&'static str>;

fn next(h: &mut H, op: SubscribeOp, reply: Reply) -> St<SubscribeOp, ()> {
    assert!(op.is_awaiting(h, &reply));
    h.resume_subscribe(op, reply)
}

fn next_un(h: &mut H, op: Unsubscribe, reply: Reply) -> St<Unsubscribe, ()> {
    assert!(op.is_awaiting(h, &reply));
    h.resume_unsubscribe(op, reply)
}

fn subscribe(h: &mut H, address: &str, c: u128, service: u128, callback: &'static str) {
    let lock = h.connection(address).unwrap().lock;
    let (op, action) = cont(h.subscribe_to(address, uuid(c), Some(uuid(service)), callback));
    assert!(matches!(action, Action::Lock(LockName::Device(l)) if l == lock));
    let (op, action) = cont(next(h, op, Reply::Acknowledged));
    assert!(h.is_held(LockName::Device(lock)));
    assert!(matches!(action, Action::Subscribe { .. }));
    let (op, action) = cont(next(h, op, Reply::Timed(Some(Ok(())))));
    assert!(matches!(action, Action::Quiet(l) if l == lock));
    assert!(ended(next(h, op, Reply::Acknowledged)).is_ok());
    assert!(!h.is_held(LockName::Device(lock)));
}

#[test]
fn subscribers_are_notified_until_they_unsubscribe() {
    let mut h = handler_with_devices();
    connect(&mut h, A);
    connect(&mut h, B);
    let a = h.connection(A).unwrap().lock;
    let b = h.connection(B).unwrap().lock;
    subscribe(&mut h, A, 1, 100, "first");
    subscribe(&mut h, A, 2, 100, "other");
    subscribe(&mut h, A, 1, 200, "elsewhere");
    subscribe(&mut h, A, 1, 100, "second");
    subscribe(&mut h, B, 1, 100, "b");
    assert_eq!(h.notified(a, uuid(1), uuid(100)), vec![&"first", &"second"]);
    assert_eq!(h.notified(a, uuid(1), uuid(200)), vec![&"elsewhere"]);
    assert_eq!(h.notified(a, uuid(2), uuid(100)), vec![&"other"]);
    assert_eq!(h.notified(b, uuid(1), uuid(100)), vec![&"b"]);
    let (op, action) = cont(h.unsubscribe_from(A, uuid(1)));
    assert!(matches!(action, Action::Lock(LockName::Device(l)) if l == a));
    let (op, action) = cont(next_un(&mut h, op, Reply::Acknowledged));
    assert!(matches!(action, Action::Unsubscribe { peripheral: 10, .. }));
    let (op, action) = cont(next_un(&mut h, op, Reply::Timed(Some(Ok(())))));
    assert!(matches!(action, Action::Quiet(l) if l == a));
    assert!(ended(next_un(&mut h, op, Reply::Acknowledged)).is_ok());
    assert!(h.notified(a, uuid(1), uuid(100)).is_empty());
    assert!(h.notified(a, uuid(1), uuid(200)).is_empty());
    assert_eq!(h.notified(a, uuid(2), uuid(100)), vec![&"other"]);
    assert_eq!(h.notified(b, uuid(1), uuid(100)), vec![&"b"]);
    lose(&mut h, 20);
    assert!(h.notified(b, uuid(1), uuid(100)).is_empty());
}

#[test]
fn failed_subscriptions_change_nothing() {
    let mut h = handler_with_devices();
    connect(&mut h, A);
    let a = h.connection(A).unwrap().lock;
    let (op, _) = cont(h.subscribe(uuid(2), None, "x"));
    let (op, _) = cont(next(&mut h, op, Reply::Acknowledged));
    match ended(next(&mut h, op, Reply::Timed(None))) {
        Err(BleError::Timeout(cmd)) => assert_eq!(cmd, "subscribe"),
        other => panic!("unexpected {:?}", other),
    }
    assert!(!h.is_held(LockName::Device(a)));
    assert!(h.notified(a, uuid(2), uuid(100)).is_empty());
    subscribe(&mut h, A, 2, 100, "x");
    let (op, _) = cont(h.unsubscribe(uuid(2)));
    let (op, _) = cont(next_un(&mut h, op, Reply::Acknowledged));
    match ended(next_un(&mut h, op, Reply::Timed(None))) {
        Err(BleError::Timeout(cmd)) => assert_eq!(cmd, "unsubscribe"),
        other => panic!("unexpected {:?}", other),
    }
    assert_eq!(h.notified(a, uuid(2), uuid(100)), vec![&"x"]);
    let (op, _) = cont(h.unsubscribe(uuid(2)));
    let (op, _) = cont(next_un(&mut h, op, Reply::Acknowledged));
    lose(&mut h, 10);
    let r = ended(next_un(&mut h, op, Reply::Timed(Some(Ok(())))));
    assert!(matches!(r, Err(BleError::NoDeviceConnected)));
}

#[test]
fn a_subscription_to_a_lost_connection_is_lost() {
    let mut h = handler_with_devices();
    connect(&mut h, A);
    let old = h.connection(A).unwrap().lock;
    let (op, _) = cont(h.subscribe(uuid(2), None, "x"));
    let (op, _) = cont(next(&mut h, op, Reply::Acknowledged));
    lose(&mut h, 10);
    connect(&mut h, A);
    let new = h.connection(A).unwrap().lock;
    assert_ne!(old, new);
    let (op, _) = cont(next(&mut h, op, Reply::Timed(Some(Ok(())))));
    assert!(ended(next(&mut h, op, Reply::Acknowledged)).is_ok());
    assert!(h.notified(old, uuid(2), uuid(100)).is_empty());
    assert!(h.notified(new, uuid(2), uuid(100)).is_empty());
}

#[test]
fn subscriptions_wait_for_each_other() {
    let mut h = handler_with_devices();
    connect(&mut h, A);
    let a = h.connection(A).unwrap().lock;
    let (sub, _) = cont(h.subscribe(uuid(2), None, "x"));
    let (un, _) = cont(h.unsubscribe(uuid(2)));
    let (sub, _) = cont(next(&mut h, sub, Reply::Acknowledged));
    assert!(!un.is_awaiting(&h, &Reply::Acknowledged));
    let (sub, _) = cont(next(&mut h, sub, Reply::Timed(Some(Ok(())))));
    assert!(!un.is_awaiting(&h, &Reply::Acknowledged));
    assert!(ended(next(&mut h, sub, Reply::Acknowledged)).is_ok());
    let (un, _) = cont(next_un(&mut h, un, Reply::Acknowledged));
    let (un, _) = cont(next_un(&mut h, un, Reply::Timed(Some(Ok(())))));
    assert!(ended(next_un(&mut h, un, Reply::Acknowledged)).is_ok());
    assert!(h.notified(a, uuid(2), uuid(100)).is_empty());
}

#[test]
fn listeners_stay_while_they_are_notified() {
    let mut h = handler_with_devices();
    connect(&mut h, A);
    subscribe(&mut h, A, 2, 100, "x");
    let a = h.connection(A).unwrap().lock;
    let (un, _) = cont(h.unsubscribe(uuid(2)));
    let (un, _) = cont(next_un(&mut h, un, Reply::Acknowledged));
    let (un, _) = cont(next_un(&mut h, un, Reply::Timed(Some(Ok(())))));
    assert!(!h.is_held(LockName::Listeners(a)));
    h.begin_notification(a);
    assert!(!un.is_awaiting(&h, &Reply::Acknowledged));
    assert_eq!(h.notified(a, uuid(2), uuid(100)), vec![&"x"]);
    h.release(LockName::Listeners(a));
    assert!(ended(next_un(&mut h, un, Reply::Acknowledged)).is_ok());
    assert!(h.notified(a, uuid(2), uuid(100)).is_empty());
}

#[test]
fn subscription_callbacks_are_wrapped() {
    let f: SubscriptionHandler<u8, u16> = SubscriptionHandler::from(3u8);
    assert!(matches!(f, SubscriptionHandler::Sync(3)));
    let f: SubscriptionHandler<u8, u16> = SubscriptionHandler::from_async(4);
    assert!(matches!(f, SubscriptionHandler::Async(4)));
}

#[test]
fn several_devices_need_an_address() {
    let mut h = handler_with_devices();
    assert!(matches!(ended(h.recv_data(uuid(1), None)), Err(BleError::NoDeviceConnected)));
    connect(&mut h, B);
    connect(&mut h, A);
    match ended(commands::recv(&h, uuid(1), None, None)) {
        Err(BleError::AmbiguousDevice(list)) => {
            assert_eq!(list, vec![A.to_string(), B.to_string()])
        }
        other => panic!("unexpected {:?}", other),
    }
    let r = ended(commands::send(&h, uuid(1), None, vec![], WriteType::WithResponse, None));
    assert!(matches!(r, Err(BleError::AmbiguousDevice(_))));
    let r = ended(commands::subscribe(&h, uuid(1), None, "x", None));
    assert!(matches!(r, Err(BleError::AmbiguousDevice(_))));
    let r = ended(commands::unsubscribe(&h, uuid(1), None));
    assert!(matches!(r, Err(BleError::AmbiguousDevice(_))));
    assert!(matches!(ended(commands::disconnect(&h, None)), Err(BleError::AmbiguousDevice(_))));
    assert!(matches!(commands::mtu(&h, None), Err(BleError::AmbiguousDevice(_))));
    assert_eq!(commands::mtu(&h, Some(B.to_string())).unwrap(), 20);
    let (_, action) = cont(commands::disconnect(&h, Some(B.to_string())));
    assert!(matches!(action, Action::QueryConnected(20)));
    let (_, action) = cont(commands::recv(&h, uuid(1), None, Some(B.to_string())));
    assert!(matches!(action, Action::Read { peripheral: 20, .. }));
    let (op, _) = cont(commands::subscribe(&h, uuid(1), None, "x", Some(A.to_string())));
    assert_eq!(op.target.peripheral, 10);
    let (op, _) = cont(commands::unsubscribe(&h, uuid(1), Some(A.to_string())));
    assert_eq!(op.target.peripheral, 10);
}

#[test]
fn texts_are_sent_as_utf8() {
    let mut h = handler_with_devices();
    connect(&mut h, A);
    let step = commands::send_string(&h, uuid(1), None, "h\u{e9}", WriteType::WithResponse, None);
    match cont(step).1 {
        Action::Write { data, .. } => assert_eq!(data, vec![0x68, 0xc3, 0xa9]),
        other => panic!("unexpected {:?}", other),
    }
    let text = commands::recv_string(Ok(vec![0x68, 0xc3, 0xa9])).unwrap();
    assert_eq!(text, "h\u{e9}");
    assert_eq!(decode_text(vec![0xff]), None);
    let r = commands::recv_string(Err(BleError::NoDeviceConnected));
    assert!(matches!(r, Err(BleError::NoDeviceConnected)));
    assert_eq!(decode_text(encode_text("\u{1F600}")), Some("\u{1F600}".to_string()));
    assert_eq!(decode_text(vec![0xc3]), None);
}

#[test]
fn texts_are_ordered_by_their_bytes() {
    assert!(precedes("", ""));
    assert!(precedes("a", "ab"));
    assert!(!precedes("b", "ab"));
    assert!(precedes("B", "a"));
    assert!(precedes("z", "\u{e9}"));
}

#[test]
fn states_are_streamed_from_the_present_one() {
    let mut h = handler_with_devices();
    assert!(!commands::connection_state(&mut h, 1));
    connect(&mut h, A);
    assert!(commands::connection_state(&mut h, 2));
    assert_eq!(h.connection_update_channels(), &vec![1, 2]);
    assert!(!commands::scanning_state(&mut h, 3, false));
    assert_eq!(h.scanning_update_channels(), &vec![3]);
}

#[test]
fn front_end_scans_are_unfiltered_and_reported() {
    let mut h = handler_with_devices();
    let (op, action) = cont(commands::scan(&h, 300, true));
    assert!(matches!(action, Action::InitAdapter));
    assert!(op.reports);
    assert!(op.allow_ibeacons);
    assert_eq!(op.timeout, 300);
    assert!(matches!(op.filter, ScanFilter::Unfiltered));
    connect(&mut h, B);
    assert!(matches!(ended(commands::connect(&h, B, 9, false)), Err(BleError::AlreadyConnected)));
    let (op, _) = cont(commands::connect(&h, A, 9, false));
    assert!(matches!(op.on_disconnect, OnDisconnectHandler::Sync(9)));
}

fn resume(h: &mut H, op: DiscoverServices, reply: Reply) -> St<DiscoverServices, Vec<Service>> {
    assert!(op.is_awaiting(h, &reply));
    h.resume_discover_services(op, reply)
}

#[test]
fn services_of_a_connected_device() {
    let mut h = handler_with_devices();
    connect(&mut h, A);
    let lock = h.connection(A).unwrap().lock;
    let (op, action) = cont(h.discover_services(A));
    assert!(matches!(action, Action::LacksServices(10)));
    let (op, action) = cont(resume(&mut h, op, Reply::Flag(true)));
    assert!(matches!(action, Action::DiscoverServices { peripheral: 10, guard: Some(l) } if l == lock));
    let (op, action) = cont(resume(&mut h, op, Reply::Timed(Some(Ok(())))));
    assert!(matches!(action, Action::ListServices(10)));
    let list = ended(resume(&mut h, op, Reply::Listed(services()))).unwrap();
    assert_eq!(list.len(), 2);
    assert_eq!(list[1].uuid, uuid(200));
    assert!(h.is_connected_to(A));
}

#[test]
fn services_of_a_device_that_the_host_has_connected() {
    let mut h = handler_with_devices();
    let (op, action) = cont(h.discover_services(A));
    assert!(matches!(action, Action::QueryConnected(10)));
    let (op, action) = cont(resume(&mut h, op, Reply::Queried(Ok(true))));
    assert!(matches!(action, Action::LacksServices(10)));
    let (op, action) = cont(resume(&mut h, op, Reply::Flag(true)));
    assert!(matches!(action, Action::DiscoverServices { peripheral: 10, guard: None }));
    match ended(resume(&mut h, op, Reply::Timed(None))) {
        Err(BleError::Timeout(cmd)) => assert_eq!(cmd, "discover services"),
        other => panic!("unexpected {:?}", other),
    }
    assert!(!h.is_connected_to(A));
}

#[test]
fn a_device_is_connected_for_its_services_and_disconnected() {
    let mut h = handler_with_devices();
    let (op, _) = cont(h.discover_services(B));
    let (op, action) = cont(resume(&mut h, op, Reply::Queried(Ok(false))));
    assert!(matches!(action, Action::QueryConnected(20)));
    assert!(h.has_connection(B));
    let (op, action) = cont(resume(&mut h, op, Reply::Queried(Ok(false))));
    assert!(matches!(action, Action::Connect { peripheral: 20, .. }));
    let (op, _) = cont(resume(&mut h, op, Reply::Timed(Some(Ok(())))));
    let (op, action) = cont(resume(&mut h, op, Reply::Flag(true)));
    assert!(matches!(action, Action::PeekLink(_)));
    let (op, action) = cont(resume(&mut h, op, Reply::Flag(true)));
    assert!(matches!(action, Action::LacksServices(20)));
    let (op, action) = cont(resume(&mut h, op, Reply::Flag(false)));
    assert!(matches!(action, Action::ListServices(20)));
    let (op, action) = cont(resume(&mut h, op, Reply::Listed(services())));
    assert!(matches!(action, Action::ReadLink(_)));
    let (op, action) = cont(resume(&mut h, op, Reply::Flag(true)));
    assert!(matches!(action, Action::Disconnect(20)));
    let (op, action) = cont(resume(&mut h, op, Reply::Finished(Ok(()))));
    assert!(matches!(action, Action::AwaitLink(_)));
    lose(&mut h, 20);
    let list = ended(resume(&mut h, op, Reply::Acknowledged)).unwrap();
    assert_eq!(list.len(), 2);
    assert!(!h.has_connection(B));
}

#[test]
fn failures_of_the_discovery_of_services() {
    let mut h = handler_with_devices();
    match ended(h.discover_services("CC")) {
        Err(BleError::UnknownPeripheral(a)) => assert_eq!(a, "CC"),
        other => panic!("unexpected {:?}", other),
    }
    let (op, _) = cont(h.discover_services(B));
    let failed = Reply::Queried(Err(btleplug::Error::NotConnected));
    assert!(matches!(ended(resume(&mut h, op, failed)), Err(BleError::Btleplug(_))));
    let (op, _) = cont(h.discover_services(B));
    let (op, _) = cont(resume(&mut h, op, Reply::Queried(Ok(false))));
    let failed = Reply::Queried(Err(btleplug::Error::NotConnected));
    assert!(matches!(ended(resume(&mut h, op, failed)), Err(BleError::Btleplug(_))));
    assert!(!h.has_connection(B));
    let (op, _) = cont(h.discover_services(B));
    let (op, _) = cont(resume(&mut h, op, Reply::Queried(Ok(false))));
    let (op, _) = cont(resume(&mut h, op, Reply::Queried(Ok(true))));
    let (op, _) = cont(resume(&mut h, op, Reply::Acknowledged));
    let (op, _) = cont(resume(&mut h, op, Reply::Flag(false)));
    let (op, _) = cont(resume(&mut h, op, Reply::Listed(vec![])));
    let (op, _) = cont(resume(&mut h, op, Reply::Flag(true)));
    let failed = Reply::Finished(Err(btleplug::Error::NotConnected));
    let (op, action) = cont(resume(&mut h, op, failed));
    assert!(matches!(action, Action::Announce(true)));
    let r = ended(resume(&mut h, op, Reply::Acknowledged));
    assert!(matches!(r, Err(BleError::Btleplug(_))));
}
