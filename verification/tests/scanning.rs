use blec::adapter::{get_central, InitAdapter};
use blec::error::BleError;
use blec::filter::{filter_peripherals, is_valid_filter, passes, Sighting};
use blec::handler::Handler;
use blec::models::{
    AdapterState, BleDevice, CentralState, LockName, Properties, ScanFilter, Uuid,
};
use blec::scan::{readable_devices, Discover, ScanTask, StopScan};
use blec::step::{Action, Reply, Step};
use std::collections::HashMap;

type H = Handler<(), (), (), u8>;
type St<O, R> = Step<O, (), (), Result<R, BleError>>;

fn cont<O, R>(step: St<O, R>) -> (O, Action<(), ()>) {
    match step {
        Step::Do(op, action) => (op, action),
        Step::Done(_) => panic!("the operation has ended"),
    }
}

fn ended<O, R>(step: St<O, R>) -> Result<R, BleError> {
    match step {
        Step::Do(_, action) => panic!("the operation asks for {:?}", action),
        Step::Done(r) => r,
    }
}

fn uuid(value: u128) -> Uuid {
    Uuid { value }
}

fn sighting(peripheral: u64, rssi: Option<i16>, services: Vec<u128>, data: Vec<(u16, Vec<u8>)>) -> Sighting {
    let mut manufacturer_data = HashMap::new();
    for (k, v) in data {
        manufacturer_data.insert(k, v);
    }
    Sighting {
        peripheral,
        properties: Some(Properties {
            rssi,
            services: services.into_iter().map(uuid).collect(),
            manufacturer_data,
        }),
    }
}

fn device(address: &str, name: &str) -> Result<BleDevice, BleError> {
    Ok(BleDevice {
        address: address.to_string(),
        name: name.to_string(),
        is_connected: false,
        services: vec![],
    })
}

fn left(seen: Vec<Sighting>, filter: ScanFilter) -> Vec<u64> {
    let mut seen = seen;
    filter_peripherals(&mut seen, &filter);
    seen.iter().map(|s| s.peripheral).collect()
}

#[test]
fn without_a_filter_all_stay() {
    let seen = vec![
        Sighting { peripheral: 1, properties: None },
        sighting(2, None, vec![], vec![]),
        sighting(3, Some(-40), vec![], vec![]),
    ];
    assert_eq!(left(seen, ScanFilter::Unfiltered), vec![1, 2, 3]);
}

#[test]
fn unknown_properties_or_signal_do_not_pass() {
    let f = ScanFilter::AllServices(vec![]);
    assert!(!passes(&f, &Sighting { peripheral: 1, properties: None }));
    assert!(!passes(&f, &sighting(2, None, vec![], vec![])));
    assert!(passes(&f, &sighting(3, Some(-40), vec![], vec![])));
}

#[test]
fn service_filters() {
    let s = sighting(1, Some(0), vec![5, 6], vec![]);
    assert!(passes(&ScanFilter::Service(uuid(5)), &s));
    assert!(!passes(&ScanFilter::Service(uuid(7)), &s));
    assert!(passes(&ScanFilter::AnyService(vec![uuid(7), uuid(6)]), &s));
    assert!(!passes(&ScanFilter::AnyService(vec![uuid(7), uuid(8)]), &s));
    assert!(!passes(&ScanFilter::AnyService(vec![]), &s));
    assert!(passes(&ScanFilter::AllServices(vec![uuid(6), uuid(5)]), &s));
    assert!(!passes(&ScanFilter::AllServices(vec![uuid(6), uuid(7)]), &s));
    assert!(passes(&ScanFilter::AnyService(vec![uuid(5)]), &s));
    assert!(passes(&ScanFilter::AllServices(vec![uuid(5)]), &s));
}

#[test]
fn manufacturer_data_filters() {
    let s = sighting(1, Some(0), vec![], vec![(9, vec![0x12, 0x34])]);
    assert!(passes(&ScanFilter::ManufacturerData(9, vec![0x12, 0x34]), &s));
    assert!(!passes(&ScanFilter::ManufacturerData(9, vec![0x12]), &s));
    assert!(!passes(&ScanFilter::ManufacturerData(8, vec![0x12, 0x34]), &s));
    let masked = |v: Vec<u8>, m: Vec<u8>| ScanFilter::ManufacturerDataMasked(9, v, m);
    assert!(passes(&masked(vec![0x1f, 0x30], vec![0xf0, 0xf0]), &s));
    assert!(!passes(&masked(vec![0x2f, 0x30], vec![0xf0, 0xf0]), &s));
    assert!(passes(&masked(vec![0x12], vec![0xff]), &s));
    assert!(passes(&masked(vec![0x12, 0x34, 0x56], vec![0xff, 0xff, 0xff]), &s));
    assert!(!passes(&ScanFilter::ManufacturerDataMasked(8, vec![], vec![]), &s));
}

#[test]
fn the_last_takes_the_place_of_one_that_goes() {
    let on = |p: u64| sighting(p, Some(0), vec![5], vec![]);
    let off = |p: u64| sighting(p, Some(0), vec![], vec![]);
    let f = || ScanFilter::Service(uuid(5));
    assert_eq!(left(vec![off(1), on(2), on(3)], f()), vec![3, 2]);
    assert_eq!(left(vec![on(1), off(2), on(3), off(4)], f()), vec![1, 3]);
    assert_eq!(left(vec![off(1), off(2)], f()), Vec::<u64>::new());
    assert_eq!(left(vec![off(1), on(2), off(3), on(4), on(5)], f()), vec![4, 2, 5]);
}

#[test]
fn a_mask_must_fit_its_data() {
    assert!(is_valid_filter(&ScanFilter::ManufacturerDataMasked(1, vec![1], vec![2])));
    let bad = ScanFilter::ManufacturerDataMasked(1, vec![1], vec![2, 3]);
    assert!(!is_valid_filter(&bad));
    let h: H = Handler::new();
    assert!(matches!(ended(h.discover(true, 1, bad, false)), Err(BleError::InvalidFilterMask)));
}

fn resume(h: &mut H, op: Discover, reply: Reply) -> St<Discover, ()> {
    assert!(op.is_awaiting(h, &reply));
    h.resume_discover(op, reply)
}

fn resume_task(h: &mut H, op: ScanTask, reply: Reply) -> St<ScanTask, ()> {
    assert!(op.is_awaiting(&reply));
    h.resume_scan_task(op, reply)
}

fn resume_stop(h: &mut H, op: StopScan, reply: Reply) -> St<StopScan, ()> {
    assert!(op.is_awaiting(h, &reply));
    h.resume_stop_scan(op, reply)
}

fn started(h: &mut H, timeout: u64, filter: ScanFilter, reports: bool) -> ScanTask {
    let (op, action) = cont(h.discover(reports, timeout, filter, true));
    assert!(matches!(action, Action::InitAdapter));
    let (op, action) = cont(resume(h, op, Reply::Initialized(Ok(4))));
    assert!(matches!(action, Action::Lock(LockName::Scan)));
    let (op, action) = cont(resume(h, op, Reply::Acknowledged));
    assert!(h.is_held(LockName::Scan));
    assert!(matches!(action, Action::StartAdapterScan { adapter: 4, allow_ibeacons: true }));
    let (op, action) = cont(resume(h, op, Reply::Finished(Ok(()))));
    assert!(matches!(action, Action::Unlock(LockName::Scan)));
    assert!(!h.is_held(LockName::Scan));
    let (op, action) = cont(resume(h, op, Reply::Acknowledged));
    assert!(matches!(action, Action::AnnounceScan(true)));
    let (op, action) = cont(resume(h, op, Reply::Acknowledged));
    assert!(matches!(action, Action::Lock(LockName::Scan)));
    let (op, action) = cont(resume(h, op, Reply::Acknowledged));
    assert!(ended(resume(h, op, Reply::Acknowledged)).is_ok());
    match action {
        Action::SpawnScan(task) => task,
        other => panic!("unexpected {:?}", other),
    }
}

#[test]
fn a_scan_reports_sorted_devices() {
    let mut h: H = Handler::new();
    let _ = h.add_devices(vec![1], vec![device("old", "")]);
    let task = started(&mut h, 450, ScanFilter::Service(uuid(5)), true);
    let id = task.task;
    assert_eq!(h.scan_task(), Some(id));
    assert!(h.is_scanning(false));
    assert!(!h.is_scanning(true));
    let (op, action) = cont(h.start_scan_task(task));
    assert!(h.has_no_devices());
    assert!(matches!(action, Action::Sleep(200)));
    let (op, action) = cont(resume_task(&mut h, op, Reply::Acknowledged));
    assert!(matches!(action, Action::ListPeripherals { adapter: 4, with_properties: true }));
    let seen = vec![
        sighting(21, Some(0), vec![5], vec![]),
        sighting(22, Some(0), vec![], vec![]),
        sighting(23, Some(0), vec![5], vec![]),
        sighting(24, Some(0), vec![5], vec![]),
    ];
    let (op, action) = cont(resume_task(&mut h, op, Reply::Sighted(seen)));
    match action {
        Action::Describe(list) => assert_eq!(list, vec![21, 24, 23]),
        other => panic!("unexpected {:?}", other),
    }
    let readings = vec![device("b", "1"), Err(BleError::NoAdapters), device("a", "2")];
    assert!(!op.is_awaiting(&Reply::Described(vec![])));
    let (op, action) = cont(resume_task(&mut h, op, Reply::Described(readings)));
    match action {
        Action::Report { scan, devices } => {
            assert_eq!(scan, id);
            let list: Vec<&str> = devices.iter().map(|d| d.address.as_str()).collect();
            assert_eq!(list, vec!["a", "b"]);
        }
        other => panic!("unexpected {:?}", other),
    }
    assert_eq!(h.device("b"), Some(21));
    assert_eq!(h.device("a"), Some(23));
    assert_eq!(h.device("old"), None);
    let (op, action) = cont(resume_task(&mut h, op, Reply::Acknowledged));
    assert!(matches!(action, Action::Sleep(200)));
    let (op, _) = cont(resume_task(&mut h, op, Reply::Acknowledged));
    let (op, _) = cont(resume_task(&mut h, op, Reply::Sighted(vec![])));
    let (op, action) = cont(resume_task(&mut h, op, Reply::Described(vec![])));
    assert!(matches!(action, Action::StopAdapterScan(4)));
    let failed = Reply::Finished(Err(btleplug::Error::NotConnected));
    let (op, action) = cont(resume_task(&mut h, op, failed));
    assert!(matches!(action, Action::AnnounceScan(false)));
    assert!(ended(resume_task(&mut h, op, Reply::Acknowledged)).is_ok());
}

fn rounds(timeout: u64) -> u64 {
    let mut h: H = Handler::new();
    let task = started(&mut h, timeout, ScanFilter::Unfiltered, false);
    let (mut op, mut action) = cont(h.start_scan_task(task));
    let mut n = 0;
    while matches!(action, Action::Sleep(200)) {
        n += 1;
        let (o, a) = cont(resume_task(&mut h, op, Reply::Acknowledged));
        assert!(matches!(a, Action::ListPeripherals { with_properties: false, .. }));
        let one = Sighting { peripheral: 1, properties: None };
        let (o, _) = cont(resume_task(&mut h, o, Reply::Sighted(vec![one])));
        let (o, a) = cont(resume_task(&mut h, o, Reply::Described(vec![device("a", "")])));
        op = o;
        action = a;
    }
    assert!(matches!(action, Action::StopAdapterScan(4)));
    n
}

#[test]
fn a_scan_has_a_round_for_each_fifth_of_a_second() {
    assert_eq!(rounds(0), 1);
    assert_eq!(rounds(199), 1);
    assert_eq!(rounds(200), 1);
    assert_eq!(rounds(400), 2);
    assert_eq!(rounds(1000), 5);
    assert_eq!(rounds(1199), 5);
}

#[test]
fn a_new_scan_ends_the_last_one() {
    let mut h: H = Handler::new();
    let first = started(&mut h, 200, ScanFilter::Unfiltered, false).task;
    let (op, _) = cont(h.discover(false, 200, ScanFilter::Unfiltered, true));
    let (op, _) = cont(resume(&mut h, op, Reply::Initialized(Ok(4))));
    let (op, action) = cont(resume(&mut h, op, Reply::Acknowledged));
    assert!(matches!(action, Action::AbortTask(t) if t == first));
    let (op, action) = cont(resume(&mut h, op, Reply::Acknowledged));
    assert!(matches!(action, Action::StopAdapterScan(4)));
    let failed = Reply::Finished(Err(btleplug::Error::NotConnected));
    let (op, action) = cont(resume(&mut h, op, failed));
    assert!(matches!(action, Action::StartAdapterScan { .. }));
    let failed = Reply::Finished(Err(btleplug::Error::NotConnected));
    let r = ended(resume(&mut h, op, failed));
    assert!(matches!(r, Err(BleError::Btleplug(btleplug::Error::NotConnected))));
    assert_eq!(h.scan_task(), None);
    assert!(!h.is_held(LockName::Scan));
}

#[test]
fn scans_are_ended_and_started_one_at_a_time() {
    let mut h: H = Handler::new();
    let _ = started(&mut h, 200, ScanFilter::Unfiltered, false);
    let (one, _) = cont(h.discover(false, 200, ScanFilter::Unfiltered, true));
    let (two, _) = cont(h.discover(false, 200, ScanFilter::Unfiltered, true));
    let (one, _) = cont(resume(&mut h, one, Reply::Initialized(Ok(4))));
    let (two, _) = cont(resume(&mut h, two, Reply::Initialized(Ok(4))));
    let (three, _) = cont(h.stop_scan());
    let (one, action) = cont(resume(&mut h, one, Reply::Acknowledged));
    assert!(matches!(action, Action::AbortTask(_)));
    assert!(!two.is_awaiting(&h, &Reply::Acknowledged));
    assert!(!three.is_awaiting(&h, &Reply::Acknowledged));
    let (one, _) = cont(resume(&mut h, one, Reply::Acknowledged));
    let (one, _) = cont(resume(&mut h, one, Reply::Finished(Ok(()))));
    assert!(!two.is_awaiting(&h, &Reply::Acknowledged));
    let failed = Reply::Finished(Err(btleplug::Error::NotConnected));
    assert!(ended(resume(&mut h, one, failed)).is_err());
    let (_, action) = cont(resume(&mut h, two, Reply::Acknowledged));
    assert!(matches!(action, Action::StartAdapterScan { .. }));
}

#[test]
fn a_scan_needs_an_adapter() {
    let mut h: H = Handler::new();
    let (op, _) = cont(h.discover(false, 200, ScanFilter::Unfiltered, true));
    let r = ended(resume(&mut h, op, Reply::Initialized(Err(BleError::NoAdapters))));
    assert!(matches!(r, Err(BleError::NoAdapters)));
    let (op, _) = cont(h.stop_scan());
    let (op, action) = cont(resume_stop(&mut h, op, Reply::Acknowledged));
    assert!(matches!(action, Action::Unlock(LockName::Scan)));
    let (op, _) = cont(resume_stop(&mut h, op, Reply::Acknowledged));
    let r = ended(resume_stop(&mut h, op, Reply::Initialized(Err(BleError::NoAdapters))));
    assert!(matches!(r, Err(BleError::NoAdapters)));
}

#[test]
fn stopping_a_scan_aborts_its_task() {
    let mut h: H = Handler::new();
    let task = started(&mut h, 200, ScanFilter::Unfiltered, false).task;
    let (op, action) = cont(h.stop_scan());
    assert!(matches!(action, Action::Lock(LockName::Scan)));
    let (op, action) = cont(resume_stop(&mut h, op, Reply::Acknowledged));
    assert!(matches!(action, Action::AbortTask(t) if t == task));
    assert!(!h.is_scanning(false));
    let (op, action) = cont(resume_stop(&mut h, op, Reply::Acknowledged));
    assert!(matches!(action, Action::Unlock(LockName::Scan)));
    let (op, action) = cont(resume_stop(&mut h, op, Reply::Acknowledged));
    assert!(matches!(action, Action::InitAdapter));
    let (op, action) = cont(resume_stop(&mut h, op, Reply::Initialized(Ok(4))));
    assert!(matches!(action, Action::StopAdapterScan(4)));
    let failed = Reply::Finished(Err(btleplug::Error::NotConnected));
    let (op, action) = cont(resume_stop(&mut h, op, failed));
    assert!(matches!(action, Action::AnnounceScan(false)));
    assert!(ended(resume_stop(&mut h, op, Reply::Acknowledged)).is_ok());
}

#[test]
fn devices_with_one_address_keep_their_order() {
    let mut h: H = Handler::new();
    let readings = vec![device("b", "1"), device("a", "2"), device("b", "3"), device("a", "4")];
    let devices = h.add_devices(vec![1, 2, 3, 4], readings);
    let names: Vec<&str> = devices.iter().map(|d| d.name.as_str()).collect();
    assert_eq!(names, vec!["2", "4", "1", "3"]);
    assert_eq!(h.device("a"), Some(4));
    assert_eq!(h.device("b"), Some(3));
}

#[test]
fn unreadable_devices_are_left_out() {
    let devices = readable_devices(vec![device("b", ""), Err(BleError::NoAdapters), device("a", "")]);
    let list: Vec<&str> = devices.iter().map(|d| d.address.as_str()).collect();
    assert_eq!(list, vec!["b", "a"]);
}

#[test]
fn the_first_adapter_is_used() {
    assert_eq!(get_central(vec![5, 6]).unwrap(), 5);
    assert!(matches!(get_central(Vec::<u64>::new()), Err(BleError::NoAdapters)));
    let mut h: H = Handler::new();
    assert!(matches!(ended(listed(&mut h, Ok(vec![]))), Err(BleError::NoAdapters)));
    let r = ended(listed(&mut h, Err(btleplug::Error::NotConnected)));
    assert!(matches!(r, Err(BleError::Btleplug(btleplug::Error::NotConnected))));
    assert!(!h.is_held(LockName::Adapter));
    let (op, action) = cont(listed(&mut h, Ok(vec![5, 6])));
    assert!(matches!(action, Action::ListenToEvents(5)));
    assert_eq!(h.adapter(), None);
    assert_eq!(ended(resume_init(&mut h, op, Reply::Acknowledged)).unwrap(), 5);
    assert_eq!(h.adapter(), Some(5));
    assert_eq!(ended(h.get_or_init_adapter()).unwrap(), 5);
}

fn resume_init(h: &mut H, op: InitAdapter, reply: Reply) -> St<InitAdapter, u64> {
    assert!(op.is_awaiting(h, &reply));
    h.resume_init_adapter(op, reply)
}

fn listed(h: &mut H, adapters: Result<Vec<u64>, btleplug::Error>) -> St<InitAdapter, u64> {
    let (op, action) = cont(h.get_or_init_adapter());
    assert!(matches!(action, Action::Lock(LockName::Adapter)));
    let (op, action) = cont(resume_init(h, op, Reply::Acknowledged));
    assert!(matches!(action, Action::ListAdapters));
    resume_init(h, op, Reply::Adapters(adapters))
}

#[test]
fn the_adapter_is_initialized_once() {
    let mut h: H = Handler::new();
    let (one, _) = cont(h.get_or_init_adapter());
    let (two, _) = cont(h.get_or_init_adapter());
    let (one, _) = cont(resume_init(&mut h, one, Reply::Acknowledged));
    assert!(!two.is_awaiting(&h, &Reply::Acknowledged));
    let (one, _) = cont(resume_init(&mut h, one, Reply::Adapters(Ok(vec![5]))));
    assert_eq!(ended(resume_init(&mut h, one, Reply::Acknowledged)).unwrap(), 5);
    assert_eq!(ended(resume_init(&mut h, two, Reply::Acknowledged)).unwrap(), 5);
    assert_eq!(h.adapter(), Some(5));
}

#[test]
fn the_state_of_the_adapter() {
    let h: H = Handler::new();
    assert_eq!(h.get_adapter_state(&Ok(Ok(CentralState::PoweredOn))), AdapterState::On);
    assert_eq!(h.get_adapter_state(&Ok(Ok(CentralState::PoweredOff))), AdapterState::Off);
    assert_eq!(h.get_adapter_state(&Ok(Ok(CentralState::Unknown))), AdapterState::Unknown);
    assert_eq!(
        h.get_adapter_state(&Ok(Err(btleplug::Error::NotConnected))),
        AdapterState::Unknown
    );
    assert_eq!(h.get_adapter_state(&Err(BleError::NoAdapters)), AdapterState::Unknown);
}
