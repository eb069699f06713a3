use blec::error::BleError as Error;
use blec::resolve::resolve_default_address;

#[test]
fn resolve_default_address_errors_when_nothing_connected() {
    let addresses: Vec<String> = vec![];
    let result = resolve_default_address(&addresses);
    assert!(matches!(result, Err(Error::NoDeviceConnected)));
}

#[test]
fn resolve_default_address_picks_the_sole_connection() {
    let addresses = vec!["AA:BB:CC:DD:EE:FF".to_string()];
    let result = resolve_default_address(&addresses);
    assert_eq!(result.unwrap(), "AA:BB:CC:DD:EE:FF");
}

#[test]
fn resolve_default_address_is_ambiguous_with_multiple_connections() {
    let addresses = vec![
        "11:11:11:11:11:11".to_string(),
        "00:00:00:00:00:00".to_string(),
        "22:22:22:22:22:22".to_string(),
    ];
    let result = resolve_default_address(&addresses);
    match result {
        Err(Error::AmbiguousDevice(reported)) => {
            assert_eq!(
                reported,
                vec![
                    "00:00:00:00:00:00".to_string(),
                    "11:11:11:11:11:11".to_string(),
                    "22:22:22:22:22:22".to_string(),
                ]
            );
        }
        other => panic!("expected AmbiguousDevice, got {other:?}"),
    }
}
