//! The errors of the library.
use vstd::prelude::*;

verus! {

/// Declares `btleplug::Error`, which is carried through unchanged and never looked into.
#[verifier::external_type_specification]
#[verifier::external_body]
pub struct ExBtleplugError(btleplug::Error);

/// What can go wrong.
#[derive(Debug)]
pub enum BleError {
    /// The adapter reported an error.
    Btleplug(btleplug::Error),
    /// The named operation took too long.
    Timeout(String),
    /// The host has no Bluetooth adapter.
    NoAdapters,
    /// No such device is connected.
    NoDeviceConnected,
    /// More than one device is connected, and the call does not say which one it is for.
    AmbiguousDevice(Vec<String>),
    /// The device is connected already.
    AlreadyConnected,
    /// No device was discovered under the address.
    UnknownPeripheral(String),
    /// The adapter's event says that the device is not connected.
    ConnectionFailed,
    /// The adapter's event says that the device is still connected.
    DisconnectFailed,
    /// The device has no characteristic with the identifier.
    CharacNotAvailable(String),
    /// The data and the mask of a filter differ in length.
    InvalidFilterMask,
}

/// The mathematical model of [`BleError`].
#[verifier::ext_equal]
pub enum ErrorView {
    Btleplug(btleplug::Error),
    Timeout(Seq<char>),
    NoAdapters,
    NoDeviceConnected,
    AmbiguousDevice(Seq<Seq<char>>),
    AlreadyConnected,
    UnknownPeripheral(Seq<char>),
    ConnectionFailed,
    DisconnectFailed,
    CharacNotAvailable(Seq<char>),
    InvalidFilterMask,
}

/// The texts of a list of strings.
pub open spec fn texts(s: Seq<String>) -> Seq<Seq<char>> {
    s.map_values(|t: String| t@)
}

impl View for BleError {
    type V = ErrorView;

    open spec fn view(&self) -> ErrorView {
        match *self {
            BleError::Btleplug(e) => ErrorView::Btleplug(e),
            BleError::Timeout(cmd) => ErrorView::Timeout(cmd@),
            BleError::NoAdapters => ErrorView::NoAdapters,
            BleError::NoDeviceConnected => ErrorView::NoDeviceConnected,
            BleError::AmbiguousDevice(l) => ErrorView::AmbiguousDevice(texts(l@)),
            BleError::AlreadyConnected => ErrorView::AlreadyConnected,
            BleError::UnknownPeripheral(a) => ErrorView::UnknownPeripheral(a@),
            BleError::ConnectionFailed => ErrorView::ConnectionFailed,
            BleError::DisconnectFailed => ErrorView::DisconnectFailed,
            BleError::CharacNotAvailable(u) => ErrorView::CharacNotAvailable(u@),
            BleError::InvalidFilterMask => ErrorView::InvalidFilterMask,
        }
    }
}

/// The model of a result: the error by its model.
pub open spec fn outcome<R>(r: Result<R, BleError>) -> Result<R, ErrorView> {
    match r {
        Ok(v) => Ok(v),
        Err(e) => Err(e@),
    }
}

/// What an operation of the adapter comes to: its value or its error.
pub open spec fn adapter_outcome<R>(r: Result<R, btleplug::Error>) -> Result<R, ErrorView> {
    match r {
        Ok(v) => Ok(v),
        Err(e) => Err(ErrorView::Btleplug(e)),
    }
}

/// What an operation with a time limit comes to: a timeout under the name of the operation
/// when the limit passed, else its value or its error.
pub open spec fn timed_outcome<R>(
    r: Option<Result<R, btleplug::Error>>,
    cmd: Seq<char>,
) -> Result<R, ErrorView> {
    match r {
        Some(done) => adapter_outcome(done),
        None => Err(ErrorView::Timeout(cmd)),
    }
}

/// The result of an operation of the adapter, with the adapter's error as one of ours.
pub fn run<R>(done: Result<R, btleplug::Error>) -> (r: Result<R, BleError>)
    ensures
        outcome(r) == adapter_outcome(done),
{
    match done {
        Ok(v) => Ok(v),
        Err(e) => Err(BleError::Btleplug(e)),
    }
}

/// The result of an operation that ran under a time limit. `done` is `None` when the limit
/// passed first; `cmd` is the name of the operation.
pub fn run_with_timeout<R>(done: Option<Result<R, btleplug::Error>>, cmd: &str) -> (r: Result<
    R,
    BleError,
>)
    ensures
        outcome(r) == timed_outcome(done, cmd@),
{
    match done {
        Some(done) => run(done),
        None => Err(BleError::Timeout(cmd.to_owned())),
    }
}

/// How long an operation of the adapter with a time limit may take, in milliseconds.
pub const TIME_LIMIT_MS: u64 = 5000;

} // verus!
