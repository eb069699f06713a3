//! The calls of a front-end. Where a call takes an optional address, none stands for the only
//! connected device.
use vstd::pervasive::unreached;
use vstd::prelude::*;
use vstd::utf8::{decode_utf8, encode_utf8, valid_utf8};

use crate::callbacks::OnDisconnectHandler;
use crate::connect::{connect_begin, Connect};
use crate::disconnect::{disconnect_begin, DisconnectDevice, DisconnectStep};
use crate::error::{outcome, BleError, ErrorView};
use crate::gatt::{
    recv_begin, send_begin, subscribe_begin, unsubscribe_begin, RecvData, SendData, Subscribe, Target,
    Unsubscribe, UnsubscribeStep,
};
use crate::gatt_laws::calls_keep_address_and_service;
use crate::handler::{Handler, HandlerView};
use crate::models::{PeripheralId, ScanFilter, Uuid, WriteType};
use crate::scan::{discover_begin, Discover, DiscoverStage};
use crate::step::{Action, Step};
use crate::text::{decode_text, encode_text};

verus! {

impl<S, A, C, T> HandlerView<S, A, C, T> {
    /// The address that a call is for.
    pub open spec fn address_for(self, address: Option<String>) -> Result<Seq<char>, ErrorView> {
        match address {
            Some(a) => Ok(a@),
            None => self.default_address(),
        }
    }

    /// The characteristic that a call is for.
    pub open spec fn target_for(self, address: Option<String>, c: Uuid, service: Option<Uuid>) -> Result<
        Target,
        ErrorView,
    > {
        match self.address_for(address) {
            Ok(a) => self.target(a, c, service),
            Err(e) => Err(e),
        }
    }
}

/// Scans for `timeout` milliseconds and reports all devices that are found.
pub fn scan<S, A, C, T>(handler: &Handler<S, A, C, T>, timeout: u64, allow_ibeacons: bool) -> (r: Step<
    Discover,
    S,
    A,
    Result<(), BleError>,
>)
    requires
        handler.wf(),
    ensures
        r.model() == discover_begin::<S, A>(
            (Discover {
                reports: true,
                timeout,
                filter: ScanFilter::Unfiltered,
                allow_ibeacons,
                stage: DiscoverStage::Initializing,
            }),
        ),
        r matches Step::Do(op, _) && op.reports && op.timeout == timeout && op.filter is Unfiltered
            && op.allow_ibeacons == allow_ibeacons,
{
    handler.discover(true, timeout, ScanFilter::Unfiltered, allow_ibeacons)
}

/// Connects the device at the address; the callback runs when it disconnects.
pub fn connect<S, A, C, T>(
    handler: &Handler<S, A, C, T>,
    address: &str,
    on_disconnect: S,
    allow_ibeacons: bool,
) -> (r: Step<Connect<S, A>, S, A, Result<(), BleError>>)
    requires
        handler.wf(),
    ensures
        r.model() == connect_begin(
            handler@,
            address@,
            OnDisconnectHandler::Sync(on_disconnect),
            allow_ibeacons,
        ),
        r is Done == handler@.connections.dom().contains(address@),
        r matches Step::Do(op, _) ==> {
            &&& op.address@ == address@
            &&& op.on_disconnect == OnDisconnectHandler::<S, A>::Sync(on_disconnect)
            &&& op.allow_ibeacons == allow_ibeacons
        },
{
    handler.connect(address, OnDisconnectHandler::from_sync(on_disconnect), allow_ibeacons)
}

/// Disconnects a device.
pub fn disconnect<S, A, C, T>(handler: &Handler<S, A, C, T>, address: Option<String>) -> (r: Step<
    DisconnectDevice<S, A>,
    S,
    A,
    Result<(), BleError>,
>)
    requires
        handler.wf(),
    ensures
        r.model() == match handler@.address_for(address) {
            Ok(a) => disconnect_begin(handler@, a),
            Err(e) => DisconnectStep::<S, A>::Done(Err(e)),
        },
        address matches Some(a) ==> r.model() == disconnect_begin(handler@, a@),
{
    match address {
        Some(a) => handler.disconnect_device(a.as_str()),
        None => handler.disconnect(),
    }
}

/// Takes a channel for changes of whether any device is connected. The result is to be sent
/// over it first: whether any is now.
pub fn connection_state<S, A, C, T>(handler: &mut Handler<S, A, C, T>, update: T) -> (r: bool)
    requires
        old(handler).wf(),
    ensures
        final(handler).wf(),
        final(handler)@ == (HandlerView {
            connection_update_channel: old(handler)@.connection_update_channel.push(update),
            ..old(handler)@
        }),
        r == old(handler)@.connected,
        r == final(handler)@.connected,
{
    handler.set_connection_update_channel(update);
    handler.is_connected()
}

/// Takes a channel for changes of the scanning status. The result is to be sent over it first:
/// whether a scan is running now. `finished` says whether the task of the last scan has ended.
pub fn scanning_state<S, A, C, T>(handler: &mut Handler<S, A, C, T>, update: T, finished: bool) -> (r: bool)
    requires
        old(handler).wf(),
    ensures
        final(handler).wf(),
        final(handler)@ == (HandlerView {
            scan_update_channel: old(handler)@.scan_update_channel.push(update),
            ..old(handler)@
        }),
        r == (old(handler)@.scan_task is Some && !finished),
        r == final(handler)@.scanning(finished),
{
    handler.set_scanning_update_channel(update);
    handler.is_scanning(finished)
}

/// Sends data to a characteristic.
pub fn send<S, A, C, T>(
    handler: &Handler<S, A, C, T>,
    characteristic: Uuid,
    service: Option<Uuid>,
    data: Vec<u8>,
    write_type: WriteType,
    address: Option<String>,
) -> (r: Step<SendData, S, A, Result<(), BleError>>)
    requires
        handler.wf(),
    ensures
        r.model() == send_begin::<S, A>(
            handler@.target_for(address, characteristic, service),
            data,
            write_type,
        ),
        address matches Some(a) ==> r.model() == send_begin::<S, A>(
            handler@.target(a@, characteristic, service),
            data,
            write_type,
        ),
        r matches Step::Do(_, action) ==> (action matches Action::Write {
            charac,
            data: d,
            write_type: w,
            ..
        } && charac.uuid == characteristic && (service matches Some(s) ==> charac.service_uuid == s) && d@
            == data@ && w == write_type),
{
    proof {
        calls_keep_address_and_service(handler@, address, characteristic, service);
    }
    match address {
        Some(a) => handler.send_data_to(a.as_str(), characteristic, service, data, write_type),
        None => handler.send_data(characteristic, service, data, write_type),
    }
}

/// Receives data from a characteristic.
pub fn recv<S, A, C, T>(
    handler: &Handler<S, A, C, T>,
    characteristic: Uuid,
    service: Option<Uuid>,
    address: Option<String>,
) -> (r: Step<RecvData, S, A, Result<Vec<u8>, BleError>>)
    requires
        handler.wf(),
    ensures
        r.model() == recv_begin::<S, A>(handler@.target_for(address, characteristic, service)),
        address matches Some(a) ==> r.model() == recv_begin::<S, A>(
            handler@.target(a@, characteristic, service),
        ),
        r matches Step::Do(_, action) ==> (action matches Action::Read { charac, .. } && charac.uuid
            == characteristic && (service matches Some(s) ==> charac.service_uuid == s)),
{
    proof {
        calls_keep_address_and_service(handler@, address, characteristic, service);
    }
    match address {
        Some(a) => handler.recv_data_from(a.as_str(), characteristic, service),
        None => handler.recv_data(characteristic, service),
    }
}

/// Sends a text to a characteristic, as UTF-8.
pub fn send_string<S, A, C, T>(
    handler: &Handler<S, A, C, T>,
    characteristic: Uuid,
    service: Option<Uuid>,
    data: &str,
    write_type: WriteType,
    address: Option<String>,
) -> (r: Step<SendData, S, A, Result<(), BleError>>)
    requires
        handler.wf(),
    ensures
        exists|bytes: Vec<u8>|
            bytes@ == encode_utf8(data@) && r.model() == #[trigger] send_begin::<S, A>(
                handler@.target_for(address, characteristic, service),
                bytes,
                write_type,
            ),
        r matches Step::Do(_, action) ==> (action matches Action::Write {
            charac,
            data: d,
            write_type: w,
            ..
        } && charac.uuid == characteristic && (service matches Some(s) ==> charac.service_uuid == s) && d@
            == encode_utf8(data@) && w == write_type),
{
    let bytes = encode_text(data);
    send(handler, characteristic, service, bytes, write_type, address)
}

/// The text that was received from a characteristic, as UTF-8. `received` is the result of
/// receiving the data, which must be well-formed.
pub fn recv_string(received: Result<Vec<u8>, BleError>) -> (r: Result<String, BleError>)
    requires
        received matches Ok(data) ==> valid_utf8(data@),
    ensures
        match received {
            Err(e) => r matches Err(e2) && e2@ == e@,
            Ok(data) => r matches Ok(s) && s@ == decode_utf8(data@) && encode_utf8(s@) == data@,
        },
{
    match received {
        Ok(data) => {
            proof {
                vstd::utf8::decode_utf8_encode_utf8(data@);
            }
            match decode_text(data) {
                Some(text) => Ok(text),
                None => unreached(),
            }
        },
        Err(e) => Err(e),
    }
}

/// Subscribes to the notifications of a characteristic.
pub fn subscribe<S, A, C, T>(
    handler: &Handler<S, A, C, T>,
    characteristic: Uuid,
    service: Option<Uuid>,
    on_data: C,
    address: Option<String>,
) -> (r: Step<Subscribe<C>, S, A, Result<(), BleError>>)
    requires
        handler.wf(),
    ensures
        r.model() == subscribe_begin::<S, A, C>(
            handler@.target_for(address, characteristic, service),
            on_data,
        ),
        address matches Some(a) ==> r.model() == subscribe_begin::<S, A, C>(
            handler@.target(a@, characteristic, service),
            on_data,
        ),
        r matches Step::Do(op, _) ==> {
            &&& op.target.charac.uuid == characteristic
            &&& service matches Some(s) ==> op.target.charac.service_uuid == s
            &&& op.callback == on_data
        },
{
    proof {
        calls_keep_address_and_service(handler@, address, characteristic, service);
    }
    match address {
        Some(a) => handler.subscribe_to(a.as_str(), characteristic, service, on_data),
        None => handler.subscribe(characteristic, service, on_data),
    }
}

/// Unsubscribes from the notifications of a characteristic.
pub fn unsubscribe<S, A, C, T>(
    handler: &Handler<S, A, C, T>,
    characteristic: Uuid,
    address: Option<String>,
) -> (r: Step<Unsubscribe, S, A, Result<(), BleError>>)
    requires
        handler.wf(),
    ensures
        r.model() == match handler@.address_for(address) {
            Ok(a) => unsubscribe_begin(handler@, a, characteristic),
            Err(e) => UnsubscribeStep::<S, A>::Done(Err(e)),
        },
        address matches Some(a) ==> r.model() == unsubscribe_begin(handler@, a@, characteristic),
{
    match address {
        Some(a) => handler.unsubscribe_from(a.as_str(), characteristic),
        None => handler.unsubscribe(characteristic),
    }
}

/// The peripheral whose MTU is asked for.
pub fn mtu<S, A, C, T>(handler: &Handler<S, A, C, T>, address: Option<String>) -> (r: Result<
    PeripheralId,
    BleError,
>)
    requires
        handler.wf(),
    ensures
        outcome(r) == match handler@.address_for(address) {
            Ok(a) => handler@.peripheral_at(a),
            Err(e) => Err(e),
        },
        address matches Some(a) ==> outcome(r) == handler@.peripheral_at(a@),
{
    match address {
        Some(a) => handler.mtu_of(a.as_str()),
        None => handler.mtu(),
    }
}

} // verus!
