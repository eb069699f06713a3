//! The plain values that the handler works on.
use std::collections::HashMap;
use vstd::arithmetic::power::pow;
use vstd::prelude::*;

use crate::text::Addressed;

verus! {

/// A peripheral as the adapter knows it. Equal numbers stand for the same peripheral.
pub type PeripheralId = u64;

/// The lock that serializes the GATT operations of one connection.
pub type LockId = u64;

/// A lock that an operation takes in one step and gives back in a later one.
#[derive(Clone, Copy, Debug, PartialEq, Eq, Hash, Structural)]
pub enum LockName {
    /// The lock of one connection, for its GATT operations.
    Device(LockId),
    /// The lock of the listeners of the connection with that lock. It is held while their
    /// callbacks run.
    Listeners(LockId),
    /// The lock for ending one scan and starting another.
    Scan,
    /// The lock for initializing the adapter.
    Adapter,
}

/// The channel that carries the connection state of one device.
pub type LinkId = u64;

/// What is known of a link: its number, and the value that it was told last.
#[derive(Clone, Copy, Debug, PartialEq, Eq, Structural)]
pub struct LinkState {
    pub link: LinkId,
    pub told: bool,
}

impl View for LinkState {
    type V = LinkState;

    open spec fn view(&self) -> LinkState {
        *self
    }
}

/// A task that runs in the background.
pub type TaskId = u64;

/// An adapter of the host.
pub type AdapterId = u64;

/// A 128-bit identifier of a service or a characteristic.
#[derive(Clone, Copy, Debug, PartialEq, Eq, Structural)]
pub struct Uuid {
    pub value: u128,
}

/// The `n`-th of the 32 hexadecimal digits of `value`, the most significant first.
pub open spec fn nibble(value: u128, n: int) -> int {
    (value as int / pow(16, (31 - n) as nat)) % 16
}

/// A hexadecimal digit in lower case.
pub open spec fn hex_digit(d: int) -> char {
    if d < 10 {
        ('0' as int + d) as char
    } else {
        ('a' as int + d - 10) as char
    }
}

/// How many of the separators stand before position `i`.
pub open spec fn separators_before(i: int) -> int {
    if i < 8 {
        0
    } else if i < 13 {
        1
    } else if i < 18 {
        2
    } else if i < 23 {
        3
    } else {
        4
    }
}

/// The 32 hexadecimal digits in groups of 8, 4, 4, 4 and 12, with a hyphen between groups.
pub open spec fn hyphenated(value: u128) -> Seq<char> {
    Seq::new(
        36,
        |i: int|
            if i == 8 || i == 13 || i == 18 || i == 23 {
                '-'
            } else {
                hex_digit(nibble(value, i - separators_before(i)))
            },
    )
}

/// The hyphenated form has 36 characters. The hyphens stand in their four places, and elsewhere
/// stand the hexadecimal digits of the identifier, none of them in upper case, the most significant
/// first.
pub proof fn the_hyphenated_form_has_its_places(value: u128)
    ensures
        ({
            let text = hyphenated(value);
            &&& text.len() == 36
            &&& forall|i: int|
                0 <= i < 36 ==> (#[trigger] text[i] == '-') == (i == 8 || i == 13 || i == 18 || i == 23)
            &&& forall|i: int|
                0 <= i < 36 && #[trigger] text[i] != '-' ==> '0' <= text[i] <= '9' || 'a' <= text[i] <= 'f'
            &&& text[0] == hex_digit((value as int / pow(16, 31)) % 16)
            &&& text[9] == hex_digit((value as int / pow(16, 23)) % 16)
            &&& text[14] == hex_digit((value as int / pow(16, 19)) % 16)
            &&& text[19] == hex_digit((value as int / pow(16, 15)) % 16)
            &&& text[24] == hex_digit((value as int / pow(16, 11)) % 16)
            &&& text[35] == hex_digit((value as int / pow(16, 0)) % 16)
        }),
{
}

/// Calls `to_string` on the `uuid::Uuid` that `Uuid::from_u128` makes of `value`: the
/// hyphenated form, in lower case, the most significant digit first.
#[verifier::external_body]
fn uuid_to_string(value: u128) -> (r: String)
    ensures
        r@ == hyphenated(value),
{
    uuid::Uuid::from_u128(value).to_string()
}

impl Uuid {
    /// The hyphenated form.
    pub fn to_text(&self) -> (r: String)
        ensures
            r@ == hyphenated(self.value),
    {
        uuid_to_string(self.value)
    }
}

/// A characteristic of a connected device. `handle` names the adapter's own record of it.
#[derive(Clone, Copy, Debug, PartialEq, Eq, Structural)]
pub struct Characteristic {
    pub uuid: Uuid,
    pub service_uuid: Uuid,
    pub handle: u64,
}

/// A service with its characteristics, in the order in which the adapter lists them.
#[derive(Debug)]
pub struct Service {
    pub uuid: Uuid,
    pub characteristics: Vec<Characteristic>,
}

/// What a device advertises, as far as a scan filter looks at it.
#[derive(Debug)]
pub struct Properties {
    pub rssi: Option<i16>,
    pub services: Vec<Uuid>,
    pub manufacturer_data: HashMap<u16, Vec<u8>>,
}

/// Which of the discovered devices a scan reports.
#[derive(Debug)]
pub enum ScanFilter {
    /// All of them.
    Unfiltered,
    /// Those that advertise the service.
    Service(Uuid),
    /// Those that advertise at least one of the services.
    AnyService(Vec<Uuid>),
    /// Those that advertise all of the services.
    AllServices(Vec<Uuid>),
    /// Those that advertise exactly this data under the manufacturer's key.
    ManufacturerData(u16, Vec<u8>),
    /// Those whose data under the manufacturer's key agree with the second field wherever
    /// the third, the mask, has a one.
    ManufacturerDataMasked(u16, Vec<u8>, Vec<u8>),
}

/// How a value is written.
#[derive(Clone, Copy, Debug, PartialEq, Eq, Structural)]
pub enum WriteType {
    WithResponse,
    WithoutResponse,
}

/// The state of the adapter.
#[derive(Clone, Copy, Debug, PartialEq, Eq, Structural)]
pub enum AdapterState {
    Unknown,
    On,
    Off,
}

/// The state of the adapter as the adapter itself reports it.
#[derive(Clone, Copy, Debug, PartialEq, Eq, Structural)]
pub enum CentralState {
    Unknown,
    PoweredOn,
    PoweredOff,
}

/// A device as it is reported to the caller.
#[derive(Debug)]
pub struct BleDevice {
    pub address: String,
    pub name: String,
    pub is_connected: bool,
    pub services: Vec<Uuid>,
}

impl Addressed for BleDevice {
    open spec fn key(&self) -> Seq<char> {
        self.address@
    }

    fn address_str(&self) -> (r: &str) {
        self.address.as_str()
    }
}

} // verus!
