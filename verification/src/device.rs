//! What the daemon reports of a remote device, read out of the properties
//! of a managed object.

use vstd::prelude::*;
use crate::path::{ObjectPath, root_path};
use crate::property::{PropertyMap, PropertyValue, PropertyValueView};
use crate::text::same_text;

verus! {

/// The truth value of the property `name`, or false where the snapshot has
/// none of that name or one of another type.
pub open spec fn bool_or_default(props: Map<Seq<char>, PropertyValueView>, name: Seq<char>) -> bool {
    if props.dom().contains(name) {
        match props[name] {
            PropertyValueView::Bool(b) => b,
            _ => false,
        }
    } else {
        false
    }
}

/// The text of the property `name`, or the empty text where the snapshot has
/// none of that name or one of another type.
pub open spec fn text_or_default(props: Map<Seq<char>, PropertyValueView>, name: Seq<char>) -> Seq<
    char,
> {
    if props.dom().contains(name) {
        match props[name] {
            PropertyValueView::Str(s) => s,
            _ => Seq::<char>::empty(),
        }
    } else {
        Seq::<char>::empty()
    }
}

/// The number of the property `name`, or zero where the snapshot has none
/// of that name or one of another type.
pub open spec fn i16_or_default(props: Map<Seq<char>, PropertyValueView>, name: Seq<char>) -> i16 {
    if props.dom().contains(name) {
        match props[name] {
            PropertyValueView::I16(n) => n,
            _ => 0i16,
        }
    } else {
        0i16
    }
}

/// The path of the property `name`, or the root where the snapshot has none
/// of that name or one of another type.
pub open spec fn path_or_default(props: Map<Seq<char>, PropertyValueView>, name: Seq<char>) -> Seq<
    char,
> {
    if props.dom().contains(name) {
        match props[name] {
            PropertyValueView::ObjectPath(p) => p,
            _ => root_path(),
        }
    } else {
        root_path()
    }
}

/// A remote device as the daemon describes it.
#[derive(Debug)]
pub struct BluezDevice {
    pub trusted: bool,
    pub alias: String,
    pub address: String,
    pub address_type: String,
    pub rssi: i16,
    pub legacy_pairing: bool,
    pub blocked: bool,
    pub connected: bool,
    pub adapter: ObjectPath,
    pub service_resolved: bool,
    pub bonded: bool,
    pub paired: bool,
}

/// What the description of a device holds.
pub struct BluezDeviceView {
    pub trusted: bool,
    pub alias: Seq<char>,
    pub address: Seq<char>,
    pub address_type: Seq<char>,
    pub rssi: i16,
    pub legacy_pairing: bool,
    pub blocked: bool,
    pub connected: bool,
    pub adapter: Seq<char>,
    pub service_resolved: bool,
    pub bonded: bool,
    pub paired: bool,
}

impl View for BluezDevice {
    type V = BluezDeviceView;

    open spec fn view(&self) -> BluezDeviceView {
        BluezDeviceView {
            trusted: self.trusted,
            alias: self.alias@,
            address: self.address@,
            address_type: self.address_type@,
            rssi: self.rssi,
            legacy_pairing: self.legacy_pairing,
            blocked: self.blocked,
            connected: self.connected,
            adapter: self.adapter@,
            service_resolved: self.service_resolved,
            bonded: self.bonded,
            paired: self.paired,
        }
    }
}

/// The device that a snapshot of properties describes: each field from the
/// property that the daemon names for it, and its default where the
/// snapshot lacks that property or gives it another type.
pub open spec fn device_of(props: Map<Seq<char>, PropertyValueView>) -> BluezDeviceView {
    BluezDeviceView {
        trusted: bool_or_default(props, "Trusted"@),
        alias: text_or_default(props, "Alias"@),
        address: text_or_default(props, "Address"@),
        address_type: text_or_default(props, "AddressType"@),
        rssi: i16_or_default(props, "RSSI"@),
        legacy_pairing: bool_or_default(props, "LegacyPairing"@),
        blocked: bool_or_default(props, "Blocked"@),
        connected: bool_or_default(props, "Connected"@),
        adapter: path_or_default(props, "Adapter"@),
        service_resolved: bool_or_default(props, "ServicesResolved"@),
        bonded: bool_or_default(props, "Bonded"@),
        paired: bool_or_default(props, "Paired"@),
    }
}

/// Reads a truth value out of a snapshot.
fn bool_property(props: &PropertyMap, name: &str) -> (b: bool)
    ensures
        b == bool_or_default(props@, name@),
{
    match props.get(name) {
        Some(PropertyValue::Bool(b)) => *b,
        _ => false,
    }
}

/// Reads a text out of a snapshot.
fn text_property(props: &PropertyMap, name: &str) -> (text: String)
    ensures
        text@ == text_or_default(props@, name@),
{
    match props.get(name) {
        Some(PropertyValue::Str(s)) => s.clone(),
        _ => String::new(),
    }
}

/// Reads a number out of a snapshot.
fn i16_property(props: &PropertyMap, name: &str) -> (n: i16)
    ensures
        n == i16_or_default(props@, name@),
{
    match props.get(name) {
        Some(PropertyValue::I16(n)) => *n,
        _ => 0,
    }
}

/// Reads a path out of a snapshot.
fn path_property(props: &PropertyMap, name: &str) -> (path: ObjectPath)
    ensures
        path@ == path_or_default(props@, name@),
{
    match props.get(name) {
        Some(PropertyValue::ObjectPath(p)) => p.duplicate(),
        _ => ObjectPath::root(),
    }
}

impl BluezDevice {
    /// Reads the description of a device out of the properties of its
    /// interface.
    pub fn from(value: &PropertyMap) -> (device: BluezDevice)
        ensures
            device@ == device_of(value@),
    {
        BluezDevice {
            trusted: bool_property(value, "Trusted"),
            alias: text_property(value, "Alias"),
            address: text_property(value, "Address"),
            address_type: text_property(value, "AddressType"),
            rssi: i16_property(value, "RSSI"),
            legacy_pairing: bool_property(value, "LegacyPairing"),
            blocked: bool_property(value, "Blocked"),
            connected: bool_property(value, "Connected"),
            adapter: path_property(value, "Adapter"),
            service_resolved: bool_property(value, "ServicesResolved"),
            bonded: bool_property(value, "Bonded"),
            paired: bool_property(value, "Paired"),
        }
    }
}

/// The properties that an object has under one of its interfaces.
#[derive(Debug)]
pub struct InterfaceProperties {
    pub interface: String,
    pub properties: PropertyMap,
}

/// An object that the daemon manages: its path, and its properties under
/// each of its interfaces.
#[derive(Debug)]
pub struct ManagedBluezObject {
    pub path: ObjectPath,
    pub data: Vec<InterfaceProperties>,
}

/// The name of the interface that describes a device.
pub open spec fn device_interface() -> Seq<char> {
    "org.bluez.Device1"@
}

/// Whether `n` is the position of the first entry of `data` for the
/// interface that describes a device.
pub open spec fn first_device_entry(data: Seq<InterfaceProperties>, n: int) -> bool {
    &&& 0 <= n < data.len()
    &&& data[n].interface@ == device_interface()
    &&& forall|m: int| 0 <= m < n ==> (#[trigger] data[m]).interface@ != device_interface()
}

impl ManagedBluezObject {
    /// The device that the object is, where it has the interface of one.
    pub fn device_data(&self) -> (device: Option<BluezDevice>)
        ensures
            match device {
                Some(d) => exists|n: int|
                    first_device_entry(self.data@, n) && d@ == device_of(
                        self.data@[n].properties@,
                    ),
                None => forall|n: int|
                    0 <= n < self.data@.len() ==> (#[trigger] self.data@[n]).interface@
                        != device_interface(),
            },
    {
        let mut n: usize = 0;
        while n < self.data.len()
            invariant
                n <= self.data@.len(),
                forall|m: int| 0 <= m < n ==> (#[trigger] self.data@[m]).interface@ != device_interface(),
            decreases self.data@.len() - n,
        {
            if same_text(self.data[n].interface.as_str(), "org.bluez.Device1") {
                assert(first_device_entry(self.data@, n as int));
                return Some(BluezDevice::from(&self.data[n].properties));
            }
            n = n + 1;
        }
        None
    }
}

} // verus!
