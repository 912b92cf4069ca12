use bluez_zbus::advertisement::{AdvertisementType, LEAdvertisement1};
use bluez_zbus::device::{BluezDevice, InterfaceProperties, ManagedBluezObject};
use bluez_zbus::error::GattError;
use bluez_zbus::flags::SupportedIncludes;
use bluez_zbus::path::ObjectPath;
use bluez_zbus::property::{PropertyMap, PropertyValue};

fn unknown<T: std::fmt::Debug>(result: Result<T, GattError>) -> String {
    match result {
        Err(GattError::UnknownProperty(detail)) => detail,
        other => panic!("{other:?}"),
    }
}

#[test]
fn empty_advertisement_reports_everything_unset_as_unknown() {
    let adv = LEAdvertisement1::default();
    assert_eq!(unknown(adv.appearance()), "LEAdvertisement1: unused property 'appearance'");
    assert_eq!(unknown(adv.duration()), "LEAdvertisement1: unused property 'duration'");
    assert_eq!(unknown(adv.timeout()), "LEAdvertisement1: unused property 'timeout'");
    assert_eq!(unknown(adv.includes()), "LEAdvertisement1: unused property 'includes'");
    assert_eq!(unknown(adv.local_name()), "LEAdvertisement1: unused property 'local_name'");
    assert_eq!(
        unknown(adv.manufacturer_data()),
        "LEAdvertisement1: unused property 'manufacturer_data'"
    );
    assert_eq!(unknown(adv.solicit_uuids()), "LEAdvertisement1: unused property 'solicit_uuids'");
    assert_eq!(unknown(adv.service_data()), "LEAdvertisement1: unused property 'service_data'");
    assert_eq!(unknown(adv.service_uuids()), "LEAdvertisement1: unused property 'service_uuids'");
    assert_eq!(adv.type_().unwrap(), "peripheral");
    assert!(adv.release().is_ok());
}

#[test]
fn switched_off_properties_say_so() {
    let adv = LEAdvertisement1::default();
    assert_eq!(unknown(adv.data()), "LEAdvertisement1: experimental property 'data' disabled");
    assert_eq!(
        unknown(adv.discoverable()),
        "LEAdvertisement1: experimental property 'discoverable' disabled"
    );
    assert_eq!(
        unknown(adv.discoverable_timeout()),
        "LEAdvertisement1: experimental property 'discoverable_timeout' disabled"
    );
    assert_eq!(
        unknown(adv.min_interval()),
        "LEAdvertisement1: experimental property 'min_interval' disabled"
    );
    assert_eq!(
        unknown(adv.max_interval()),
        "LEAdvertisement1: experimental property 'max_interval' disabled"
    );
    assert_eq!(
        unknown(adv.tx_power()),
        "LEAdvertisement1: experimental property 'tx_power' disabled"
    );
}

#[test]
fn set_properties_are_reported() {
    let adv = LEAdvertisement1 {
        type_: AdvertisementType::Broadcast,
        service_uuids: vec![0x180f, 0x0000180a_0000_1000_8000_00805f9b34fb],
        manufacturer_data: vec![(0x004c, vec![1, 2]), (0xffff, vec![])],
        solicit_uuids: vec![1],
        service_data: vec![(2, vec![9])],
        includes: vec![SupportedIncludes::Appearance, SupportedIncludes::LocalName],
        local_name: Some("bluez".to_string()),
        appearance: Some(0x0340),
        duration: Some(2),
        timeout: Some(65536 + 7),
    };
    assert_eq!(adv.type_().unwrap(), "broadcast");
    assert_eq!(
        adv.service_uuids().unwrap(),
        vec!["00000000-0000-0000-0000-00000000180f", "0000180a-0000-1000-8000-00805f9b34fb"]
    );
    assert_eq!(adv.manufacturer_data().unwrap(), vec![(0x004c, vec![1, 2]), (0xffff, vec![])]);
    assert_eq!(adv.solicit_uuids().unwrap(), vec!["00000000-0000-0000-0000-000000000001"]);
    assert_eq!(
        adv.service_data().unwrap(),
        vec![("00000000-0000-0000-0000-000000000002".to_string(), vec![9])]
    );
    assert_eq!(adv.includes().unwrap(), vec!["appearance", "local-name"]);
    assert_eq!(adv.local_name().unwrap(), "bluez");
    assert_eq!(adv.appearance().unwrap(), 0x0340);
    assert_eq!(adv.duration().unwrap(), 2);
    assert_eq!(adv.timeout().unwrap(), 7);
}

fn device_properties() -> PropertyMap {
    let mut props = PropertyMap::new();
    props.insert("Trusted".to_string(), PropertyValue::Bool(true));
    props.insert("Alias".to_string(), PropertyValue::Str("Headset".to_string()));
    props.insert("Address".to_string(), PropertyValue::Str("00:11:22:33:44:55".to_string()));
    props.insert("AddressType".to_string(), PropertyValue::Str("public".to_string()));
    props.insert("RSSI".to_string(), PropertyValue::I16(-60));
    props.insert("Connected".to_string(), PropertyValue::Bool(true));
    props.insert(
        "Adapter".to_string(),
        PropertyValue::ObjectPath(ObjectPath::parse("/org/bluez/hci0").unwrap()),
    );
    props.insert("ServicesResolved".to_string(), PropertyValue::Bool(true));
    props.insert("Paired".to_string(), PropertyValue::Str("yes".to_string()));
    props
}

#[test]
fn device_is_read_from_its_properties() {
    let device = BluezDevice::from(&device_properties());
    assert!(device.trusted);
    assert_eq!(device.alias, "Headset");
    assert_eq!(device.address, "00:11:22:33:44:55");
    assert_eq!(device.address_type, "public");
    assert_eq!(device.rssi, -60);
    assert!(device.connected);
    assert_eq!(device.adapter.as_str(), "/org/bluez/hci0");
    assert!(device.service_resolved);
}

#[test]
fn missing_or_mistyped_device_properties_take_their_defaults() {
    let device = BluezDevice::from(&device_properties());
    assert!(!device.legacy_pairing);
    assert!(!device.blocked);
    assert!(!device.bonded);
    assert!(!device.paired);
    let blank = BluezDevice::from(&PropertyMap::new());
    assert!(!blank.trusted);
    assert_eq!(blank.alias, "");
    assert_eq!(blank.address, "");
    assert_eq!(blank.address_type, "");
    assert_eq!(blank.rssi, 0);
    assert_eq!(blank.adapter.as_str(), "/");
}

#[test]
fn managed_object_is_a_device_only_with_the_device_interface() {
    let object = ManagedBluezObject {
        path: ObjectPath::parse("/org/bluez/hci0/dev_00_11_22_33_44_55").unwrap(),
        data: vec![
            InterfaceProperties {
                interface: "org.freedesktop.DBus.Properties".to_string(),
                properties: PropertyMap::new(),
            },
            InterfaceProperties {
                interface: "org.bluez.Device1".to_string(),
                properties: device_properties(),
            },
        ],
    };
    let device = object.device_data().unwrap();
    assert_eq!(device.alias, "Headset");
    let adapter = ManagedBluezObject {
        path: ObjectPath::parse("/org/bluez/hci0").unwrap(),
        data: vec![InterfaceProperties {
            interface: "org.bluez.Adapter1".to_string(),
            properties: device_properties(),
        }],
    };
    assert!(adapter.device_data().is_none());
}
