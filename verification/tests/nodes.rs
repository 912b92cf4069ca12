use bluez_zbus::characteristic::GattCharacteristic1;
use bluez_zbus::descriptor::GattDescriptor1;
use bluez_zbus::error::GattError;
use bluez_zbus::flags::{CharacteristicFlags, GattDescriptorFlags};
use bluez_zbus::path::ObjectPath;
use bluez_zbus::property::{PropertyMap, PropertyValue};
use bluez_zbus::service::GattService1;

const SERVICE: u128 = 0x0000180f_0000_1000_8000_00805f9b34fb;
const LEVEL: u128 = 0x00002a19_0000_1000_8000_00805f9b34fb;
const CONFIG: u128 = 0x00002902_0000_1000_8000_00805f9b34fb;

fn text(props: &PropertyMap, name: &str) -> String {
    match props.get(name) {
        Some(PropertyValue::Str(s)) => s.clone(),
        _ => panic!("{name} is no text"),
    }
}

fn path(props: &PropertyMap, name: &str) -> String {
    match props.get(name) {
        Some(PropertyValue::ObjectPath(p)) => p.as_str().to_string(),
        _ => panic!("{name} is no path"),
    }
}

fn flag(props: &PropertyMap, name: &str) -> bool {
    match props.get(name) {
        Some(PropertyValue::Bool(b)) => *b,
        _ => panic!("{name} is no truth value"),
    }
}

fn list(props: &PropertyMap, name: &str) -> Vec<String> {
    match props.get(name) {
        Some(PropertyValue::StrArray(l)) => l.clone(),
        _ => panic!("{name} is no list"),
    }
}

fn bytes(props: &PropertyMap, name: &str) -> Vec<u8> {
    match props.get(name) {
        Some(PropertyValue::ByteArray(b)) => b.clone(),
        _ => panic!("{name} is no byte string"),
    }
}

#[test]
fn property_map_insert_replaces_and_get_finds() {
    let mut props = PropertyMap::new();
    assert!(props.get("A").is_none());
    props.insert("A".to_string(), PropertyValue::Bool(false));
    props.insert("B".to_string(), PropertyValue::Str("x".to_string()));
    props.insert("A".to_string(), PropertyValue::Bool(true));
    assert!(flag(&props, "A"));
    assert_eq!(text(&props, "B"), "x");
    assert!(props.get("C").is_none());
    let copy = props.duplicate();
    assert!(flag(&copy, "A"));
    assert_eq!(text(&copy, "B"), "x");
}

#[test]
fn service_snapshot_holds_uuid_and_primary() {
    let service = GattService1::new(SERVICE, true);
    let props = service.property_map();
    assert_eq!(text(&props, "UUID"), "0000180f-0000-1000-8000-00805f9b34fb");
    assert!(flag(&props, "Primary"));
    assert!(props.get("Includes").is_none());
    assert!(service.primary());
    assert_eq!(service.uuid(), "0000180f-0000-1000-8000-00805f9b34fb");
    let secondary = GattService1::new(SERVICE, false);
    assert!(!flag(&secondary.property_map(), "Primary"));
    assert!(!secondary.primary());
}

#[test]
fn characteristic_snapshot_leaves_out_what_was_never_set() {
    let characteristic = GattCharacteristic1::new(
        LEVEL,
        Some(vec![42]),
        vec![CharacteristicFlags::Read, CharacteristicFlags::Notify],
    );
    let props = characteristic.property_map();
    assert_eq!(text(&props, "UUID"), "00002a19-0000-1000-8000-00805f9b34fb");
    assert_eq!(path(&props, "Service"), "/");
    assert_eq!(list(&props, "Flags"), vec!["read", "notify"]);
    assert_eq!(props.entries().len(), 3);
    assert!(props.get("Primary").is_none());
    assert!(props.get("Notifying").is_none());
    assert!(props.get("NotifyAcquired").is_none());
    assert!(props.get("WriteAcquired").is_none());
    assert!(props.get("Value").is_none());
}

#[test]
fn unset_capabilities_are_unknown_not_false() {
    let characteristic = GattCharacteristic1::new(LEVEL, None, vec![]);
    match characteristic.notifying() {
        Err(GattError::UnknownProperty(detail)) => {
            assert_eq!(detail, "GattCharacteristic1: unused property 'notifying'")
        }
        other => panic!("{other:?}"),
    }
    match characteristic.notify_acquired() {
        Err(GattError::UnknownProperty(detail)) => {
            assert_eq!(detail, "GattCharacteristic1: unused property 'notify_acquired'")
        }
        other => panic!("{other:?}"),
    }
    match characteristic.write_acquired() {
        Err(GattError::UnknownProperty(detail)) => {
            assert_eq!(detail, "GattCharacteristic1: unused property 'write_acquired'")
        }
        other => panic!("{other:?}"),
    }
}

#[test]
fn acquire_methods_are_not_supported() {
    let characteristic = GattCharacteristic1::new(LEVEL, None, vec![]);
    match characteristic.acquire_notify() {
        Err(GattError::NotSupported(detail)) => {
            assert_eq!(detail, "AcquireNotify not supported on GattCharacteristic1")
        }
        other => panic!("{other:?}"),
    }
    match characteristic.acquire_write() {
        Err(GattError::NotSupported(detail)) => {
            assert_eq!(detail, "AcquireWrite not supported on GattCharacteristic1")
        }
        other => panic!("{other:?}"),
    }
    assert!(characteristic.confirm().is_ok());
    assert!(characteristic.start_notify().is_ok());
    assert!(characteristic.stop_notify().is_ok());
}

#[test]
fn characteristic_reads_and_writes_its_value() {
    let mut characteristic = GattCharacteristic1::new(LEVEL, Some(vec![1, 2, 3]), vec![]);
    assert_eq!(characteristic.read_value(Some(1)).unwrap(), vec![2, 3]);
    assert_eq!(characteristic.read_value(None).unwrap(), vec![1, 2, 3]);
    assert!(matches!(characteristic.read_value(Some(3)), Err(GattError::InvalidArgs(_))));
    characteristic.write_value(&[8, 9, 7], Some(2));
    assert_eq!(characteristic.read_value(None).unwrap(), vec![1, 2, 8, 9, 7]);
    characteristic.write_value(&[5], None);
    assert_eq!(characteristic.read_value(None).unwrap(), vec![5]);
    assert_eq!(characteristic.value(), Vec::<u8>::new());
    assert_eq!(characteristic.uuid(), "00002a19-0000-1000-8000-00805f9b34fb");
    assert_eq!(characteristic.service().as_str(), "/");
    assert!(characteristic.descriptors().is_empty());
    assert!(characteristic.flags().is_empty());
}

#[test]
fn descriptor_snapshot_holds_its_value() {
    let descriptor =
        GattDescriptor1::new(CONFIG, Some(vec![1, 0]), vec![GattDescriptorFlags::Read]);
    let props = descriptor.property_map();
    assert_eq!(text(&props, "UUID"), "00002902-0000-1000-8000-00805f9b34fb");
    assert_eq!(path(&props, "Characteristic"), "/");
    assert_eq!(bytes(&props, "Value"), vec![1, 0]);
    assert_eq!(list(&props, "Flags"), vec!["read"]);
    assert!(props.get("Primary").is_none());
}

#[test]
fn descriptor_reads_and_writes_its_value() {
    let mut descriptor = GattDescriptor1::new(CONFIG, None, vec![GattDescriptorFlags::Write]);
    assert_eq!(descriptor.read_value(Some(0)).unwrap(), Vec::<u8>::new());
    assert!(matches!(descriptor.read_value(Some(1)), Err(GattError::InvalidArgs(_))));
    descriptor.write_value(&[4, 5, 6], Some(0));
    assert_eq!(descriptor.read_value(Some(2)).unwrap(), vec![6]);
    assert_eq!(descriptor.data().bytes(), &vec![4, 5, 6]);
    assert_eq!(descriptor.value(), Vec::<u8>::new());
    assert_eq!(descriptor.flags(), vec!["write"]);
    assert_eq!(descriptor.uuid(), "00002902-0000-1000-8000-00805f9b34fb");
    assert_eq!(descriptor.characteristic().as_str(), "/");
}

#[test]
fn registered_descriptor_points_at_its_characteristic() {
    let descriptor =
        GattDescriptor1::new(CONFIG, Some(vec![7]), vec![GattDescriptorFlags::Read]);
    let handle = descriptor.register(
        ObjectPath::parse("/app/service0/characteristic0/descriptor0").unwrap(),
        ObjectPath::parse("/app/service0/characteristic0").unwrap(),
    );
    assert_eq!(handle.owned_path().as_str(), "/app/service0/characteristic0/descriptor0");
    assert_eq!(handle.uuid(), CONFIG);
    assert_eq!(handle.data().bytes(), &vec![7]);
    let props = handle.property_map();
    assert_eq!(path(&props, "Characteristic"), "/app/service0/characteristic0");
    assert_eq!(bytes(&props, "Value"), vec![7]);
    assert_eq!(handle.node().characteristic().as_str(), "/app/service0/characteristic0");
}

#[test]
fn registered_characteristic_places_its_descriptors_by_position() {
    let characteristic =
        GattCharacteristic1::new(LEVEL, Some(vec![1]), vec![CharacteristicFlags::Read]);
    let descriptors = vec![
        GattDescriptor1::new(CONFIG, None, vec![]),
        GattDescriptor1::new(CONFIG + 1, None, vec![]),
    ];
    let handle = characteristic
        .register(
            ObjectPath::parse("/app/service3/characteristic4").unwrap(),
            ObjectPath::parse("/app/service3").unwrap(),
            descriptors,
        )
        .unwrap();
    assert_eq!(handle.owned_path().as_str(), "/app/service3/characteristic4");
    assert_eq!(path(&handle.property_map(), "Service"), "/app/service3");
    let paths: Vec<String> =
        handle.descriptors().iter().map(|d| d.owned_path().as_str().to_string()).collect();
    assert_eq!(
        paths,
        vec![
            "/app/service3/characteristic4/descriptor0",
            "/app/service3/characteristic4/descriptor1"
        ]
    );
    let listed: Vec<String> =
        handle.node().descriptors().iter().map(|p| p.as_str().to_string()).collect();
    assert_eq!(listed, paths);
    assert_eq!(
        handle.descriptor(CONFIG + 1).unwrap().owned_path().as_str(),
        "/app/service3/characteristic4/descriptor1"
    );
    assert!(handle.descriptor(CONFIG + 2).is_none());
    assert_eq!(handle.node().service().as_str(), "/app/service3");
    assert_eq!(handle.uuid(), LEVEL);
    assert_eq!(handle.data().bytes(), &vec![1]);
}

#[test]
fn descriptors_cannot_stand_below_the_root() {
    let characteristic = GattCharacteristic1::new(LEVEL, None, vec![]);
    let result = characteristic.register(
        ObjectPath::root(),
        ObjectPath::root(),
        vec![GattDescriptor1::new(CONFIG, None, vec![])],
    );
    assert!(matches!(result, Err(GattError::InvalidObjectPath)));
    let alone = GattCharacteristic1::new(LEVEL, None, vec![]);
    assert!(alone.register(ObjectPath::root(), ObjectPath::root(), vec![]).is_ok());
}

#[test]
fn later_characteristic_wins_a_shared_uuid() {
    let service = GattService1::new(SERVICE, true);
    let handle = service
        .register(
            vec![
                (GattCharacteristic1::new(LEVEL, Some(vec![1]), vec![]), vec![]),
                (GattCharacteristic1::new(LEVEL, Some(vec![2]), vec![]), vec![]),
            ],
            ObjectPath::parse("/app/service0").unwrap(),
        )
        .unwrap();
    assert_eq!(handle.characteristics().len(), 2);
    let found = handle.characteristic(LEVEL).unwrap();
    assert_eq!(found.owned_path().as_str(), "/app/service0/characteristic1");
    assert_eq!(found.data().bytes(), &vec![2]);
    assert!(handle.characteristic(CONFIG).is_none());
    assert_eq!(handle.owned_path().as_str(), "/app/service0");
    assert!(handle.node().primary());
}

#[test]
fn snapshot_stays_as_taken_after_a_write() {
    let descriptor = GattDescriptor1::new(CONFIG, Some(vec![1, 2, 3]), vec![]);
    let mut handle = descriptor.register(
        ObjectPath::parse("/app/service0/characteristic0/descriptor0").unwrap(),
        ObjectPath::parse("/app/service0/characteristic0").unwrap(),
    );
    assert!(handle.can_write(1, Some(0)));
    handle.write_value(&[9], Some(0));
    assert_eq!(handle.read_value(None).unwrap(), vec![9]);
    assert_eq!(handle.data().bytes(), &vec![9]);
    assert_eq!(bytes(&handle.property_map(), "Value"), vec![1, 2, 3]);

    let characteristic = GattCharacteristic1::new(LEVEL, Some(vec![5]), vec![]);
    let mut handle = characteristic
        .register(
            ObjectPath::parse("/app/service0/characteristic0").unwrap(),
            ObjectPath::parse("/app/service0").unwrap(),
            vec![],
        )
        .unwrap();
    let before = text(&handle.property_map(), "UUID");
    handle.write_value(&[6, 7], Some(1));
    assert_eq!(handle.read_value(Some(1)).unwrap(), vec![6, 7]);
    assert!(matches!(handle.read_value(Some(3)), Err(GattError::InvalidArgs(_))));
    assert_eq!(text(&handle.property_map(), "UUID"), before);
    assert_eq!(path(&handle.property_map(), "Service"), "/app/service0");
}

#[test]
fn error_detail_is_what_goes_on_the_wire() {
    assert_eq!(
        bluez_zbus::error::lock_failure("poisoned lock").detail(),
        "Could not lock data: poisoned lock"
    );
    assert_eq!(
        bluez_zbus::error::experimental_property("data", "LEAdvertisement1").detail(),
        "LEAdvertisement1: experimental property 'data' disabled"
    );
    assert_eq!(GattError::invalid_offset().detail(), "InvalidOffset");
    assert_eq!(GattError::InvalidObjectPath.detail(), "");
    assert_eq!(GattError::Failed("Could not lock data".to_string()).detail(), "Could not lock data");
}
