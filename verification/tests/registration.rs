use bluez_zbus::application::{BusAction, GattApplication1, GattApplicationHandle};
use bluez_zbus::characteristic::GattCharacteristic1;
use bluez_zbus::descriptor::GattDescriptor1;
use bluez_zbus::error::GattError;
use bluez_zbus::flags::{CharacteristicFlags, GattDescriptorFlags};
use bluez_zbus::path::NodeKind;
use bluez_zbus::property::PropertyValue;
use bluez_zbus::service::GattService1;

type Declaration = Vec<(GattService1, Vec<(GattCharacteristic1, Vec<GattDescriptor1>)>)>;

fn three_levels(seed: u128) -> Declaration {
    vec![(
        GattService1::new(seed, true),
        vec![
            (GattCharacteristic1::new(seed + 1, None, vec![CharacteristicFlags::Read]), vec![]),
            (
                GattCharacteristic1::new(seed + 2, Some(vec![1, 2]), vec![]),
                vec![GattDescriptor1::new(seed + 3, None, vec![GattDescriptorFlags::Read])],
            ),
        ],
    )]
}

fn uniform(n: usize, c: usize, d: usize) -> Declaration {
    let mut next: u128 = 1;
    let mut fresh = || {
        next += 1;
        next
    };
    let mut services = Vec::new();
    for _ in 0..n {
        let mut characteristics = Vec::new();
        for _ in 0..c {
            let mut descriptors = Vec::new();
            for _ in 0..d {
                descriptors.push(GattDescriptor1::new(fresh(), None, vec![]));
            }
            characteristics.push((GattCharacteristic1::new(fresh(), None, vec![]), descriptors));
        }
        services.push((GattService1::new(fresh(), true), characteristics));
    }
    services
}

fn index_paths(handle: &GattApplicationHandle) -> Vec<String> {
    handle
        .application()
        .get_managed_objects()
        .iter()
        .map(|object| object.path.as_str().to_string())
        .collect()
}

fn describe(actions: &[BusAction]) -> Vec<String> {
    actions
        .iter()
        .map(|action| match action {
            BusAction::PublishNode { kind, path } => {
                let kind = match kind {
                    NodeKind::Service => "service",
                    NodeKind::Characteristic => "characteristic",
                    NodeKind::Descriptor => "descriptor",
                };
                format!("publish {kind} {}", path.as_str())
            }
            BusAction::PublishApplication { path } => format!("publish application {}", path.as_str()),
            BusAction::RegisterApplication { registrar, path } => {
                format!("register {} at {}", path.as_str(), registrar.as_str())
            }
            BusAction::UnregisterApplication { registrar, path } => {
                format!("unregister {} at {}", path.as_str(), registrar.as_str())
            }
        })
        .collect()
}

#[test]
fn paths_follow_declaration_order() {
    let handle = GattApplication1::register_new("/com/example", three_levels(100)).unwrap();
    let suffixes: Vec<String> = index_paths(&handle)
        .iter()
        .map(|p| p.strip_prefix("/com/example/").unwrap().to_string())
        .collect();
    assert_eq!(
        suffixes,
        vec![
            "service0",
            "service0/characteristic0",
            "service0/characteristic1",
            "service0/characteristic1/descriptor0",
        ]
    );
}

#[test]
fn paths_do_not_depend_on_uuids_or_root() {
    let first = GattApplication1::register_new("/com/example", three_levels(100)).unwrap();
    let second = GattApplication1::register_new("/com/example", three_levels(0xdead_beef)).unwrap();
    assert_eq!(index_paths(&first), index_paths(&second));
    let elsewhere = GattApplication1::register_new("/org/other/app", three_levels(100)).unwrap();
    let relative = |handle: &GattApplicationHandle, root: &str| -> Vec<String> {
        index_paths(handle).iter().map(|p| p.strip_prefix(root).unwrap().to_string()).collect()
    };
    assert_eq!(relative(&first, "/com/example"), relative(&elsewhere, "/org/other/app"));
}

#[test]
fn index_has_one_entry_per_node() {
    for (n, c, d) in [(0, 0, 0), (1, 0, 0), (1, 1, 1), (2, 3, 4), (3, 2, 0), (12, 11, 2)] {
        let handle = GattApplication1::register_new("/app", uniform(n, c, d)).unwrap();
        let paths = index_paths(&handle);
        assert_eq!(paths.len(), n + n * c + n * c * d);
        assert_eq!(handle.application().len(), n + n * c + n * c * d);
        let mut unique = paths.clone();
        unique.sort();
        unique.dedup();
        assert_eq!(unique.len(), paths.len());
    }
}

#[test]
fn index_entries_carry_interface_and_snapshot() {
    let handle = GattApplication1::register_new("/com/example", three_levels(0x10)).unwrap();
    let objects = handle.application().get_managed_objects();
    let interfaces: Vec<&str> = objects.iter().map(|o| o.interface.as_str()).collect();
    assert_eq!(
        interfaces,
        vec![
            "org.bluez.GattService1",
            "org.bluez.GattCharacteristic1",
            "org.bluez.GattCharacteristic1",
            "org.bluez.GattDescriptor1",
        ]
    );
    match objects[0].properties.get("UUID") {
        Some(PropertyValue::Str(s)) => assert_eq!(s, "00000000-0000-0000-0000-000000000010"),
        _ => panic!("no UUID"),
    }
    match objects[2].properties.get("Service") {
        Some(PropertyValue::ObjectPath(p)) => assert_eq!(p.as_str(), "/com/example/service0"),
        _ => panic!("no Service"),
    }
    match objects[3].properties.get("Characteristic") {
        Some(PropertyValue::ObjectPath(p)) => {
            assert_eq!(p.as_str(), "/com/example/service0/characteristic1")
        }
        _ => panic!("no Characteristic"),
    }
}

#[test]
fn index_keeps_nodes_that_share_a_uuid() {
    let declaration = vec![(
        GattService1::new(1, true),
        vec![
            (GattCharacteristic1::new(2, None, vec![]), vec![]),
            (GattCharacteristic1::new(2, None, vec![]), vec![]),
        ],
    )];
    let handle = GattApplication1::register_new("/app", declaration).unwrap();
    assert_eq!(
        index_paths(&handle),
        vec!["/app/service0", "/app/service0/characteristic0", "/app/service0/characteristic1"]
    );
}

#[test]
fn index_is_the_same_at_every_query() {
    let declaration = vec![(
        GattService1::new(1, true),
        vec![(
            GattCharacteristic1::new(2, None, vec![]),
            vec![GattDescriptor1::new(3, Some(vec![1, 2, 3]), vec![])],
        )],
    )];
    let handle = GattApplication1::register_new("/app", declaration).unwrap();
    let before = handle.application().get_managed_objects();
    let again = handle.application().get_managed_objects();
    for objects in [before, again] {
        match objects[2].properties.get("Value") {
            Some(PropertyValue::ByteArray(b)) => assert_eq!(b, &vec![1, 2, 3]),
            _ => panic!("no Value"),
        }
    }
}

#[test]
fn invalid_root_is_turned_down() {
    for root in ["", "com/example", "/com/example/", "/com//example", "/com/ex.ample"] {
        let result = GattApplication1::register_new(root, three_levels(1));
        assert!(matches!(result, Err(GattError::InvalidObjectPath)), "{root:?}");
        let result = GattApplication1::register_new(root, vec![]);
        assert!(matches!(result, Err(GattError::InvalidObjectPath)), "{root:?}");
    }
}

#[test]
fn bus_root_takes_no_services() {
    let result = GattApplication1::register_new("/", three_levels(1));
    assert!(matches!(result, Err(GattError::InvalidObjectPath)));
    let empty = GattApplication1::register_new("/", vec![]).unwrap();
    assert_eq!(empty.owned_path().as_str(), "/");
    assert!(empty.services().is_empty());
    assert_eq!(empty.application().len(), 0);
}

#[test]
fn registration_publishes_children_before_parents() {
    let handle = GattApplication1::register_new("/com/example", three_levels(7)).unwrap();
    assert_eq!(
        describe(&handle.registration_actions()),
        vec![
            "publish characteristic /com/example/service0/characteristic0",
            "publish descriptor /com/example/service0/characteristic1/descriptor0",
            "publish characteristic /com/example/service0/characteristic1",
            "publish service /com/example/service0",
            "publish application /com/example",
            "register /com/example at /org/bluez/hci0",
        ]
    );
}

#[test]
fn registration_tells_the_registrar_once() {
    let handle = GattApplication1::register_new("/app", uniform(3, 2, 2)).unwrap();
    let actions = handle.registration_actions();
    assert_eq!(actions.len(), 3 + 3 * 2 + 3 * 2 * 2 + 2);
    let told = actions
        .iter()
        .filter(|a| matches!(a, BusAction::RegisterApplication { .. }))
        .count();
    assert_eq!(told, 1);
    assert!(matches!(actions.last(), Some(BusAction::RegisterApplication { .. })));
}

#[test]
fn unregister_is_one_word_to_the_registrar() {
    let handle = GattApplication1::register_new("/com/example", three_levels(7)).unwrap();
    assert_eq!(
        describe(&[handle.unregister()]),
        vec!["unregister /com/example at /org/bluez/hci0"]
    );
}

#[test]
fn handles_reach_every_leaf() {
    let handle = GattApplication1::register_new("/com/example", three_levels(100)).unwrap();
    let service = &handle.services()[0];
    assert_eq!(service.owned_path().as_str(), "/com/example/service0");
    let characteristic = service.characteristic(102).unwrap();
    assert_eq!(characteristic.owned_path().as_str(), "/com/example/service0/characteristic1");
    assert_eq!(characteristic.data().bytes(), &vec![1, 2]);
    let descriptor = characteristic.descriptor(103).unwrap();
    assert_eq!(
        descriptor.owned_path().as_str(),
        "/com/example/service0/characteristic1/descriptor0"
    );
    assert!(service.characteristic(103).is_none());
}
