use bluez_zbus::decimal::decimal_text;
use bluez_zbus::error::GattError;
use bluez_zbus::ident::uuid_string;
use bluez_zbus::path::{NodeKind, ObjectPath};

#[test]
fn valid_object_paths_are_accepted() {
    for text in [
        "/",
        "/Path/t0/0bject",
        "/a/very/looooooooooooooooooooooooo0000o0ng/path",
        "/org/bluez/hci0",
        "/com/example/service0/characteristic1/descriptor0",
        "/_",
    ] {
        let path = ObjectPath::parse(text).unwrap();
        assert_eq!(path.as_str(), text);
    }
}

#[test]
fn invalid_object_paths_are_turned_down() {
    for text in [
        "",
        "/double//slashes/",
        ".",
        "/end/with/slash/",
        "/ha.d",
        "no/leading/slash",
        "//",
        "/a//b",
        "/sp ace",
        "/caf\u{e9}",
        "/a-b",
    ] {
        assert!(
            matches!(ObjectPath::parse(text), Err(GattError::InvalidObjectPath)),
            "{text:?} was accepted"
        );
    }
}

#[test]
fn the_root_path_is_a_single_slash() {
    assert_eq!(ObjectPath::root().as_str(), "/");
    assert!(ObjectPath::root().same_as(&ObjectPath::parse("/").unwrap()));
}

#[test]
fn child_paths_carry_kind_and_position() {
    let parent = ObjectPath::parse("/com/example").unwrap();
    assert_eq!(parent.child(NodeKind::Service, 0).unwrap().as_str(), "/com/example/service0");
    assert_eq!(
        parent.child(NodeKind::Characteristic, 7).unwrap().as_str(),
        "/com/example/characteristic7"
    );
    assert_eq!(
        parent.child(NodeKind::Descriptor, 1234567890).unwrap().as_str(),
        "/com/example/descriptor1234567890"
    );
}

#[test]
fn child_paths_are_stable_across_calls() {
    let parent = ObjectPath::parse("/a").unwrap();
    let first = parent.child(NodeKind::Service, 12).unwrap();
    let second = parent.child(NodeKind::Service, 12).unwrap();
    assert!(first.same_as(&second));
    assert!(!first.same_as(&parent.child(NodeKind::Service, 1).unwrap()));
    assert!(!first.same_as(&parent.child(NodeKind::Characteristic, 12).unwrap()));
}

#[test]
fn no_child_stands_below_the_root() {
    let root = ObjectPath::root();
    for kind in [NodeKind::Service, NodeKind::Characteristic, NodeKind::Descriptor] {
        assert!(matches!(root.child(kind, 0), Err(GattError::InvalidObjectPath)));
    }
}

#[test]
fn duplicate_is_the_same_path() {
    let path = ObjectPath::parse("/x/y").unwrap();
    assert!(path.duplicate().same_as(&path));
    assert_eq!(path.duplicate().as_str(), "/x/y");
}

#[test]
fn decimal_text_matches_the_usual_numerals() {
    for n in [0usize, 1, 9, 10, 11, 99, 100, 101, 65535, 4294967295, usize::MAX] {
        assert_eq!(decimal_text(n), n.to_string());
    }
}

#[test]
fn uuid_text_is_hyphenated_lower_case_hex() {
    assert_eq!(
        uuid_string(0xa1a2a3a4b1b2c1c2d1d2d3d4d5d6d7d8),
        "a1a2a3a4-b1b2-c1c2-d1d2-d3d4d5d6d7d8"
    );
    assert_eq!(uuid_string(0), "00000000-0000-0000-0000-000000000000");
    assert_eq!(uuid_string(u128::MAX), "ffffffff-ffff-ffff-ffff-ffffffffffff");
    assert_eq!(
        uuid_string(0x0000180f_0000_1000_8000_00805f9b34fb),
        "0000180f-0000-1000-8000-00805f9b34fb"
    );
    assert_eq!(uuid_string(1), "00000000-0000-0000-0000-000000000001");
}

#[test]
fn uuid_text_agrees_with_the_uuid_crate() {
    let id = uuid::Uuid::parse_str("936da01f-9abd-4d9d-80c7-02af85c822a8").unwrap();
    assert_eq!(uuid_string(id.as_u128()), "936da01f-9abd-4d9d-80c7-02af85c822a8");
}
