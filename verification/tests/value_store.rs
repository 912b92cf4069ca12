use bluez_zbus::error::GattError;
use bluez_zbus::value::ValueStore;

#[test]
fn read_from_offset_returns_the_rest() {
    let store = ValueStore::new(Some(vec![10, 20, 30, 40]));
    assert_eq!(store.read(Some(1)).unwrap(), vec![20, 30, 40]);
    assert_eq!(store.read(Some(3)).unwrap(), vec![40]);
    assert_eq!(store.read(Some(0)).unwrap(), vec![10, 20, 30, 40]);
    assert_eq!(store.read(None).unwrap(), vec![10, 20, 30, 40]);
}

#[test]
fn read_at_or_beyond_the_end_is_turned_down() {
    let store = ValueStore::new(Some(vec![10, 20, 30, 40]));
    for offset in [4u16, 5, 100, u16::MAX] {
        match store.read(Some(offset)) {
            Err(GattError::InvalidArgs(detail)) => assert_eq!(detail, "InvalidOffset"),
            other => panic!("offset {offset}: {other:?}"),
        }
    }
    assert_eq!(store.bytes(), &vec![10, 20, 30, 40]);
}

#[test]
fn read_of_an_empty_value_from_the_start_is_empty() {
    let store = ValueStore::new(None);
    assert_eq!(store.read(Some(0)).unwrap(), Vec::<u8>::new());
    assert_eq!(store.read(None).unwrap(), Vec::<u8>::new());
    assert!(matches!(store.read(Some(1)), Err(GattError::InvalidArgs(_))));
}

#[test]
fn write_then_read_round_trip() {
    let mut store = ValueStore::new(None);
    store.write(&[7, 8, 9], Some(0));
    assert_eq!(store.read(Some(0)).unwrap(), vec![7, 8, 9]);
}

#[test]
fn write_at_start_twice_is_write_once() {
    let mut once = ValueStore::new(Some(vec![1, 2, 3, 4, 5]));
    once.write(&[9, 8], Some(0));
    let mut twice = ValueStore::new(Some(vec![1, 2, 3, 4, 5]));
    twice.write(&[9, 8], Some(0));
    twice.write(&[9, 8], Some(0));
    assert_eq!(once.bytes(), twice.bytes());
    assert_eq!(once.bytes(), &vec![9, 8]);
}

#[test]
fn write_past_the_end_zero_fills_the_gap() {
    let mut store = ValueStore::new(Some(vec![1, 2, 3]));
    store.write(&[9, 9], Some(5));
    assert_eq!(store.len(), 5 + 3);
    assert_eq!(store.bytes(), &vec![1, 2, 3, 0, 0, 9, 9, 0]);
}

#[test]
fn write_longer_value_past_the_end() {
    let mut store = ValueStore::new(Some(vec![1, 2, 3]));
    store.write(&[9, 9, 9, 9], Some(5));
    assert_eq!(store.bytes(), &vec![1, 2, 3, 0, 0, 9, 9, 9, 9]);
    let mut store = ValueStore::new(Some(vec![1, 2, 3]));
    store.write(&[7, 7, 7], Some(1));
    assert_eq!(store.bytes(), &vec![1, 7, 7, 7]);
}

#[test]
fn write_within_bounds_truncates() {
    let mut store = ValueStore::new(Some(vec![1, 2, 3, 4, 5]));
    store.write(&[9], Some(0));
    assert_eq!(store.len(), 1);
    assert_eq!(store.bytes(), &vec![9]);
}

#[test]
fn write_within_bounds_at_an_offset_keeps_the_length_of_the_value() {
    let mut store = ValueStore::new(Some(vec![1, 2, 3, 4, 5]));
    store.write(&[9, 8, 7], Some(1));
    assert_eq!(store.bytes(), &vec![1, 9, 8]);
    let mut store = ValueStore::new(Some(vec![1, 2, 3, 4, 5]));
    store.write(&[9], Some(3));
    assert_eq!(store.bytes(), &vec![1]);
}

#[test]
fn write_without_offset_starts_at_the_start() {
    let mut store = ValueStore::new(Some(vec![1, 2]));
    store.write(&[5, 6, 7], None);
    assert_eq!(store.bytes(), &vec![5, 6, 7]);
}
