use bluez_zbus::advertisement::{AdvertisementType, SecondaryChannel};
use bluez_zbus::error::GattError;
use bluez_zbus::flags::{
    characteristic_flag_tokens, descriptor_flag_tokens, CharacteristicFlags, GattDescriptorFlags,
    SupportedIncludes,
};

fn characteristic_flags() -> Vec<(CharacteristicFlags, &'static str)> {
    vec![
        (CharacteristicFlags::Broadcast, "broadcast"),
        (CharacteristicFlags::Read, "read"),
        (CharacteristicFlags::WriteWithoutResponse, "write-without-response"),
        (CharacteristicFlags::Write, "write"),
        (CharacteristicFlags::Notify, "notify"),
        (CharacteristicFlags::Indicate, "indicate"),
        (CharacteristicFlags::AuthenticatedSignedWrites, "authenticated-signed-writes"),
        (CharacteristicFlags::ExtendedProperties, "extended-properties"),
        (CharacteristicFlags::ReliableWrite, "reliable-write"),
        (CharacteristicFlags::WritableAuxiliaries, "writable-auxiliaries"),
        (CharacteristicFlags::EncryptRead, "encrypt-read"),
        (CharacteristicFlags::EncryptWrite, "encrypt-write"),
        (CharacteristicFlags::EncryptNotify, "encrypt-notify"),
        (CharacteristicFlags::EncryptIndicate, "encrypt-indicate"),
        (CharacteristicFlags::EncryptAuthenticatedRead, "encrypt-authenticated-read"),
        (CharacteristicFlags::EncryptAuthenticatedWrite, "encrypt-authenticated-write"),
        (CharacteristicFlags::EncryptAuthenticatedNotify, "encrypt-authenticated-notify"),
        (CharacteristicFlags::EncryptAuthenticatedIndicate, "encrypt-authenticated-indicate"),
        (CharacteristicFlags::SecureRead, "secure-read"),
        (CharacteristicFlags::SecureWrite, "secure-write"),
        (CharacteristicFlags::SecureNotify, "secure-notify"),
        (CharacteristicFlags::SecureIndicate, "secure-indicate"),
        (CharacteristicFlags::Authorize, "authorize"),
    ]
}

fn descriptor_flags() -> Vec<(GattDescriptorFlags, &'static str)> {
    vec![
        (GattDescriptorFlags::Read, "read"),
        (GattDescriptorFlags::Write, "write"),
        (GattDescriptorFlags::Notify, "notify"),
        (GattDescriptorFlags::EncryptRead, "encrypt-read"),
        (GattDescriptorFlags::EncryptWrite, "encrypt-write"),
        (GattDescriptorFlags::EncryptAuthenticatedRead, "encrypt-authenticated-read"),
        (GattDescriptorFlags::EncryptAuthenticatedWrite, "encrypt-authenticated-write"),
        (GattDescriptorFlags::SecureRead, "secure-read"),
        (GattDescriptorFlags::SecureWrite, "secure-write"),
        (GattDescriptorFlags::Authorize, "authorize"),
    ]
}

#[test]
fn characteristic_flags_have_their_tokens() {
    for (flag, token) in characteristic_flags() {
        assert_eq!(flag.as_str(), token);
        assert_eq!(CharacteristicFlags::from_str(token).unwrap(), flag);
    }
}

#[test]
fn descriptor_flags_have_their_tokens() {
    for (flag, token) in descriptor_flags() {
        assert_eq!(flag.as_str(), token);
        assert_eq!(GattDescriptorFlags::from_str(token).unwrap(), flag);
    }
}

#[test]
fn unknown_flag_tokens_are_named_in_the_failure() {
    match CharacteristicFlags::from_str("fly") {
        Err(GattError::IOError(detail)) => assert_eq!(detail, "fly is an invalid variant"),
        other => panic!("{other:?}"),
    }
    match GattDescriptorFlags::from_str("indicate") {
        Err(GattError::IOError(detail)) => assert_eq!(detail, "indicate is an invalid variant"),
        other => panic!("{other:?}"),
    }
    assert!(matches!(CharacteristicFlags::from_str("Read"), Err(GattError::IOError(_))));
    assert!(matches!(CharacteristicFlags::from_str(""), Err(GattError::IOError(_))));
    assert!(matches!(CharacteristicFlags::from_str("read "), Err(GattError::IOError(_))));
}

#[test]
fn flag_lists_keep_their_order() {
    let tokens = characteristic_flag_tokens(&vec![
        CharacteristicFlags::Write,
        CharacteristicFlags::Read,
        CharacteristicFlags::Write,
    ]);
    assert_eq!(tokens, vec!["write", "read", "write"]);
    let tokens = descriptor_flag_tokens(&vec![GattDescriptorFlags::Authorize]);
    assert_eq!(tokens, vec!["authorize"]);
    assert!(descriptor_flag_tokens(&vec![]).is_empty());
}

#[test]
fn supported_includes_have_their_tokens() {
    assert_eq!(SupportedIncludes::TxPower.to_text(), "tx-power");
    assert_eq!(SupportedIncludes::Appearance.to_text(), "appearance");
    assert_eq!(SupportedIncludes::LocalName.to_text(), "local-name");
    assert_eq!(SupportedIncludes::RSI.to_text(), "rsi");
    assert_eq!(SupportedIncludes::default(), SupportedIncludes::LocalName);
    assert!(SupportedIncludes::TxPower < SupportedIncludes::Appearance);
    assert!(SupportedIncludes::LocalName < SupportedIncludes::RSI);
}

#[test]
fn advertisement_types_have_their_tokens() {
    assert_eq!(AdvertisementType::Peripheral.to_text(), "peripheral");
    assert_eq!(AdvertisementType::Broadcast.to_text(), "broadcast");
    assert_eq!(AdvertisementType::default(), AdvertisementType::Peripheral);
}

#[test]
fn secondary_channels_have_their_tokens() {
    assert_eq!(SecondaryChannel::OneM.to_text(), "1M");
    assert_eq!(SecondaryChannel::TwoM.to_text(), "2M");
    assert_eq!(SecondaryChannel::Coded.to_text(), "coded");
    assert_eq!(SecondaryChannel::default(), SecondaryChannel::Coded);
    assert_eq!(SecondaryChannel::try_from("1M").unwrap(), SecondaryChannel::OneM);
    assert_eq!(SecondaryChannel::try_from("2M").unwrap(), SecondaryChannel::TwoM);
    assert_eq!(SecondaryChannel::try_from("coded").unwrap(), SecondaryChannel::Coded);
    match SecondaryChannel::try_from("3M") {
        Err(GattError::IOError(detail)) => assert_eq!(detail, "3M is an invalid variant"),
        other => panic!("{other:?}"),
    }
}
