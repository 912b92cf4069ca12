//! The kinds of advertising packet and of secondary channel, and the tokens
//! that stand for them on the wire.

use vstd::prelude::*;
use crate::error::{
    GattError,
    GattErrorView,
    experimental_property,
    experimental_property_detail,
    invalid_variant,
    invalid_variant_detail,
    unused_property,
    unused_property_detail,
};
use crate::flags::SupportedIncludes;
use crate::ident::{uuid_string, uuid_text};
use crate::property::{duplicate_bytes, texts_of};
use crate::text::same_text;

verus! {

/// The type of advertising packet that is asked for.
#[derive(Debug, PartialEq, Eq, Clone, Copy, Structural)]
pub enum AdvertisementType {
    Peripheral,
    Broadcast,
}

impl Default for AdvertisementType {
    fn default() -> (kind: AdvertisementType)
        ensures
            kind == AdvertisementType::Peripheral,
    {
        AdvertisementType::Peripheral
    }
}

impl AdvertisementType {
    /// The token that stands for the type on the wire.
    pub open spec fn text(self) -> Seq<char> {
        match self {
            AdvertisementType::Peripheral => "peripheral"@,
            AdvertisementType::Broadcast => "broadcast"@,
        }
    }

    /// The two types have different tokens.
    pub proof fn lemma_text_injective(a: AdvertisementType, b: AdvertisementType)
        requires
            a.text() == b.text(),
        ensures
            a == b,
    {
        reveal_strlit("peripheral");
        reveal_strlit("broadcast");
        assert("peripheral"@.len() == 10);
        assert("broadcast"@.len() == 9);
    }

    /// The token of the type.
    pub fn as_str(&self) -> (token: &'static str)
        ensures
            token@ == self.text(),
    {
        match self {
            AdvertisementType::Peripheral => "peripheral",
            AdvertisementType::Broadcast => "broadcast",
        }
    }

    /// The token of the type, as a text of its own.
    pub fn to_text(self) -> (token: String)
        ensures
            token@ == self.text(),
    {
        self.as_str().to_string()
    }
}

/// The secondary channel that an advertisement may ask for.
#[derive(Debug, PartialEq, Eq, Clone, Copy, Structural)]
pub enum SecondaryChannel {
    OneM,
    TwoM,
    Coded,
}

impl Default for SecondaryChannel {
    fn default() -> (channel: SecondaryChannel)
        ensures
            channel == SecondaryChannel::Coded,
    {
        SecondaryChannel::Coded
    }
}

impl SecondaryChannel {
    /// The token that stands for the channel on the wire.
    pub open spec fn text(self) -> Seq<char> {
        match self {
            SecondaryChannel::OneM => "1M"@,
            SecondaryChannel::TwoM => "2M"@,
            SecondaryChannel::Coded => "coded"@,
        }
    }

    /// No two channels share a token.
    pub proof fn lemma_text_injective(a: SecondaryChannel, b: SecondaryChannel)
        requires
            a.text() == b.text(),
        ensures
            a == b,
    {
        reveal_strlit("1M");
        reveal_strlit("2M");
        reveal_strlit("coded");
        assert("1M"@[0] == '1');
        assert("2M"@[0] == '2');
        assert("coded"@[0] == 'c');
    }

    /// The token of the channel.
    pub fn as_str(&self) -> (token: &'static str)
        ensures
            token@ == self.text(),
    {
        match self {
            SecondaryChannel::OneM => "1M",
            SecondaryChannel::TwoM => "2M",
            SecondaryChannel::Coded => "coded",
        }
    }

    /// The token of the channel, as a text of its own.
    pub fn to_text(&self) -> (token: String)
        ensures
            token@ == self.text(),
    {
        self.as_str().to_string()
    }

    /// The channel whose token is `value`, if any.
    fn lookup(value: &str) -> (found: Option<SecondaryChannel>)
        ensures
            match found {
                Some(c) => c.text() == value@,
                None => forall|c: SecondaryChannel| c.text() != value@,
            },
    {
        if same_text(value, "1M") {
            Some(SecondaryChannel::OneM)
        } else if same_text(value, "2M") {
            Some(SecondaryChannel::TwoM)
        } else if same_text(value, "coded") {
            Some(SecondaryChannel::Coded)
        } else {
            None
        }
    }

    /// The channel that a token stands for. A text that is no token of a
    /// channel is turned down, and named in the failure.
    pub fn try_from(value: &str) -> (result: Result<SecondaryChannel, GattError>)
        ensures
            forall|c: SecondaryChannel|
                c.text() == value@ ==> result == Ok::<SecondaryChannel, GattError>(c),
            (forall|c: SecondaryChannel| c.text() != value@) ==> result is Err && result->Err_0@
                == GattErrorView::IOError(invalid_variant_detail(value@)),
    {
        match SecondaryChannel::lookup(value) {
            Some(found) => {
                proof {
                    assert forall|c: SecondaryChannel| c.text() == value@ implies c == found by {
                        SecondaryChannel::lemma_text_injective(c, found);
                    }
                }
                Ok(found)
            },
            None => Err(invalid_variant(value)),
        }
    }
}

/// The name of the advertisement's interface, as failures name it.
pub open spec fn advertisement_name() -> Seq<char> {
    "LEAdvertisement1"@
}

/// The failure that reports the property `prop` of an advertisement as
/// never given a value.
pub open spec fn unused(prop: Seq<char>) -> GattErrorView {
    GattErrorView::UnknownProperty(unused_property_detail(prop, advertisement_name()))
}

/// The failure that reports the property `prop` of an advertisement as
/// switched off.
pub open spec fn switched_off(prop: Seq<char>) -> GattErrorView {
    GattErrorView::UnknownProperty(experimental_property_detail(prop, advertisement_name()))
}

/// The texts of a list of identifiers, in the order of the list.
pub open spec fn uuid_texts(list: Seq<u128>) -> Seq<Seq<char>> {
    Seq::new(list.len(), |i: int| uuid_text(list[i]))
}

/// What a list of data fields holds, each under its number.
pub open spec fn numbered_data(list: Seq<(u16, Vec<u8>)>) -> Seq<(u16, Seq<u8>)> {
    Seq::new(list.len(), |i: int| (list[i].0, list[i].1@))
}

/// What a list of data fields holds, each under the text of its identifier.
pub open spec fn identified_data(list: Seq<(u128, Vec<u8>)>) -> Seq<(Seq<char>, Seq<u8>)> {
    Seq::new(list.len(), |i: int| (uuid_text(list[i].0), list[i].1@))
}

/// What a list of data fields under texts holds.
pub open spec fn named_data(list: Seq<(String, Vec<u8>)>) -> Seq<(Seq<char>, Seq<u8>)> {
    Seq::new(list.len(), |i: int| (list[i].0@, list[i].1@))
}

/// The tokens of a list of features, in the order of the list.
pub open spec fn include_texts(list: Seq<SupportedIncludes>) -> Seq<Seq<char>> {
    Seq::new(list.len(), |i: int| list[i].text())
}

/// A number of seconds as the sixteen bits that go on the wire: what is
/// left of it modulo 65536.
pub open spec fn wire_seconds(seconds: u64) -> u16 {
    (seconds % 0x1_0000) as u16
}

/// The texts of a list of identifiers.
fn identifiers(list: &Vec<u128>) -> (texts: Vec<String>)
    ensures
        texts_of(texts@) == uuid_texts(list@),
{
    let mut texts: Vec<String> = Vec::new();
    let mut i: usize = 0;
    while i < list.len()
        invariant
            i <= list@.len(),
            texts@.len() == i,
            forall|k: int| 0 <= k < i ==> (#[trigger] texts@[k])@ == uuid_text(list@[k]),
        decreases list@.len() - i,
    {
        texts.push(uuid_string(list[i]));
        i = i + 1;
    }
    assert(texts_of(texts@) =~= uuid_texts(list@));
    texts
}

/// An advertisement as its owner declares it. A list stands for a set or a
/// mapping: its order is the order in which its entries are reported.
#[derive(Debug)]
pub struct LEAdvertisement1 {
    /// The type of advertising packet that is asked for.
    pub type_: AdvertisementType,
    /// The identifiers for the "Service UUID" field of the advertising data.
    pub service_uuids: Vec<u128>,
    /// The manufacturer data fields, each under its manufacturer's number.
    pub manufacturer_data: Vec<(u16, Vec<u8>)>,
    /// The identifiers for the "Service Solicitation" field.
    pub solicit_uuids: Vec<u128>,
    /// The service data elements, each under the identifier of its service.
    pub service_data: Vec<(u128, Vec<u8>)>,
    /// The features that the advertising packet is to carry.
    pub includes: Vec<SupportedIncludes>,
    /// The local name.
    pub local_name: Option<String>,
    /// The appearance for the advertising report.
    pub appearance: Option<u16>,
    /// How long the advertisement is shown in each rotation, in seconds.
    pub duration: Option<u64>,
    /// The lifetime of the advertisement, in seconds.
    pub timeout: Option<u64>,
}

impl Default for LEAdvertisement1 {
    fn default() -> (adv: LEAdvertisement1)
        ensures
            adv.type_ == AdvertisementType::Peripheral,
            adv.service_uuids@.len() == 0,
            adv.manufacturer_data@.len() == 0,
            adv.solicit_uuids@.len() == 0,
            adv.service_data@.len() == 0,
            adv.includes@.len() == 0,
            adv.local_name is None,
            adv.appearance is None,
            adv.duration is None,
            adv.timeout is None,
    {
        LEAdvertisement1 {
            type_: AdvertisementType::Peripheral,
            service_uuids: Vec::new(),
            manufacturer_data: Vec::new(),
            solicit_uuids: Vec::new(),
            service_data: Vec::new(),
            includes: Vec::new(),
            local_name: None,
            appearance: None,
            duration: None,
            timeout: None,
        }
    }
}

impl LEAdvertisement1 {
    /// `Release`: taken note of, and nothing more.
    pub fn release(&self) -> (result: Result<(), GattError>)
        ensures
            result is Ok,
    {
        Ok(())
    }

    /// The appearance; unknown where none was given.
    pub fn appearance(&self) -> (result: Result<u16, GattError>)
        ensures
            match self.appearance {
                Some(a) => result == Ok::<u16, GattError>(a),
                None => result is Err && result->Err_0@ == unused("appearance"@),
            },
    {
        match self.appearance {
            Some(a) => Ok(a),
            None => Err(unused_property("appearance", "LEAdvertisement1")),
        }
    }

    /// The advertising data by type: switched off.
    pub fn data(&self) -> (result: Result<Vec<(u8, Vec<u8>)>, GattError>)
        ensures
            result is Err && result->Err_0@ == switched_off("data"@),
    {
        Err(experimental_property("data", "LEAdvertisement1"))
    }

    /// Whether to advertise as discoverable: switched off.
    pub fn discoverable(&self) -> (result: Result<bool, GattError>)
        ensures
            result is Err && result->Err_0@ == switched_off("discoverable"@),
    {
        Err(experimental_property("discoverable", "LEAdvertisement1"))
    }

    /// For how long to be discoverable: switched off.
    pub fn discoverable_timeout(&self) -> (result: Result<u16, GattError>)
        ensures
            result is Err && result->Err_0@ == switched_off("discoverable_timeout"@),
    {
        Err(experimental_property("discoverable_timeout", "LEAdvertisement1"))
    }

    /// The duration in seconds, as far as sixteen bits hold it; unknown
    /// where none was given.
    pub fn duration(&self) -> (result: Result<u16, GattError>)
        ensures
            match self.duration {
                Some(seconds) => result == Ok::<u16, GattError>(wire_seconds(seconds)),
                None => result is Err && result->Err_0@ == unused("duration"@),
            },
    {
        match self.duration {
            Some(seconds) => Ok((seconds % 0x1_0000) as u16),
            None => Err(unused_property("duration", "LEAdvertisement1")),
        }
    }

    /// The tokens of the features to carry; unknown where there are none.
    pub fn includes(&self) -> (result: Result<Vec<String>, GattError>)
        ensures
            self.includes@.len() > 0 ==> result is Ok && texts_of(result->Ok_0@) == include_texts(
                self.includes@,
            ),
            self.includes@.len() == 0 ==> result is Err && result->Err_0@ == unused("includes"@),
    {
        if self.includes.len() == 0 {
            return Err(unused_property("includes", "LEAdvertisement1"));
        }
        let mut tokens: Vec<String> = Vec::new();
        let mut i: usize = 0;
        while i < self.includes.len()
            invariant
                i <= self.includes@.len(),
                tokens@.len() == i,
                forall|k: int| 0 <= k < i ==> (#[trigger] tokens@[k])@ == self.includes@[k].text(),
            decreases self.includes@.len() - i,
        {
            tokens.push(self.includes[i].to_text());
            i = i + 1;
        }
        assert(texts_of(tokens@) =~= include_texts(self.includes@));
        Ok(tokens)
    }

    /// The local name; unknown where none was given.
    pub fn local_name(&self) -> (result: Result<String, GattError>)
        ensures
            match self.local_name {
                Some(name) => result is Ok && result->Ok_0@ == name@,
                None => result is Err && result->Err_0@ == unused("local_name"@),
            },
    {
        match &self.local_name {
            Some(name) => Ok(name.clone()),
            None => Err(unused_property("local_name", "LEAdvertisement1")),
        }
    }

    /// The manufacturer data; unknown where there is none.
    pub fn manufacturer_data(&self) -> (result: Result<Vec<(u16, Vec<u8>)>, GattError>)
        ensures
            self.manufacturer_data@.len() > 0 ==> result is Ok && numbered_data(result->Ok_0@)
                == numbered_data(self.manufacturer_data@),
            self.manufacturer_data@.len() == 0 ==> result is Err && result->Err_0@ == unused(
                "manufacturer_data"@,
            ),
    {
        if self.manufacturer_data.len() == 0 {
            return Err(unused_property("manufacturer_data", "LEAdvertisement1"));
        }
        let mut fields: Vec<(u16, Vec<u8>)> = Vec::new();
        let mut i: usize = 0;
        while i < self.manufacturer_data.len()
            invariant
                i <= self.manufacturer_data@.len(),
                fields@.len() == i,
                forall|k: int|
                    0 <= k < i ==> (#[trigger] fields@[k]).0 == self.manufacturer_data@[k].0
                        && fields@[k].1@ == self.manufacturer_data@[k].1@,
            decreases self.manufacturer_data@.len() - i,
        {
            let field = &self.manufacturer_data[i];
            fields.push((field.0, duplicate_bytes(&field.1)));
            i = i + 1;
        }
        assert(numbered_data(fields@) =~= numbered_data(self.manufacturer_data@));
        Ok(fields)
    }

    /// The texts of the identifiers to solicit; unknown where there are
    /// none.
    pub fn solicit_uuids(&self) -> (result: Result<Vec<String>, GattError>)
        ensures
            self.solicit_uuids@.len() > 0 ==> result is Ok && texts_of(result->Ok_0@)
                == uuid_texts(self.solicit_uuids@),
            self.solicit_uuids@.len() == 0 ==> result is Err && result->Err_0@ == unused(
                "solicit_uuids"@,
            ),
    {
        if self.solicit_uuids.len() == 0 {
            return Err(unused_property("solicit_uuids", "LEAdvertisement1"));
        }
        Ok(identifiers(&self.solicit_uuids))
    }

    /// The service data, each element under the text of its identifier;
    /// unknown where there is none.
    pub fn service_data(&self) -> (result: Result<Vec<(String, Vec<u8>)>, GattError>)
        ensures
            self.service_data@.len() > 0 ==> result is Ok && named_data(result->Ok_0@)
                == identified_data(self.service_data@),
            self.service_data@.len() == 0 ==> result is Err && result->Err_0@ == unused(
                "service_data"@,
            ),
    {
        if self.service_data.len() == 0 {
            return Err(unused_property("service_data", "LEAdvertisement1"));
        }
        let mut fields: Vec<(String, Vec<u8>)> = Vec::new();
        let mut i: usize = 0;
        while i < self.service_data.len()
            invariant
                i <= self.service_data@.len(),
                fields@.len() == i,
                forall|k: int|
                    0 <= k < i ==> (#[trigger] fields@[k]).0@ == uuid_text(self.service_data@[k].0)
                        && fields@[k].1@ == self.service_data@[k].1@,
            decreases self.service_data@.len() - i,
        {
            let field = &self.service_data[i];
            fields.push((uuid_string(field.0), duplicate_bytes(&field.1)));
            i = i + 1;
        }
        assert(named_data(fields@) =~= identified_data(self.service_data@));
        Ok(fields)
    }

    /// The texts of the service identifiers; unknown where there are none.
    pub fn service_uuids(&self) -> (result: Result<Vec<String>, GattError>)
        ensures
            self.service_uuids@.len() > 0 ==> result is Ok && texts_of(result->Ok_0@)
                == uuid_texts(self.service_uuids@),
            self.service_uuids@.len() == 0 ==> result is Err && result->Err_0@ == unused(
                "service_uuids"@,
            ),
    {
        if self.service_uuids.len() == 0 {
            return Err(unused_property("service_uuids", "LEAdvertisement1"));
        }
        Ok(identifiers(&self.service_uuids))
    }

    /// The timeout in seconds, as far as sixteen bits hold it; unknown where
    /// none was given.
    pub fn timeout(&self) -> (result: Result<u16, GattError>)
        ensures
            match self.timeout {
                Some(seconds) => result == Ok::<u16, GattError>(wire_seconds(seconds)),
                None => result is Err && result->Err_0@ == unused("timeout"@),
            },
    {
        match self.timeout {
            Some(seconds) => Ok((seconds % 0x1_0000) as u16),
            None => Err(unused_property("timeout", "LEAdvertisement1")),
        }
    }

    /// The shortest advertising interval: switched off.
    pub fn min_interval(&self) -> (result: Result<u32, GattError>)
        ensures
            result is Err && result->Err_0@ == switched_off("min_interval"@),
    {
        Err(experimental_property("min_interval", "LEAdvertisement1"))
    }

    /// The longest advertising interval: switched off.
    pub fn max_interval(&self) -> (result: Result<u32, GattError>)
        ensures
            result is Err && result->Err_0@ == switched_off("max_interval"@),
    {
        Err(experimental_property("max_interval", "LEAdvertisement1"))
    }

    /// The transmission power: switched off.
    pub fn tx_power(&self) -> (result: Result<i16, GattError>)
        ensures
            result is Err && result->Err_0@ == switched_off("tx_power"@),
    {
        Err(experimental_property("tx_power", "LEAdvertisement1"))
    }

    /// The token of the advertisement's type.
    pub fn type_(&self) -> (result: Result<String, GattError>)
        ensures
            result is Ok && result->Ok_0@ == self.type_.text(),
    {
        Ok(self.type_.to_text())
    }
}

} // verus!
