//! Descriptors: what one is before it is registered, and the handle that
//! stands for it afterwards.

use vstd::prelude::*;
use crate::error::{GattError, GattErrorView, invalid_offset_detail};
use crate::flags::{GattDescriptorFlags, descriptor_flag_texts, descriptor_flag_tokens};
use crate::ident::{uuid_string, uuid_text};
use crate::path::{ObjectPath, root_path};
use crate::property::{PropertyMap, PropertyValue, PropertyValueView, duplicate_bytes};
use crate::value::{ValueStore, offset_of, read_from, readable, written, written_len};

verus! {

/// A descriptor as its owner declares it.
#[derive(Debug)]
pub struct GattDescriptor1 {
    uuid: u128,
    data: ValueStore,
    flags: Vec<GattDescriptorFlags>,
    char_path: ObjectPath,
}

/// What a descriptor holds.
pub struct GattDescriptor1View {
    pub uuid: u128,
    pub data: Seq<u8>,
    pub flags: Seq<GattDescriptorFlags>,
    pub char_path: Seq<char>,
}

impl View for GattDescriptor1 {
    type V = GattDescriptor1View;

    closed spec fn view(&self) -> GattDescriptor1View {
        GattDescriptor1View {
            uuid: self.uuid,
            data: self.data@,
            flags: self.flags@,
            char_path: self.char_path@,
        }
    }
}

/// The views of a list of descriptors.
pub open spec fn descriptor_views(list: Seq<GattDescriptor1>) -> Seq<GattDescriptor1View> {
    Seq::new(list.len(), |k: int| list[k]@)
}

/// The snapshot of a descriptor's properties: its identifier, the path of
/// its characteristic, its value and its flags.
pub open spec fn descriptor_properties(d: GattDescriptor1View) -> Map<Seq<char>, PropertyValueView> {
    Map::<Seq<char>, PropertyValueView>::empty().insert(
        "UUID"@,
        PropertyValueView::Str(uuid_text(d.uuid)),
    ).insert("Characteristic"@, PropertyValueView::ObjectPath(d.char_path)).insert(
        "Value"@,
        PropertyValueView::ByteArray(d.data),
    ).insert("Flags"@, PropertyValueView::StrArray(descriptor_flag_texts(d.flags)))
}

/// What stands for a registered descriptor: the descriptor as it was
/// published, the snapshot taken of it then, and its path.
#[derive(Debug)]
pub struct GattDescriptorHandle {
    node: GattDescriptor1,
    property_map: PropertyMap,
    path: ObjectPath,
}

/// What a descriptor's handle holds.
pub struct GattDescriptorHandleView {
    pub node: GattDescriptor1View,
    pub property_map: Map<Seq<char>, PropertyValueView>,
    pub path: Seq<char>,
}

impl View for GattDescriptorHandle {
    type V = GattDescriptorHandleView;

    closed spec fn view(&self) -> GattDescriptorHandleView {
        GattDescriptorHandleView {
            node: self.node@,
            property_map: self.property_map@,
            path: self.path@,
        }
    }
}

/// The views of a list of descriptor handles.
pub open spec fn descriptor_handle_views(list: Seq<GattDescriptorHandle>) -> Seq<
    GattDescriptorHandleView,
> {
    Seq::new(list.len(), |k: int| list[k]@)
}

/// The handle of the descriptor `d` once it is registered at `path` below
/// the characteristic at `char_path`.
pub open spec fn registered_descriptor(
    d: GattDescriptor1View,
    path: Seq<char>,
    char_path: Seq<char>,
) -> GattDescriptorHandleView {
    let node = GattDescriptor1View { char_path, ..d };
    GattDescriptorHandleView { node, property_map: descriptor_properties(node), path }
}

impl GattDescriptorHandle {
    /// The value of the descriptor as it was registered.
    pub fn data(&self) -> (data: &ValueStore)
        ensures
            data@ == self@.node.data,
    {
        &self.node.data
    }

    /// The descriptor as it was published.
    pub fn node(&self) -> (node: &GattDescriptor1)
        ensures
            node@ == self@.node,
    {
        &self.node
    }

    /// The identifier of the descriptor.
    pub fn uuid(&self) -> (uuid: u128)
        ensures
            uuid == self@.node.uuid,
    {
        self.node.uuid
    }

    /// The snapshot taken when the descriptor was registered.
    pub fn property_map(&self) -> (props: PropertyMap)
        ensures
            props@ == self@.property_map,
    {
        self.property_map.duplicate()
    }

    /// The path at which the descriptor was registered.
    pub fn owned_path(&self) -> (path: ObjectPath)
        ensures
            path@ == self@.path,
    {
        self.path.duplicate()
    }

    /// Reads the value of the registered descriptor from `offset` to its end.
    pub fn read_value(&self, offset: Option<u16>) -> (result: Result<Vec<u8>, GattError>)
        ensures
            readable(self@.node.data.len() as int, offset_of(offset)) ==> result is Ok
                && result->Ok_0@ == read_from(self@.node.data, offset_of(offset)),
            !readable(self@.node.data.len() as int, offset_of(offset)) ==> result is Err
                && result->Err_0@ == GattErrorView::InvalidArgs(invalid_offset_detail()),
    {
        self.node.read_value(offset)
    }

    /// Whether a write of `value_len` bytes at `offset` leaves a value whose
    /// length the machine can hold.
    pub fn can_write(&self, value_len: usize, offset: Option<u16>) -> (ok: bool)
        ensures
            ok == (written_len(self@.node.data.len() as int, value_len as int, offset_of(offset))
                <= usize::MAX),
    {
        self.node.can_write(value_len, offset)
    }

    /// Writes `value` into the value of the registered descriptor at `offset`.
    /// The snapshot stays as it was taken: it does not follow the value.
    pub fn write_value(&mut self, value: &[u8], offset: Option<u16>)
        requires
            written_len(old(self)@.node.data.len() as int, value@.len() as int, offset_of(offset))
                <= usize::MAX,
        ensures
            final(self)@ == (GattDescriptorHandleView {
                node: GattDescriptor1View {
                    data: written(old(self)@.node.data, value@, offset_of(offset)),
                    ..old(self)@.node
                },
                ..old(self)@
            }),
    {
        self.node.write_value(value, offset);
    }

    /// Gives up the handle for what it holds: the descriptor, its snapshot
    /// and its path.
    pub fn into_parts(self) -> (parts: (GattDescriptor1, PropertyMap, ObjectPath))
        ensures
            parts.0@ == self@.node,
            parts.1@ == self@.property_map,
            parts.2@ == self@.path,
    {
        (self.node, self.property_map, self.path)
    }
}

impl GattDescriptor1 {
    /// A descriptor with the given identifier, value (none where none is
    /// given) and flags, not yet below any characteristic.
    pub fn new(uuid: u128, data: Option<Vec<u8>>, flags: Vec<GattDescriptorFlags>) -> (d: Self)
        ensures
            d@ == (GattDescriptor1View {
                uuid,
                data: match data {
                    Some(bytes) => bytes@,
                    None => Seq::<u8>::empty(),
                },
                flags: flags@,
                char_path: root_path(),
            }),
    {
        GattDescriptor1 { uuid, data: ValueStore::new(data), flags, char_path: ObjectPath::root() }
    }

    /// The value of the descriptor.
    pub fn data(&self) -> (data: &ValueStore)
        ensures
            data@ == self@.data,
    {
        &self.data
    }

    /// Takes the snapshot of the descriptor's properties.
    pub fn property_map(&self) -> (props: PropertyMap)
        ensures
            props@ == descriptor_properties(self@),
    {
        let mut props = PropertyMap::new();
        props.insert("UUID".to_string(), PropertyValue::Str(uuid_string(self.uuid)));
        props.insert(
            "Characteristic".to_string(),
            PropertyValue::ObjectPath(self.char_path.duplicate()),
        );
        props.insert(
            "Value".to_string(),
            PropertyValue::ByteArray(duplicate_bytes(self.data.bytes())),
        );
        props.insert(
            "Flags".to_string(),
            PropertyValue::StrArray(descriptor_flag_tokens(&self.flags)),
        );
        props
    }

    /// Registers the descriptor at `path` below the characteristic at
    /// `characteristic_path`: the descriptor learns where its characteristic
    /// is, and its snapshot is taken.
    pub fn register(self, path: ObjectPath, characteristic_path: ObjectPath) -> (handle:
        GattDescriptorHandle)
        ensures
            handle@ == registered_descriptor(self@, path@, characteristic_path@),
    {
        let mut node = self;
        node.char_path = characteristic_path;
        let property_map = node.property_map();
        GattDescriptorHandle { node, property_map, path }
    }

    /// Reads the value from `offset` to its end.
    pub fn read_value(&self, offset: Option<u16>) -> (result: Result<Vec<u8>, GattError>)
        ensures
            readable(self@.data.len() as int, offset_of(offset)) ==> result is Ok
                && result->Ok_0@ == read_from(self@.data, offset_of(offset)),
            !readable(self@.data.len() as int, offset_of(offset)) ==> result is Err
                && result->Err_0@ == GattErrorView::InvalidArgs(invalid_offset_detail()),
    {
        self.data.read(offset)
    }

    /// Whether a write of `value_len` bytes at `offset` leaves a value whose
    /// length the machine can hold.
    pub fn can_write(&self, value_len: usize, offset: Option<u16>) -> (ok: bool)
        ensures
            ok == (written_len(self@.data.len() as int, value_len as int, offset_of(offset))
                <= usize::MAX),
    {
        self.data.fits(value_len, offset)
    }

    /// Writes `value` into the stored value at `offset`.
    pub fn write_value(&mut self, value: &[u8], offset: Option<u16>)
        requires
            written_len(old(self)@.data.len() as int, value@.len() as int, offset_of(offset))
                <= usize::MAX,
        ensures
            final(self)@ == (GattDescriptor1View {
                data: written(old(self)@.data, value@, offset_of(offset)),
                ..old(self)@
            }),
    {
        self.data.write(value, offset);
    }

    /// The path of the characteristic that the descriptor belongs to.
    pub fn characteristic(&self) -> (path: ObjectPath)
        ensures
            path@ == self@.char_path,
    {
        self.char_path.duplicate()
    }

    /// The tokens of the descriptor's flags, in their order.
    pub fn flags(&self) -> (tokens: Vec<String>)
        ensures
            crate::property::texts_of(tokens@) == descriptor_flag_texts(self@.flags),
    {
        descriptor_flag_tokens(&self.flags)
    }

    /// The identifier of the descriptor as it goes on the wire.
    pub fn uuid(&self) -> (text: String)
        ensures
            text@ == uuid_text(self@.uuid),
    {
        uuid_string(self.uuid)
    }

    /// What the `Value` property reports: always nothing. The stored value
    /// is had by `read_value`.
    pub fn value(&self) -> (bytes: Vec<u8>)
        ensures
            bytes@ == Seq::<u8>::empty(),
    {
        Vec::new()
    }
}

} // verus!
