//! Characteristics: what one is before it is registered, and the handle that
//! stands for it and its descriptors afterwards.

use vstd::prelude::*;
use crate::descriptor::{
    GattDescriptor1,
    GattDescriptor1View,
    GattDescriptorHandle,
    GattDescriptorHandleView,
    descriptor_handle_views,
    descriptor_views,
    registered_descriptor,
};
use crate::error::{
    GattError,
    GattErrorView,
    invalid_offset_detail,
    not_supported,
    not_supported_detail,
    unused_property,
    unused_property_detail,
};
use crate::flags::{CharacteristicFlags, characteristic_flag_texts, characteristic_flag_tokens};
use crate::ident::{uuid_string, uuid_text};
use crate::path::{NodeKind, ObjectPath, child_path, root_path};
use crate::property::{PropertyMap, PropertyValue, PropertyValueView, texts_of};
use crate::value::{ValueStore, offset_of, read_from, readable, written, written_len};

verus! {

/// A characteristic as its owner declares it.
#[derive(Debug)]
pub struct GattCharacteristic1 {
    uuid: u128,
    data: ValueStore,
    flags: Vec<CharacteristicFlags>,
    notifying: Option<bool>,
    notify_acquired: Option<bool>,
    write_acquired: Option<bool>,
    descriptors: Vec<ObjectPath>,
    service_path: ObjectPath,
}

/// What a characteristic holds.
pub struct GattCharacteristic1View {
    pub uuid: u128,
    pub data: Seq<u8>,
    pub flags: Seq<CharacteristicFlags>,
    pub notifying: Option<bool>,
    pub notify_acquired: Option<bool>,
    pub write_acquired: Option<bool>,
    pub descriptors: Seq<Seq<char>>,
    pub service_path: Seq<char>,
}

/// The texts of a list of paths.
pub open spec fn path_texts(list: Seq<ObjectPath>) -> Seq<Seq<char>> {
    Seq::new(list.len(), |k: int| list[k]@)
}

impl View for GattCharacteristic1 {
    type V = GattCharacteristic1View;

    closed spec fn view(&self) -> GattCharacteristic1View {
        GattCharacteristic1View {
            uuid: self.uuid,
            data: self.data@,
            flags: self.flags@,
            notifying: self.notifying,
            notify_acquired: self.notify_acquired,
            write_acquired: self.write_acquired,
            descriptors: path_texts(self.descriptors@),
            service_path: self.service_path@,
        }
    }
}

/// The name of the interface that a characteristic is published under, as
/// failures name it.
pub open spec fn characteristic_name() -> Seq<char> {
    "GattCharacteristic1"@
}

/// A snapshot with the property `name` set to `flag`, where there is one.
pub open spec fn with_flag(
    props: Map<Seq<char>, PropertyValueView>,
    name: Seq<char>,
    flag: Option<bool>,
) -> Map<Seq<char>, PropertyValueView> {
    match flag {
        Some(b) => props.insert(name, PropertyValueView::Bool(b)),
        None => props,
    }
}

/// The snapshot of a characteristic's properties: its identifier, the path
/// of its service, each negotiated property that was given a value (and no
/// other), and its flags. Whether a service is primary is a property of the
/// service: a characteristic has none of that name.
pub open spec fn characteristic_properties(c: GattCharacteristic1View) -> Map<
    Seq<char>,
    PropertyValueView,
> {
    let base = Map::<Seq<char>, PropertyValueView>::empty().insert(
        "UUID"@,
        PropertyValueView::Str(uuid_text(c.uuid)),
    ).insert("Service"@, PropertyValueView::ObjectPath(c.service_path));
    let negotiated = with_flag(
        with_flag(with_flag(base, "WriteAcquired"@, c.write_acquired), "NotifyAcquired"@, c.notify_acquired),
        "Notifying"@,
        c.notifying,
    );
    negotiated.insert("Flags"@, PropertyValueView::StrArray(characteristic_flag_texts(c.flags)))
}

/// A negotiated property stands in the snapshot where it was given a value,
/// with that value, and nowhere else: what was never set is absent, not
/// false.
pub proof fn lemma_negotiated_properties(c: GattCharacteristic1View)
    ensures
        characteristic_properties(c).dom().contains("Notifying"@) <==> c.notifying is Some,
        characteristic_properties(c).dom().contains("NotifyAcquired"@)
            <==> c.notify_acquired is Some,
        characteristic_properties(c).dom().contains("WriteAcquired"@) <==> c.write_acquired is Some,
        c.notifying matches Some(b) ==> characteristic_properties(c)["Notifying"@]
            == PropertyValueView::Bool(b),
        c.notify_acquired matches Some(b) ==> characteristic_properties(c)["NotifyAcquired"@]
            == PropertyValueView::Bool(b),
        c.write_acquired matches Some(b) ==> characteristic_properties(c)["WriteAcquired"@]
            == PropertyValueView::Bool(b),
{
    reveal_strlit("UUID");
    reveal_strlit("Service");
    reveal_strlit("WriteAcquired");
    reveal_strlit("NotifyAcquired");
    reveal_strlit("Notifying");
    reveal_strlit("Flags");
    assert("UUID"@.len() == 4);
    assert("Service"@.len() == 7);
    assert("WriteAcquired"@.len() == 13);
    assert("NotifyAcquired"@.len() == 14);
    assert("Notifying"@.len() == 9);
    assert("Flags"@.len() == 5);
}

/// The snapshot of a characteristic holds its identifier, the path of its
/// service and its flags, and has no property that says whether anything is
/// primary.
pub proof fn lemma_characteristic_has_no_primary(c: GattCharacteristic1View)
    ensures
        characteristic_properties(c).dom().contains("UUID"@),
        characteristic_properties(c).dom().contains("Service"@),
        characteristic_properties(c).dom().contains("Flags"@),
        !characteristic_properties(c).dom().contains("Primary"@),
{
    reveal_strlit("UUID");
    reveal_strlit("Service");
    reveal_strlit("WriteAcquired");
    reveal_strlit("NotifyAcquired");
    reveal_strlit("Notifying");
    reveal_strlit("Flags");
    reveal_strlit("Primary");
    assert("UUID"@.len() == 4);
    assert("Service"@[0] == 'S');
    assert("WriteAcquired"@.len() == 13);
    assert("NotifyAcquired"@.len() == 14);
    assert("Notifying"@.len() == 9);
    assert("Flags"@.len() == 5);
    assert("Primary"@.len() == 7);
    assert("Primary"@[0] == 'P');
}

/// What stands for a registered characteristic: the characteristic as it was
/// published, the snapshot taken of it, its path, and the handles of its
/// descriptors in the order in which they were declared.
#[derive(Debug)]
pub struct GattCharacteristicHandle {
    node: GattCharacteristic1,
    property_map: PropertyMap,
    path: ObjectPath,
    descriptors: Vec<GattDescriptorHandle>,
}

/// What a characteristic's handle holds.
pub struct GattCharacteristicHandleView {
    pub node: GattCharacteristic1View,
    pub property_map: Map<Seq<char>, PropertyValueView>,
    pub path: Seq<char>,
    pub descriptors: Seq<GattDescriptorHandleView>,
}

impl View for GattCharacteristicHandle {
    type V = GattCharacteristicHandleView;

    closed spec fn view(&self) -> GattCharacteristicHandleView {
        GattCharacteristicHandleView {
            node: self.node@,
            property_map: self.property_map@,
            path: self.path@,
            descriptors: descriptor_handle_views(self.descriptors@),
        }
    }
}

/// The views of a list of characteristic handles.
pub open spec fn characteristic_handle_views(list: Seq<GattCharacteristicHandle>) -> Seq<
    GattCharacteristicHandleView,
> {
    Seq::new(list.len(), |j: int| list[j]@)
}

/// The handle of the characteristic `c` once it is registered at `path`
/// below the service at `service_path`, with the descriptors `descs`: the
/// descriptor at position `k` stands at the child path of that position,
/// whatever it holds.
pub open spec fn registered_characteristic(
    c: GattCharacteristic1View,
    path: Seq<char>,
    service_path: Seq<char>,
    descs: Seq<GattDescriptor1View>,
) -> GattCharacteristicHandleView {
    let placed = GattCharacteristic1View { service_path, ..c };
    GattCharacteristicHandleView {
        node: GattCharacteristic1View {
            descriptors: c.descriptors + Seq::new(
                descs.len(),
                |k: int| child_path(path, NodeKind::Descriptor, k as nat),
            ),
            ..placed
        },
        property_map: characteristic_properties(placed),
        path,
        descriptors: Seq::new(
            descs.len(),
            |k: int|
                registered_descriptor(descs[k], child_path(path, NodeKind::Descriptor, k as nat), path),
        ),
    }
}

/// Whether `k` is the position of the last handle in `list` with the
/// identifier `uuid`.
pub open spec fn last_descriptor_with(list: Seq<GattDescriptorHandleView>, uuid: u128, k: int) -> bool {
    &&& 0 <= k < list.len()
    &&& list[k].node.uuid == uuid
    &&& forall|l: int| k < l < list.len() ==> (#[trigger] list[l]).node.uuid != uuid
}

/// The mapping from identifier to handle that the first `upto` handles of a
/// list make: each handle stands under its identifier, in the place of any
/// earlier one that had it.
pub open spec fn descriptors_by_uuid(list: Seq<GattDescriptorHandleView>, upto: nat) -> Map<
    u128,
    GattDescriptorHandleView,
>
    decreases upto,
{
    if upto == 0 {
        Map::<u128, GattDescriptorHandleView>::empty()
    } else {
        descriptors_by_uuid(list, (upto - 1) as nat).insert(list[upto - 1].node.uuid, list[upto - 1])
    }
}

/// The mapping from identifier to handle that a list of handles makes.
pub open spec fn descriptor_map(list: Seq<GattDescriptorHandleView>) -> Map<u128, GattDescriptorHandleView> {
    descriptors_by_uuid(list, list.len())
}

/// An identifier that none of the first `upto` handles has stands for
/// nothing in their mapping.
proof fn lemma_descriptor_unmapped(list: Seq<GattDescriptorHandleView>, upto: nat, uuid: u128)
    requires
        upto <= list.len(),
        forall|l: int| 0 <= l < upto ==> (#[trigger] list[l]).node.uuid != uuid,
    ensures
        !descriptors_by_uuid(list, upto).dom().contains(uuid),
    decreases upto,
{
    if upto > 0 {
        lemma_descriptor_unmapped(list, (upto - 1) as nat, uuid);
        assert(list[upto - 1].node.uuid != uuid);
    }
}

/// An identifier stands in the mapping for the last handle that has it.
proof fn lemma_descriptor_mapped(list: Seq<GattDescriptorHandleView>, upto: nat, uuid: u128, k: int)
    requires
        0 <= k < upto <= list.len(),
        list[k].node.uuid == uuid,
        forall|l: int| k < l < upto ==> (#[trigger] list[l]).node.uuid != uuid,
    ensures
        descriptors_by_uuid(list, upto).dom().contains(uuid),
        descriptors_by_uuid(list, upto)[uuid] == list[k],
    decreases upto,
{
    if k < upto - 1 {
        lemma_descriptor_mapped(list, (upto - 1) as nat, uuid, k);
        assert(list[upto - 1].node.uuid != uuid);
    }
}

/// Where several handles share an identifier, the identifier stands for
/// the one declared last.
pub proof fn lemma_last_descriptor_wins(list: Seq<GattDescriptorHandleView>, uuid: u128, k: int)
    requires
        last_descriptor_with(list, uuid, k),
    ensures
        descriptor_map(list).dom().contains(uuid),
        descriptor_map(list)[uuid] == list[k],
{
    lemma_descriptor_mapped(list, list.len(), uuid, k);
}

/// An identifier that no handle has stands for nothing.
pub proof fn lemma_unknown_descriptor(list: Seq<GattDescriptorHandleView>, uuid: u128)
    requires
        forall|l: int| 0 <= l < list.len() ==> (#[trigger] list[l]).node.uuid != uuid,
    ensures
        !descriptor_map(list).dom().contains(uuid),
{
    lemma_descriptor_unmapped(list, list.len(), uuid);
}

impl GattCharacteristicHandle {
    /// The value of the characteristic as it was registered.
    pub fn data(&self) -> (data: &ValueStore)
        ensures
            data@ == self@.node.data,
    {
        &self.node.data
    }

    /// The characteristic as it was published.
    pub fn node(&self) -> (node: &GattCharacteristic1)
        ensures
            node@ == self@.node,
    {
        &self.node
    }

    /// The identifier of the characteristic.
    pub fn uuid(&self) -> (uuid: u128)
        ensures
            uuid == self@.node.uuid,
    {
        self.node.uuid
    }

    /// The snapshot taken when the characteristic was registered.
    pub fn property_map(&self) -> (props: PropertyMap)
        ensures
            props@ == self@.property_map,
    {
        self.property_map.duplicate()
    }

    /// The path at which the characteristic was registered.
    pub fn owned_path(&self) -> (path: ObjectPath)
        ensures
            path@ == self@.path,
    {
        self.path.duplicate()
    }

    /// The handles of the descriptors, in the order of their declaration.
    pub fn descriptors(&self) -> (list: &Vec<GattDescriptorHandle>)
        ensures
            descriptor_handle_views(list@) == self@.descriptors,
    {
        &self.descriptors
    }

    /// Reads the value of the registered characteristic from `offset` to its end.
    pub fn read_value(&self, offset: Option<u16>) -> (result: Result<Vec<u8>, GattError>)
        ensures
            readable(self@.node.data.len() as int, offset_of(offset)) ==> result is Ok
                && result->Ok_0@ == read_from(self@.node.data, offset_of(offset)),
            !readable(self@.node.data.len() as int, offset_of(offset)) ==> result is Err
                && result->Err_0@ == GattErrorView::InvalidArgs(invalid_offset_detail()),
    {
        self.node.read_value(offset)
    }

    /// Whether a write of `value_len` bytes at `offset` leaves a value whose
    /// length the machine can hold.
    pub fn can_write(&self, value_len: usize, offset: Option<u16>) -> (ok: bool)
        ensures
            ok == (written_len(self@.node.data.len() as int, value_len as int, offset_of(offset))
                <= usize::MAX),
    {
        self.node.can_write(value_len, offset)
    }

    /// Writes `value` into the value of the registered characteristic at `offset`.
    /// The snapshot stays as it was taken: it does not follow the value.
    pub fn write_value(&mut self, value: &[u8], offset: Option<u16>)
        requires
            written_len(old(self)@.node.data.len() as int, value@.len() as int, offset_of(offset))
                <= usize::MAX,
        ensures
            final(self)@ == (GattCharacteristicHandleView {
                node: GattCharacteristic1View {
                    data: written(old(self)@.node.data, value@, offset_of(offset)),
                    ..old(self)@.node
                },
                ..old(self)@
            }),
    {
        self.node.write_value(value, offset);
    }

    /// Gives up the handle for what it holds: the characteristic, its
    /// snapshot, its path and the handles of its descriptors.
    pub fn into_parts(self) -> (parts: (
        GattCharacteristic1,
        PropertyMap,
        ObjectPath,
        Vec<GattDescriptorHandle>,
    ))
        ensures
            parts.0@ == self@.node,
            parts.1@ == self@.property_map,
            parts.2@ == self@.path,
            descriptor_handle_views(parts.3@) == self@.descriptors,
    {
        (self.node, self.property_map, self.path, self.descriptors)
    }

    /// The handle that the identifier `uuid` stands for in the mapping of the
    /// descriptors: that of the descriptor declared last, where several share
    /// the identifier, and none where no descriptor has it.
    pub fn descriptor(&self, uuid: u128) -> (found: Option<&GattDescriptorHandle>)
        ensures
            match found {
                Some(handle) => descriptor_map(self@.descriptors).dom().contains(uuid) && handle@
                    == descriptor_map(self@.descriptors)[uuid],
                None => !descriptor_map(self@.descriptors).dom().contains(uuid),
            },
    {
        let mut i: usize = self.descriptors.len();
        while i > 0
            invariant
                i <= self.descriptors@.len(),
                forall|l: int|
                    i <= l < self.descriptors@.len() ==> (#[trigger] self@.descriptors[l]).node.uuid
                        != uuid,
            decreases i,
        {
            i = i - 1;
            if self.descriptors[i].uuid() == uuid {
                proof {
                    lemma_descriptor_mapped(
                        self@.descriptors,
                        self@.descriptors.len(),
                        uuid,
                        i as int,
                    );
                }
                return Some(&self.descriptors[i]);
            }
        }
        proof {
            lemma_descriptor_unmapped(self@.descriptors, self@.descriptors.len(), uuid);
        }
        None
    }
}

impl GattCharacteristic1 {
    /// A characteristic with the given identifier, value (none where none is
    /// given) and flags, with no negotiated property set, no descriptors and
    /// not yet below any service.
    pub fn new(uuid: u128, data: Option<Vec<u8>>, flags: Vec<CharacteristicFlags>) -> (c: Self)
        ensures
            c@ == (GattCharacteristic1View {
                uuid,
                data: match data {
                    Some(bytes) => bytes@,
                    None => Seq::<u8>::empty(),
                },
                flags: flags@,
                notifying: None,
                notify_acquired: None,
                write_acquired: None,
                descriptors: Seq::<Seq<char>>::empty(),
                service_path: root_path(),
            }),
    {
        let c = GattCharacteristic1 {
            uuid,
            data: ValueStore::new(data),
            flags,
            notifying: None,
            notify_acquired: None,
            write_acquired: None,
            descriptors: Vec::new(),
            service_path: ObjectPath::root(),
        };
        assert(c@.descriptors =~= Seq::<Seq<char>>::empty());
        c
    }

    /// Takes the snapshot of the characteristic's properties.
    pub fn property_map(&self) -> (props: PropertyMap)
        ensures
            props@ == characteristic_properties(self@),
    {
        let mut props = PropertyMap::new();
        props.insert("UUID".to_string(), PropertyValue::Str(uuid_string(self.uuid)));
        props.insert(
            "Service".to_string(),
            PropertyValue::ObjectPath(self.service_path.duplicate()),
        );
        if let Some(write_acquired) = self.write_acquired {
            props.insert("WriteAcquired".to_string(), PropertyValue::Bool(write_acquired));
        }
        if let Some(notify_acquired) = self.notify_acquired {
            props.insert("NotifyAcquired".to_string(), PropertyValue::Bool(notify_acquired));
        }
        if let Some(notifying) = self.notifying {
            props.insert("Notifying".to_string(), PropertyValue::Bool(notifying));
        }
        props.insert(
            "Flags".to_string(),
            PropertyValue::StrArray(characteristic_flag_tokens(&self.flags)),
        );
        props
    }

    /// Registers the characteristic at `path` below the service at
    /// `service_path`, and its descriptors below it, each at the child path of
    /// its position in `descriptors`. Below the root no descriptor can stand:
    /// with descriptors to place there, nothing is registered.
    pub fn register(
        self,
        path: ObjectPath,
        service_path: ObjectPath,
        descriptors: Vec<GattDescriptor1>,
    ) -> (result: Result<GattCharacteristicHandle, GattError>)
        ensures
            path@ != root_path() || descriptors@.len() == 0 ==> result is Ok && result->Ok_0@
                == registered_characteristic(
                self@,
                path@,
                service_path@,
                descriptor_views(descriptors@),
            ),
            path@ == root_path() && descriptors@.len() > 0 ==> result is Err && result->Err_0@
                == GattErrorView::InvalidObjectPath,
    {
        let ghost declared = self@;
        let ghost descs = descriptor_views(descriptors@);
        let mut node = self;
        node.service_path = service_path;
        let property_map = node.property_map();
        let mut handles: Vec<GattDescriptorHandle> = Vec::new();
        let mut count: usize = 0;
        let total = descriptors.len();
        for descriptor in it: descriptors
            invariant
                count == it.index(),
                it.seq() == descriptors@,
                it.seq().len() == total,
                descs == descriptor_views(descriptors@),
                count > 0 ==> path@ != root_path(),
                handles@.len() == count,
                forall|k: int|
                    0 <= k < count ==> (#[trigger] handles@[k])@ == registered_descriptor(
                        descs[k],
                        child_path(path@, NodeKind::Descriptor, k as nat),
                        path@,
                    ),
                node@ == (GattCharacteristic1View {
                    descriptors: declared.descriptors + Seq::new(
                        count as nat,
                        |k: int| child_path(path@, NodeKind::Descriptor, k as nat),
                    ),
                    service_path: service_path@,
                    ..declared
                }),
        {
            let descriptor_path = match path.child(NodeKind::Descriptor, count) {
                Ok(p) => p,
                Err(e) => {
                    return Err(e);
                },
            };
            let ghost before = node.descriptors@;
            node.descriptors.push(descriptor_path.duplicate());
            handles.push(descriptor.register(descriptor_path, path.duplicate()));
            proof {
                assert(path_texts(node.descriptors@) =~= path_texts(before).push(
                    child_path(path@, NodeKind::Descriptor, count as nat),
                ));
                assert(node@.descriptors =~= declared.descriptors + Seq::new(
                    (count + 1) as nat,
                    |k: int| child_path(path@, NodeKind::Descriptor, k as nat),
                ));
            }
            count = count + 1;
        }
        let handle = GattCharacteristicHandle { node, property_map, path, descriptors: handles };
        proof {
            let want = registered_characteristic(declared, path@, service_path@, descs);
            assert(handle@.descriptors =~= want.descriptors);
            assert(handle@.node.descriptors =~= want.node.descriptors);
        }
        Ok(handle)
    }

    /// `AcquireNotify`: not supported.
    pub fn acquire_notify(&self) -> (result: Result<(), GattError>)
        ensures
            result is Err,
            result->Err_0@ == GattErrorView::NotSupported(
                not_supported_detail("AcquireNotify"@, characteristic_name()),
            ),
    {
        Err(not_supported("AcquireNotify", "GattCharacteristic1"))
    }

    /// `AcquireWrite`: not supported.
    pub fn acquire_write(&self) -> (result: Result<(), GattError>)
        ensures
            result is Err,
            result->Err_0@ == GattErrorView::NotSupported(
                not_supported_detail("AcquireWrite"@, characteristic_name()),
            ),
    {
        Err(not_supported("AcquireWrite", "GattCharacteristic1"))
    }

    /// `Confirm`: taken note of, and nothing more.
    pub fn confirm(&self) -> (result: Result<(), GattError>)
        ensures
            result is Ok,
    {
        Ok(())
    }

    /// `StartNotify`: accepted, and nothing more.
    pub fn start_notify(&self) -> (result: Result<(), GattError>)
        ensures
            result is Ok,
    {
        Ok(())
    }

    /// `StopNotify`: accepted, and nothing more.
    pub fn stop_notify(&self) -> (result: Result<(), GattError>)
        ensures
            result is Ok,
    {
        Ok(())
    }

    /// Reads the value from `offset` to its end.
    pub fn read_value(&self, offset: Option<u16>) -> (result: Result<Vec<u8>, GattError>)
        ensures
            readable(self@.data.len() as int, offset_of(offset)) ==> result is Ok
                && result->Ok_0@ == read_from(self@.data, offset_of(offset)),
            !readable(self@.data.len() as int, offset_of(offset)) ==> result is Err
                && result->Err_0@ == GattErrorView::InvalidArgs(invalid_offset_detail()),
    {
        self.data.read(offset)
    }

    /// Whether a write of `value_len` bytes at `offset` leaves a value whose
    /// length the machine can hold.
    pub fn can_write(&self, value_len: usize, offset: Option<u16>) -> (ok: bool)
        ensures
            ok == (written_len(self@.data.len() as int, value_len as int, offset_of(offset))
                <= usize::MAX),
    {
        self.data.fits(value_len, offset)
    }

    /// Writes `value` into the stored value at `offset`.
    pub fn write_value(&mut self, value: &[u8], offset: Option<u16>)
        requires
            written_len(old(self)@.data.len() as int, value@.len() as int, offset_of(offset))
                <= usize::MAX,
        ensures
            final(self)@ == (GattCharacteristic1View {
                data: written(old(self)@.data, value@, offset_of(offset)),
                ..old(self)@
            }),
    {
        self.data.write(value, offset);
    }

    /// The paths of the characteristic's descriptors.
    pub fn descriptors(&self) -> (paths: Vec<ObjectPath>)
        ensures
            path_texts(paths@) == self@.descriptors,
    {
        let mut paths: Vec<ObjectPath> = Vec::new();
        let mut i: usize = 0;
        while i < self.descriptors.len()
            invariant
                i <= self.descriptors@.len(),
                paths@.len() == i,
                forall|k: int| 0 <= k < i ==> (#[trigger] paths@[k])@ == self.descriptors@[k]@,
            decreases self.descriptors@.len() - i,
        {
            paths.push(self.descriptors[i].duplicate());
            i = i + 1;
        }
        assert(path_texts(paths@) =~= self@.descriptors);
        paths
    }

    /// The tokens of the characteristic's flags, in their order.
    pub fn flags(&self) -> (tokens: Vec<String>)
        ensures
            texts_of(tokens@) == characteristic_flag_texts(self@.flags),
    {
        characteristic_flag_tokens(&self.flags)
    }

    /// Whether the value was acquired for notifying; unknown where that was
    /// never negotiated.
    pub fn notify_acquired(&self) -> (result: Result<bool, GattError>)
        ensures
            match self@.notify_acquired {
                Some(b) => result == Ok::<bool, GattError>(b),
                None => result is Err && result->Err_0@ == GattErrorView::UnknownProperty(
                    unused_property_detail("notify_acquired"@, characteristic_name()),
                ),
            },
    {
        match self.notify_acquired {
            Some(b) => Ok(b),
            None => Err(unused_property("notify_acquired", "GattCharacteristic1")),
        }
    }

    /// Whether notifications are on; unknown where that was never set.
    pub fn notifying(&self) -> (result: Result<bool, GattError>)
        ensures
            match self@.notifying {
                Some(b) => result == Ok::<bool, GattError>(b),
                None => result is Err && result->Err_0@ == GattErrorView::UnknownProperty(
                    unused_property_detail("notifying"@, characteristic_name()),
                ),
            },
    {
        match self.notifying {
            Some(b) => Ok(b),
            None => Err(unused_property("notifying", "GattCharacteristic1")),
        }
    }

    /// Whether the value was acquired for writing; unknown where that was
    /// never negotiated.
    pub fn write_acquired(&self) -> (result: Result<bool, GattError>)
        ensures
            match self@.write_acquired {
                Some(b) => result == Ok::<bool, GattError>(b),
                None => result is Err && result->Err_0@ == GattErrorView::UnknownProperty(
                    unused_property_detail("write_acquired"@, characteristic_name()),
                ),
            },
    {
        match self.write_acquired {
            Some(b) => Ok(b),
            None => Err(unused_property("write_acquired", "GattCharacteristic1")),
        }
    }

    /// The path of the service that the characteristic belongs to.
    pub fn service(&self) -> (path: ObjectPath)
        ensures
            path@ == self@.service_path,
    {
        self.service_path.duplicate()
    }

    /// The identifier of the characteristic as it goes on the wire.
    pub fn uuid(&self) -> (text: String)
        ensures
            text@ == uuid_text(self@.uuid),
    {
        uuid_string(self.uuid)
    }

    /// What the `Value` property reports: always nothing. The stored value
    /// is had by `read_value`.
    pub fn value(&self) -> (bytes: Vec<u8>)
        ensures
            bytes@ == Seq::<u8>::empty(),
    {
        Vec::new()
    }
}

} // verus!
