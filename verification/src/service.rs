//! Services: what one is before it is registered, and the handle that stands
//! for it and its characteristics afterwards.

use vstd::prelude::*;
use crate::characteristic::{
    GattCharacteristic1,
    GattCharacteristic1View,
    GattCharacteristicHandle,
    GattCharacteristicHandleView,
    characteristic_handle_views,
    registered_characteristic,
};
use crate::descriptor::{GattDescriptor1, GattDescriptor1View, descriptor_views};
use crate::error::{GattError, GattErrorView};
use crate::ident::{uuid_string, uuid_text};
use crate::path::{NodeKind, ObjectPath, child_path, lemma_child_tail, root_path};
use crate::property::{PropertyMap, PropertyValue, PropertyValueView};

verus! {

/// A service as its owner declares it.
#[derive(Debug)]
pub struct GattService1 {
    uuid: u128,
    primary: bool,
}

/// What a service holds.
pub struct GattService1View {
    pub uuid: u128,
    pub primary: bool,
}

impl View for GattService1 {
    type V = GattService1View;

    closed spec fn view(&self) -> GattService1View {
        GattService1View { uuid: self.uuid, primary: self.primary }
    }
}

/// The snapshot of a service's properties: its identifier and whether it is
/// a primary service.
pub open spec fn service_properties(s: GattService1View) -> Map<Seq<char>, PropertyValueView> {
    Map::<Seq<char>, PropertyValueView>::empty().insert(
        "UUID"@,
        PropertyValueView::Str(uuid_text(s.uuid)),
    ).insert("Primary"@, PropertyValueView::Bool(s.primary))
}

/// The views of the characteristics of a declaration, each with those of its
/// descriptors.
pub open spec fn characteristic_decl_views(
    list: Seq<(GattCharacteristic1, Vec<GattDescriptor1>)>,
) -> Seq<(GattCharacteristic1View, Seq<GattDescriptor1View>)> {
    Seq::new(list.len(), |j: int| (list[j].0@, descriptor_views(list[j].1@)))
}

/// What stands for a registered service: the service as it was published,
/// the snapshot taken of it, its path, and the handles of its characteristics
/// in the order in which they were declared.
#[derive(Debug)]
pub struct GattServiceHandle {
    characteristics: Vec<GattCharacteristicHandle>,
    node: GattService1,
    property_map: PropertyMap,
    path: ObjectPath,
}

/// What a service's handle holds.
pub struct GattServiceHandleView {
    pub characteristics: Seq<GattCharacteristicHandleView>,
    pub node: GattService1View,
    pub property_map: Map<Seq<char>, PropertyValueView>,
    pub path: Seq<char>,
}

impl View for GattServiceHandle {
    type V = GattServiceHandleView;

    closed spec fn view(&self) -> GattServiceHandleView {
        GattServiceHandleView {
            characteristics: characteristic_handle_views(self.characteristics@),
            node: self.node@,
            property_map: self.property_map@,
            path: self.path@,
        }
    }
}

/// The views of a list of service handles.
pub open spec fn service_handle_views(list: Seq<GattServiceHandle>) -> Seq<GattServiceHandleView> {
    Seq::new(list.len(), |i: int| list[i]@)
}

/// The handle of the service `s` once it is registered at `path` with the
/// characteristics `chars`: the characteristic at position `j` stands at the
/// child path of that position, whatever it holds.
pub open spec fn registered_service(
    s: GattService1View,
    path: Seq<char>,
    chars: Seq<(GattCharacteristic1View, Seq<GattDescriptor1View>)>,
) -> GattServiceHandleView {
    GattServiceHandleView {
        characteristics: Seq::new(
            chars.len(),
            |j: int|
                registered_characteristic(
                    chars[j].0,
                    child_path(path, NodeKind::Characteristic, j as nat),
                    path,
                    chars[j].1,
                ),
        ),
        node: s,
        property_map: service_properties(s),
        path,
    }
}

/// Whether `j` is the position of the last handle in `list` with the
/// identifier `uuid`.
pub open spec fn last_characteristic_with(list: Seq<GattCharacteristicHandleView>, uuid: u128, j: int) -> bool {
    &&& 0 <= j < list.len()
    &&& list[j].node.uuid == uuid
    &&& forall|l: int| j < l < list.len() ==> (#[trigger] list[l]).node.uuid != uuid
}

/// The mapping from identifier to handle that the first `upto` handles of a
/// list make: each handle stands under its identifier, in the place of any
/// earlier one that had it.
pub open spec fn characteristics_by_uuid(list: Seq<GattCharacteristicHandleView>, upto: nat) -> Map<
    u128,
    GattCharacteristicHandleView,
>
    decreases upto,
{
    if upto == 0 {
        Map::<u128, GattCharacteristicHandleView>::empty()
    } else {
        characteristics_by_uuid(list, (upto - 1) as nat).insert(list[upto - 1].node.uuid, list[upto - 1])
    }
}

/// The mapping from identifier to handle that a list of handles makes.
pub open spec fn characteristic_map(list: Seq<GattCharacteristicHandleView>) -> Map<u128, GattCharacteristicHandleView> {
    characteristics_by_uuid(list, list.len())
}

/// An identifier that none of the first `upto` handles has stands for
/// nothing in their mapping.
proof fn lemma_characteristic_unmapped(list: Seq<GattCharacteristicHandleView>, upto: nat, uuid: u128)
    requires
        upto <= list.len(),
        forall|l: int| 0 <= l < upto ==> (#[trigger] list[l]).node.uuid != uuid,
    ensures
        !characteristics_by_uuid(list, upto).dom().contains(uuid),
    decreases upto,
{
    if upto > 0 {
        lemma_characteristic_unmapped(list, (upto - 1) as nat, uuid);
        assert(list[upto - 1].node.uuid != uuid);
    }
}

/// An identifier stands in the mapping for the last handle that has it.
proof fn lemma_characteristic_mapped(list: Seq<GattCharacteristicHandleView>, upto: nat, uuid: u128, j: int)
    requires
        0 <= j < upto <= list.len(),
        list[j].node.uuid == uuid,
        forall|l: int| j < l < upto ==> (#[trigger] list[l]).node.uuid != uuid,
    ensures
        characteristics_by_uuid(list, upto).dom().contains(uuid),
        characteristics_by_uuid(list, upto)[uuid] == list[j],
    decreases upto,
{
    if j < upto - 1 {
        lemma_characteristic_mapped(list, (upto - 1) as nat, uuid, j);
        assert(list[upto - 1].node.uuid != uuid);
    }
}

/// Where several handles share an identifier, the identifier stands for
/// the one declared last.
pub proof fn lemma_last_characteristic_wins(list: Seq<GattCharacteristicHandleView>, uuid: u128, j: int)
    requires
        last_characteristic_with(list, uuid, j),
    ensures
        characteristic_map(list).dom().contains(uuid),
        characteristic_map(list)[uuid] == list[j],
{
    lemma_characteristic_mapped(list, list.len(), uuid, j);
}

/// An identifier that no handle has stands for nothing.
pub proof fn lemma_unknown_characteristic(list: Seq<GattCharacteristicHandleView>, uuid: u128)
    requires
        forall|l: int| 0 <= l < list.len() ==> (#[trigger] list[l]).node.uuid != uuid,
    ensures
        !characteristic_map(list).dom().contains(uuid),
{
    lemma_characteristic_unmapped(list, list.len(), uuid);
}

impl GattServiceHandle {
    /// The handles of the characteristics, in the order of their declaration.
    pub fn characteristics(&self) -> (list: &Vec<GattCharacteristicHandle>)
        ensures
            characteristic_handle_views(list@) == self@.characteristics,
    {
        &self.characteristics
    }

    /// Gives up the handle for what it holds: the service, its snapshot, its
    /// path and the handles of its characteristics.
    pub fn into_parts(self) -> (parts: (
        GattService1,
        PropertyMap,
        ObjectPath,
        Vec<GattCharacteristicHandle>,
    ))
        ensures
            parts.0@ == self@.node,
            parts.1@ == self@.property_map,
            parts.2@ == self@.path,
            characteristic_handle_views(parts.3@) == self@.characteristics,
    {
        (self.node, self.property_map, self.path, self.characteristics)
    }

    /// The handle that the identifier `uuid` stands for in the mapping of the
    /// characteristics: that of the characteristic declared last, where several share
    /// the identifier, and none where no characteristic has it.
    pub fn characteristic(&self, uuid: u128) -> (found: Option<&GattCharacteristicHandle>)
        ensures
            match found {
                Some(handle) => characteristic_map(self@.characteristics).dom().contains(uuid) && handle@
                    == characteristic_map(self@.characteristics)[uuid],
                None => !characteristic_map(self@.characteristics).dom().contains(uuid),
            },
    {
        let mut i: usize = self.characteristics.len();
        while i > 0
            invariant
                i <= self.characteristics@.len(),
                forall|l: int|
                    i <= l < self.characteristics@.len() ==> (#[trigger] self@.characteristics[l]).node.uuid
                        != uuid,
            decreases i,
        {
            i = i - 1;
            if self.characteristics[i].uuid() == uuid {
                proof {
                    lemma_characteristic_mapped(
                        self@.characteristics,
                        self@.characteristics.len(),
                        uuid,
                        i as int,
                    );
                }
                return Some(&self.characteristics[i]);
            }
        }
        proof {
            lemma_characteristic_unmapped(self@.characteristics, self@.characteristics.len(), uuid);
        }
        None
    }

    /// The service as it was published.
    pub fn node(&self) -> (node: &GattService1)
        ensures
            node@ == self@.node,
    {
        &self.node
    }

    /// The snapshot taken when the service was registered.
    pub fn property_map(&self) -> (props: PropertyMap)
        ensures
            props@ == self@.property_map,
    {
        self.property_map.duplicate()
    }

    /// The path at which the service was registered.
    pub fn owned_path(&self) -> (path: ObjectPath)
        ensures
            path@ == self@.path,
    {
        self.path.duplicate()
    }
}

impl GattService1 {
    /// A service with the given identifier, primary or not.
    pub fn new(uuid: u128, primary: bool) -> (s: Self)
        ensures
            s@ == (GattService1View { uuid, primary }),
    {
        GattService1 { uuid, primary }
    }

    /// Takes the snapshot of the service's properties.
    pub fn property_map(&self) -> (props: PropertyMap)
        ensures
            props@ == service_properties(self@),
    {
        let mut props = PropertyMap::new();
        props.insert("UUID".to_string(), PropertyValue::Str(uuid_string(self.uuid)));
        props.insert("Primary".to_string(), PropertyValue::Bool(self.primary));
        props
    }

    /// Registers the service at `service_path`, and its characteristics with
    /// their descriptors below it, each characteristic at the child path of
    /// its position in `characteristics`. Below the root no characteristic can
    /// stand: with characteristics to place there, nothing is registered.
    pub fn register(
        self,
        characteristics: Vec<(GattCharacteristic1, Vec<GattDescriptor1>)>,
        service_path: ObjectPath,
    ) -> (result: Result<GattServiceHandle, GattError>)
        ensures
            service_path@ != root_path() || characteristics@.len() == 0 ==> result is Ok
                && result->Ok_0@ == registered_service(
                self@,
                service_path@,
                characteristic_decl_views(characteristics@),
            ),
            service_path@ == root_path() && characteristics@.len() > 0 ==> result is Err
                && result->Err_0@ == GattErrorView::InvalidObjectPath,
    {
        let ghost chars = characteristic_decl_views(characteristics@);
        let property_map = self.property_map();
        let mut handles: Vec<GattCharacteristicHandle> = Vec::new();
        let mut count: usize = 0;
        let total = characteristics.len();
        for declared in it: characteristics
            invariant
                count == it.index(),
                it.seq() == characteristics@,
                it.seq().len() == total,
                chars == characteristic_decl_views(characteristics@),
                count > 0 ==> service_path@ != root_path(),
                handles@.len() == count,
                forall|j: int|
                    0 <= j < count ==> (#[trigger] handles@[j])@ == registered_characteristic(
                        chars[j].0,
                        child_path(service_path@, NodeKind::Characteristic, j as nat),
                        service_path@,
                        chars[j].1,
                    ),
        {
            let (gatt_char, descriptors) = declared;
            let characteristic_path = match service_path.child(NodeKind::Characteristic, count) {
                Ok(p) => p,
                Err(e) => {
                    return Err(e);
                },
            };
            proof {
                lemma_child_tail(service_path@, NodeKind::Characteristic, count as nat);
            }
            let handle = match gatt_char.register(
                characteristic_path,
                service_path.duplicate(),
                descriptors,
            ) {
                Ok(h) => h,
                Err(e) => {
                    return Err(e);
                },
            };
            handles.push(handle);
            count = count + 1;
        }
        let handle = GattServiceHandle {
            characteristics: handles,
            node: self,
            property_map,
            path: service_path,
        };
        proof {
            let want = registered_service(self@, service_path@, chars);
            assert(handle@.characteristics =~= want.characteristics);
        }
        Ok(handle)
    }

    /// Whether the service is a primary one.
    pub fn primary(&self) -> (primary: bool)
        ensures
            primary == self@.primary,
    {
        self.primary
    }

    /// The identifier of the service as it goes on the wire.
    pub fn uuid(&self) -> (text: String)
        ensures
            text@ == uuid_text(self@.uuid),
    {
        uuid_string(self.uuid)
    }
}

} // verus!
