//! The application: the registration of a whole declaration below a root
//! path, and the index of every object that the registration placed.

use vstd::prelude::*;
use crate::characteristic::{
    GattCharacteristic1,
    GattCharacteristic1View,
    GattCharacteristicHandle,
    GattCharacteristicHandleView,
    characteristic_handle_views,
};
use crate::descriptor::{
    GattDescriptor1,
    GattDescriptor1View,
    GattDescriptorHandleView,
    descriptor_handle_views,
};
use crate::error::{GattError, GattErrorView};
use crate::path::{NodeKind, ObjectPath, child_path, lemma_child_tail, root_path, valid_object_path};
use crate::property::{PropertyMap, PropertyValueView};
use crate::service::{
    GattService1,
    GattService1View,
    GattServiceHandle,
    GattServiceHandleView,
    characteristic_decl_views,
    registered_service,
    service_handle_views,
};
use crate::tree::{distinct, lemma_index_one_object_per_node, paths_of};

verus! {

/// The name of the interface that a node of `kind` is published under.
pub open spec fn interface_name(kind: NodeKind) -> Seq<char> {
    match kind {
        NodeKind::Service => "org.bluez.GattService1"@,
        NodeKind::Characteristic => "org.bluez.GattCharacteristic1"@,
        NodeKind::Descriptor => "org.bluez.GattDescriptor1"@,
    }
}

/// One object of the index: where it stands, the interface it is published
/// under, and the snapshot of its properties.
#[derive(Debug)]
pub struct ManagedObject {
    pub path: ObjectPath,
    pub interface: String,
    pub properties: PropertyMap,
}

/// What an object of the index holds.
pub struct ManagedObjectView {
    pub path: Seq<char>,
    pub interface: Seq<char>,
    pub properties: Map<Seq<char>, PropertyValueView>,
}

impl View for ManagedObject {
    type V = ManagedObjectView;

    open spec fn view(&self) -> ManagedObjectView {
        ManagedObjectView {
            path: self.path@,
            interface: self.interface@,
            properties: self.properties@,
        }
    }
}

/// The views of a list of objects.
pub open spec fn object_views(list: Seq<ManagedObject>) -> Seq<ManagedObjectView> {
    Seq::new(list.len(), |n: int| list[n]@)
}

/// The object that stands for a node of `kind` at `path` with the snapshot
/// `properties`.
pub open spec fn object_of(
    kind: NodeKind,
    path: Seq<char>,
    properties: Map<Seq<char>, PropertyValueView>,
) -> ManagedObjectView {
    ManagedObjectView { path, interface: interface_name(kind), properties }
}

/// The objects of a list of descriptors, in the order of the list.
pub open spec fn descriptor_objects(descs: Seq<GattDescriptorHandleView>) -> Seq<ManagedObjectView> {
    Seq::new(
        descs.len(),
        |k: int| object_of(NodeKind::Descriptor, descs[k].path, descs[k].property_map),
    )
}

/// The objects of a characteristic: its own, then those of its descriptors.
pub open spec fn characteristic_objects(c: GattCharacteristicHandleView) -> Seq<ManagedObjectView> {
    seq![object_of(NodeKind::Characteristic, c.path, c.property_map)] + descriptor_objects(
        c.descriptors,
    )
}

/// The objects of the first `upto` characteristics of a list.
pub open spec fn characteristics_objects(
    chars: Seq<GattCharacteristicHandleView>,
    upto: nat,
) -> Seq<ManagedObjectView>
    decreases upto,
{
    if upto == 0 {
        Seq::<ManagedObjectView>::empty()
    } else {
        characteristics_objects(chars, (upto - 1) as nat) + characteristic_objects(chars[upto - 1])
    }
}

/// The objects of a service: its own, then those of its characteristics.
pub open spec fn service_objects(s: GattServiceHandleView) -> Seq<ManagedObjectView> {
    seq![object_of(NodeKind::Service, s.path, s.property_map)] + characteristics_objects(
        s.characteristics,
        s.characteristics.len(),
    )
}

/// The objects of the first `upto` services of a list.
pub open spec fn services_objects(services: Seq<GattServiceHandleView>, upto: nat) -> Seq<
    ManagedObjectView,
>
    decreases upto,
{
    if upto == 0 {
        Seq::<ManagedObjectView>::empty()
    } else {
        services_objects(services, (upto - 1) as nat) + service_objects(services[upto - 1])
    }
}

/// The index of an application: the object of every service, characteristic
/// and descriptor among `services`, each with the snapshot that its handle
/// holds.
pub open spec fn index_of(services: Seq<GattServiceHandleView>) -> Seq<ManagedObjectView> {
    services_objects(services, services.len())
}

/// The application object: it answers the query for everything that is
/// registered below it. Its index stands for a mapping from path to object:
/// no path occurs in it twice.
#[derive(Debug)]
pub struct GattApplication1 {
    managed_objects: Vec<ManagedObject>,
}

impl View for GattApplication1 {
    type V = Seq<ManagedObjectView>;

    closed spec fn view(&self) -> Seq<ManagedObjectView> {
        object_views(self.managed_objects@)
    }
}

/// What stands for a registered application: the application object, the
/// handles of its services in the order of their declaration, and its root
/// path.
#[derive(Debug)]
pub struct GattApplicationHandle {
    application: GattApplication1,
    services: Vec<GattServiceHandle>,
    path: ObjectPath,
}

/// What an application's handle holds.
pub struct GattApplicationHandleView {
    pub managed_objects: Seq<ManagedObjectView>,
    pub services: Seq<GattServiceHandleView>,
    pub path: Seq<char>,
}

impl View for GattApplicationHandle {
    type V = GattApplicationHandleView;

    closed spec fn view(&self) -> GattApplicationHandleView {
        GattApplicationHandleView {
            managed_objects: self.application@,
            services: service_handle_views(self.services@),
            path: self.path@,
        }
    }
}

/// The views of the services of a declaration, each with those of its
/// characteristics and their descriptors.
pub open spec fn service_decl_views(
    list: Seq<(GattService1, Vec<(GattCharacteristic1, Vec<GattDescriptor1>)>)>,
) -> Seq<(GattService1View, Seq<(GattCharacteristic1View, Seq<GattDescriptor1View>)>)> {
    Seq::new(list.len(), |i: int| (list[i].0@, characteristic_decl_views(list[i].1@)))
}

/// The handles of the services of a declaration registered below `root`: the
/// service at position `i` stands at the child path of that position,
/// whatever it holds.
pub open spec fn registered_services(
    root: Seq<char>,
    decl: Seq<(GattService1View, Seq<(GattCharacteristic1View, Seq<GattDescriptor1View>)>)>,
) -> Seq<GattServiceHandleView> {
    Seq::new(
        decl.len(),
        |i: int|
            registered_service(decl[i].0, child_path(root, NodeKind::Service, i as nat), decl[i].1),
    )
}

/// The handle of the application that the declaration `decl` makes below
/// `root`.
pub open spec fn registered_application(
    root: Seq<char>,
    decl: Seq<(GattService1View, Seq<(GattCharacteristic1View, Seq<GattDescriptor1View>)>)>,
) -> GattApplicationHandleView {
    let services = registered_services(root, decl);
    GattApplicationHandleView { managed_objects: index_of(services), services, path: root }
}

/// One step that the bus is asked to take.
#[derive(Debug)]
pub enum BusAction {
    /// Publish the node of `kind` at `path`.
    PublishNode { kind: NodeKind, path: ObjectPath },
    /// Publish the application object at `path`.
    PublishApplication { path: ObjectPath },
    /// Tell the registrar at `registrar` of the application at `path`.
    RegisterApplication { registrar: ObjectPath, path: ObjectPath },
    /// Tell the registrar at `registrar` to drop the application at `path`.
    UnregisterApplication { registrar: ObjectPath, path: ObjectPath },
}

/// What a step holds.
pub enum BusActionView {
    PublishNode { kind: NodeKind, path: Seq<char> },
    PublishApplication { path: Seq<char> },
    RegisterApplication { registrar: Seq<char>, path: Seq<char> },
    UnregisterApplication { registrar: Seq<char>, path: Seq<char> },
}

impl View for BusAction {
    type V = BusActionView;

    open spec fn view(&self) -> BusActionView {
        match self {
            BusAction::PublishNode { kind, path } => BusActionView::PublishNode {
                kind: *kind,
                path: path@,
            },
            BusAction::PublishApplication { path } => BusActionView::PublishApplication {
                path: path@,
            },
            BusAction::RegisterApplication { registrar, path } => BusActionView::RegisterApplication {
                registrar: registrar@,
                path: path@,
            },
            BusAction::UnregisterApplication {
                registrar,
                path,
            } => BusActionView::UnregisterApplication { registrar: registrar@, path: path@ },
        }
    }
}

/// The views of a list of steps.
pub open spec fn action_views(list: Seq<BusAction>) -> Seq<BusActionView> {
    Seq::new(list.len(), |n: int| list[n]@)
}

/// The path at which the registrar is found.
pub open spec fn registrar_path() -> Seq<char> {
    "/org/bluez/hci0"@
}

/// The steps that publish a list of descriptors, in the order of the list.
pub open spec fn descriptor_steps(descs: Seq<GattDescriptorHandleView>) -> Seq<BusActionView> {
    Seq::new(
        descs.len(),
        |k: int| BusActionView::PublishNode { kind: NodeKind::Descriptor, path: descs[k].path },
    )
}

/// The steps that publish a characteristic: its descriptors first, then
/// the characteristic itself.
pub open spec fn characteristic_steps(c: GattCharacteristicHandleView) -> Seq<BusActionView> {
    descriptor_steps(c.descriptors) + seq![
        BusActionView::PublishNode { kind: NodeKind::Characteristic, path: c.path },
    ]
}

/// The steps that publish the first `upto` characteristics of a list.
pub open spec fn characteristics_steps(chars: Seq<GattCharacteristicHandleView>, upto: nat) -> Seq<
    BusActionView,
>
    decreases upto,
{
    if upto == 0 {
        Seq::<BusActionView>::empty()
    } else {
        characteristics_steps(chars, (upto - 1) as nat) + characteristic_steps(chars[upto - 1])
    }
}

/// The steps that publish a service: all that stands below it first, then
/// the service itself.
pub open spec fn service_steps(s: GattServiceHandleView) -> Seq<BusActionView> {
    characteristics_steps(s.characteristics, s.characteristics.len()) + seq![
        BusActionView::PublishNode { kind: NodeKind::Service, path: s.path },
    ]
}

/// The steps that publish the first `upto` services of a list.
pub open spec fn services_steps(services: Seq<GattServiceHandleView>, upto: nat) -> Seq<
    BusActionView,
>
    decreases upto,
{
    if upto == 0 {
        Seq::<BusActionView>::empty()
    } else {
        services_steps(services, (upto - 1) as nat) + service_steps(services[upto - 1])
    }
}

/// The steps that bring a registered application onto the bus: every node,
/// children before their parent and in the order of the declaration, then
/// the application object at the root, then one word to the registrar.
pub open spec fn registration_steps(app: GattApplicationHandleView) -> Seq<BusActionView> {
    services_steps(app.services, app.services.len()) + seq![
        BusActionView::PublishApplication { path: app.path },
        BusActionView::RegisterApplication { registrar: registrar_path(), path: app.path },
    ]
}

/// Whether a step publishes a node.
pub open spec fn publishes_node(step: BusActionView) -> bool {
    step is PublishNode
}

/// Whether every step of a list publishes a node.
pub open spec fn all_publish_nodes(steps: Seq<BusActionView>) -> bool {
    forall|n: int| 0 <= n < steps.len() ==> publishes_node(#[trigger] steps[n])
}

/// The steps for the first `upto` characteristics of a list publish nodes
/// and do nothing else.
proof fn lemma_characteristics_steps_publish(chars: Seq<GattCharacteristicHandleView>, upto: nat)
    ensures
        all_publish_nodes(characteristics_steps(chars, upto)),
    decreases upto,
{
    if upto > 0 {
        lemma_characteristics_steps_publish(chars, (upto - 1) as nat);
    }
}

/// The steps for the first `upto` services of a list publish nodes and do
/// nothing else.
proof fn lemma_services_steps_publish(services: Seq<GattServiceHandleView>, upto: nat)
    ensures
        all_publish_nodes(services_steps(services, upto)),
    decreases upto,
{
    if upto > 0 {
        let last = services[upto - 1];
        lemma_services_steps_publish(services, (upto - 1) as nat);
        lemma_characteristics_steps_publish(last.characteristics, last.characteristics.len());
    }
}

/// A registration publishes nodes, then publishes the application object
/// at the root, then tells the registrar of the root, once, and that is its
/// last step.
pub proof fn lemma_registrar_is_told_once(app: GattApplicationHandleView)
    ensures
        registration_steps(app).len() >= 2,
        forall|n: int|
            0 <= n < registration_steps(app).len() - 2 ==> publishes_node(
                #[trigger] registration_steps(app)[n],
            ),
        registration_steps(app)[registration_steps(app).len() - 2]
            == (BusActionView::PublishApplication { path: app.path }),
        registration_steps(app).last() == (BusActionView::RegisterApplication {
            registrar: registrar_path(),
            path: app.path,
        }),
{
    lemma_services_steps_publish(app.services, app.services.len());
    let nodes = services_steps(app.services, app.services.len());
    let steps = registration_steps(app);
    assert forall|n: int| 0 <= n < steps.len() - 2 implies publishes_node(#[trigger] steps[n]) by {
        assert(steps[n] == nodes[n]);
    }
}

/// The registrar's path is an object path.
proof fn lemma_registrar_path_valid()
    ensures
        valid_object_path(registrar_path()),
        registrar_path() != root_path(),
{
    reveal_strlit("/org/bluez/hci0");
    let s = registrar_path();
    assert(s =~= seq!['/', 'o', 'r', 'g', '/', 'b', 'l', 'u', 'e', 'z', '/', 'h', 'c', 'i', '0']);
    assert(s.len() == 15);
}

/// The path at which the registrar is found.
fn registrar() -> (path: ObjectPath)
    ensures
        path@ == registrar_path(),
{
    proof {
        lemma_registrar_path_valid();
    }
    match ObjectPath::parse("/org/bluez/hci0") {
        Ok(path) => path,
        Err(_) => ObjectPath::root(),
    }
}

/// Adds the steps that publish a characteristic to a list of steps.
fn push_characteristic_steps(steps: &mut Vec<BusAction>, c: &GattCharacteristicHandle)
    ensures
        action_views(final(steps)@) == action_views(old(steps)@) + characteristic_steps(c@),
{
    let ghost before = action_views(steps@);
    let descs = c.descriptors();
    let mut k: usize = 0;
    assert(action_views(steps@) =~= before + descriptor_steps(c@.descriptors).subrange(0, 0));
    while k < descs.len()
        invariant
            k <= descs@.len(),
            descriptor_handle_views(descs@) == c@.descriptors,
            action_views(steps@) == before + descriptor_steps(c@.descriptors).subrange(0, k as int),
        decreases descs@.len() - k,
    {
        let ghost current = action_views(steps@);
        steps.push(BusAction::PublishNode { kind: NodeKind::Descriptor, path: descs[k].owned_path() });
        proof {
            assert(descriptor_handle_views(descs@)[k as int] == descs@[k as int]@);
            assert(action_views(steps@) =~= current.push(descriptor_steps(c@.descriptors)[k as int]));
            assert(descriptor_steps(c@.descriptors).subrange(0, k + 1) =~= descriptor_steps(
                c@.descriptors,
            ).subrange(0, k as int).push(descriptor_steps(c@.descriptors)[k as int]));
        }
        k = k + 1;
    }
    let ghost current = action_views(steps@);
    steps.push(BusAction::PublishNode { kind: NodeKind::Characteristic, path: c.owned_path() });
    proof {
        assert(descriptor_steps(c@.descriptors).subrange(0, k as int) =~= descriptor_steps(
            c@.descriptors,
        ));
        assert(action_views(steps@) =~= current.push(
            BusActionView::PublishNode { kind: NodeKind::Characteristic, path: c@.path },
        ));
        assert(action_views(steps@) =~= before + characteristic_steps(c@));
    }
}

/// Adds the steps that publish a service to a list of steps.
fn push_service_steps(steps: &mut Vec<BusAction>, s: &GattServiceHandle)
    ensures
        action_views(final(steps)@) == action_views(old(steps)@) + service_steps(s@),
{
    let ghost before = action_views(steps@);
    let chars = s.characteristics();
    let mut j: usize = 0;
    assert(action_views(steps@) =~= before + characteristics_steps(s@.characteristics, 0));
    while j < chars.len()
        invariant
            j <= chars@.len(),
            characteristic_handle_views(chars@) == s@.characteristics,
            action_views(steps@) == before + characteristics_steps(s@.characteristics, j as nat),
        decreases chars@.len() - j,
    {
        push_characteristic_steps(steps, &chars[j]);
        proof {
            assert(characteristic_handle_views(chars@)[j as int] == chars@[j as int]@);
            assert(action_views(steps@) =~= before + characteristics_steps(
                s@.characteristics,
                (j + 1) as nat,
            ));
        }
        j = j + 1;
    }
    let ghost current = action_views(steps@);
    steps.push(BusAction::PublishNode { kind: NodeKind::Service, path: s.owned_path() });
    proof {
        assert(action_views(steps@) =~= current.push(
            BusActionView::PublishNode { kind: NodeKind::Service, path: s@.path },
        ));
        assert(action_views(steps@) =~= before + service_steps(s@));
    }
}

/// Adds the objects of a characteristic to an index.
fn push_characteristic_objects(index: &mut Vec<ManagedObject>, c: &GattCharacteristicHandle)
    ensures
        object_views(final(index)@) == object_views(old(index)@) + characteristic_objects(c@),
{
    let ghost before = object_views(index@);
    index.push(
        ManagedObject {
            path: c.owned_path(),
            interface: "org.bluez.GattCharacteristic1".to_string(),
            properties: c.property_map(),
        },
    );
    let descs = c.descriptors();
    let mut k: usize = 0;
    while k < descs.len()
        invariant
            k <= descs@.len(),
            descriptor_handle_views(descs@) == c@.descriptors,
            object_views(index@) == before + seq![
                object_of(NodeKind::Characteristic, c@.path, c@.property_map),
            ] + descriptor_objects(c@.descriptors).subrange(0, k as int),
        decreases descs@.len() - k,
    {
        let ghost current = object_views(index@);
        index.push(
            ManagedObject {
                path: descs[k].owned_path(),
                interface: "org.bluez.GattDescriptor1".to_string(),
                properties: descs[k].property_map(),
            },
        );
        proof {
            assert(descriptor_handle_views(descs@)[k as int] == descs@[k as int]@);
            assert(object_views(index@) =~= current.push(
                descriptor_objects(c@.descriptors)[k as int],
            ));
            assert(descriptor_objects(c@.descriptors).subrange(0, k + 1)
                =~= descriptor_objects(c@.descriptors).subrange(0, k as int).push(
                descriptor_objects(c@.descriptors)[k as int],
            ));
        }
        k = k + 1;
    }
    proof {
        assert(descriptor_objects(c@.descriptors).subrange(0, k as int) =~= descriptor_objects(
            c@.descriptors,
        ));
        assert(object_views(index@) =~= before + characteristic_objects(c@));
    }
}

/// Adds the objects of a service to an index.
fn push_service_objects(index: &mut Vec<ManagedObject>, s: &GattServiceHandle)
    ensures
        object_views(final(index)@) == object_views(old(index)@) + service_objects(s@),
{
    let ghost before = object_views(index@);
    index.push(
        ManagedObject {
            path: s.owned_path(),
            interface: "org.bluez.GattService1".to_string(),
            properties: s.property_map(),
        },
    );
    let chars = s.characteristics();
    let mut j: usize = 0;
    while j < chars.len()
        invariant
            j <= chars@.len(),
            characteristic_handle_views(chars@) == s@.characteristics,
            object_views(index@) == before + seq![
                object_of(NodeKind::Service, s@.path, s@.property_map),
            ] + characteristics_objects(s@.characteristics, j as nat),
        decreases chars@.len() - j,
    {
        let ghost current = object_views(index@);
        push_characteristic_objects(index, &chars[j]);
        proof {
            assert(characteristic_handle_views(chars@)[j as int] == chars@[j as int]@);
            assert(object_views(index@) =~= before + seq![
                object_of(NodeKind::Service, s@.path, s@.property_map),
            ] + characteristics_objects(s@.characteristics, (j + 1) as nat));
        }
        j = j + 1;
    }
    proof {
        assert(object_views(index@) =~= before + service_objects(s@));
    }
}

/// Builds the index of a list of services.
fn build_index(services: &Vec<GattServiceHandle>) -> (index: Vec<ManagedObject>)
    ensures
        object_views(index@) == index_of(service_handle_views(services@)),
{
    let mut index: Vec<ManagedObject> = Vec::new();
    let ghost views = service_handle_views(services@);
    let mut i: usize = 0;
    assert(object_views(index@) =~= services_objects(views, 0));
    while i < services.len()
        invariant
            i <= services@.len(),
            views == service_handle_views(services@),
            object_views(index@) == services_objects(views, i as nat),
        decreases services@.len() - i,
    {
        push_service_objects(&mut index, &services[i]);
        proof {
            assert(views[i as int] == services@[i as int]@);
        }
        i = i + 1;
    }
    index
}

impl GattApplication1 {
    #[verifier::type_invariant]
    closed spec fn well_formed(&self) -> bool {
        distinct(paths_of(object_views(self.managed_objects@)))
    }

    /// Registers the declaration `services` below the root `path`: each
    /// service at the child path of its position, its characteristics and
    /// their descriptors below it in the same way, and the object of every
    /// one of them in the index. A text that is no object path is turned
    /// down; so is the root of the bus with services to place, as no service
    /// can stand there. In both cases nothing is registered.
    pub fn register_new(
        path: &str,
        services: Vec<(GattService1, Vec<(GattCharacteristic1, Vec<GattDescriptor1>)>)>,
    ) -> (result: Result<GattApplicationHandle, GattError>)
        ensures
            valid_object_path(path@) && (path@ != root_path() || services@.len() == 0)
                ==> result is Ok && result->Ok_0@ == registered_application(
                path@,
                service_decl_views(services@),
            ),
            result is Ok ==> distinct(paths_of(result->Ok_0@.managed_objects)),
            !(valid_object_path(path@) && (path@ != root_path() || services@.len() == 0))
                ==> result is Err && result->Err_0@ == GattErrorView::InvalidObjectPath,
    {
        let root = match ObjectPath::parse(path) {
            Ok(p) => p,
            Err(e) => {
                return Err(e);
            },
        };
        let ghost decl = service_decl_views(services@);
        let mut handles: Vec<GattServiceHandle> = Vec::new();
        let mut count: usize = 0;
        let total = services.len();
        for declared in it: services
            invariant
                count == it.index(),
                it.seq() == services@,
                it.seq().len() == total,
                decl == service_decl_views(services@),
                root@ == path@,
                count > 0 ==> path@ != root_path(),
                handles@.len() == count,
                forall|i: int|
                    0 <= i < count ==> (#[trigger] handles@[i])@ == registered_service(
                        decl[i].0,
                        child_path(path@, NodeKind::Service, i as nat),
                        decl[i].1,
                    ),
        {
            let (service, characteristics) = declared;
            let service_path = match root.child(NodeKind::Service, count) {
                Ok(p) => p,
                Err(e) => {
                    return Err(e);
                },
            };
            proof {
                lemma_child_tail(path@, NodeKind::Service, count as nat);
            }
            let handle = match service.register(characteristics, service_path) {
                Ok(h) => h,
                Err(e) => {
                    return Err(e);
                },
            };
            handles.push(handle);
            count = count + 1;
        }
        let managed_objects = build_index(&handles);
        proof {
            assert(service_handle_views(handles@) =~= registered_services(path@, decl));
            lemma_index_one_object_per_node(path@, decl);
        }
        let handle = GattApplicationHandle {
            application: GattApplication1 { managed_objects },
            services: handles,
            path: root,
        };
        Ok(handle)
    }

    /// Everything that is registered below the application, as the index
    /// held it when the registration ended: nothing is computed anew. No two
    /// of the objects stand at the same path.
    pub fn get_managed_objects(&self) -> (objects: Vec<ManagedObject>)
        ensures
            object_views(objects@) == self@,
            distinct(paths_of(object_views(objects@))),
    {
        proof {
            use_type_invariant(self);
        }
        let mut objects: Vec<ManagedObject> = Vec::new();
        let mut n: usize = 0;
        while n < self.managed_objects.len()
            invariant
                n <= self.managed_objects@.len(),
                objects@.len() == n,
                forall|m: int| 0 <= m < n ==> (#[trigger] objects@[m])@ == self.managed_objects@[m]@,
            decreases self.managed_objects@.len() - n,
        {
            let object = &self.managed_objects[n];
            objects.push(
                ManagedObject {
                    path: object.path.duplicate(),
                    interface: object.interface.clone(),
                    properties: object.properties.duplicate(),
                },
            );
            n = n + 1;
        }
        assert(object_views(objects@) =~= self@);
        objects
    }

    /// The number of objects in the index.
    pub fn len(&self) -> (n: usize)
        ensures
            n == self@.len(),
    {
        self.managed_objects.len()
    }
}

impl GattApplicationHandle {
    /// The handles of the services, in the order of their declaration.
    pub fn services(&self) -> (list: &Vec<GattServiceHandle>)
        ensures
            service_handle_views(list@) == self@.services,
    {
        &self.services
    }

    /// The application object, whose index holds no path twice.
    pub fn application(&self) -> (application: &GattApplication1)
        ensures
            application@ == self@.managed_objects,
            distinct(paths_of(application@)),
    {
        proof {
            use_type_invariant(&self.application);
        }
        &self.application
    }

    /// The root path of the application.
    pub fn owned_path(&self) -> (path: ObjectPath)
        ensures
            path@ == self@.path,
    {
        self.path.duplicate()
    }

    /// Gives up the handle for what it holds: the application object, the
    /// handles of its services and its root path.
    pub fn into_parts(self) -> (parts: (GattApplication1, Vec<GattServiceHandle>, ObjectPath))
        ensures
            parts.0@ == self@.managed_objects,
            service_handle_views(parts.1@) == self@.services,
            parts.2@ == self@.path,
    {
        (self.application, self.services, self.path)
    }

    /// The steps that bring the application onto the bus, in their order.
    /// The first that fails ends the registration: none after it is taken,
    /// and none before it is taken back.
    pub fn registration_actions(&self) -> (steps: Vec<BusAction>)
        ensures
            action_views(steps@) == registration_steps(self@),
    {
        let mut steps: Vec<BusAction> = Vec::new();
        let ghost views = service_handle_views(self.services@);
        let mut i: usize = 0;
        assert(action_views(steps@) =~= services_steps(views, 0));
        while i < self.services.len()
            invariant
                i <= self.services@.len(),
                views == service_handle_views(self.services@),
                action_views(steps@) == services_steps(views, i as nat),
            decreases self.services@.len() - i,
        {
            push_service_steps(&mut steps, &self.services[i]);
            proof {
                assert(views[i as int] == self.services@[i as int]@);
            }
            i = i + 1;
        }
        let ghost published = action_views(steps@);
        steps.push(BusAction::PublishApplication { path: self.path.duplicate() });
        steps.push(
            BusAction::RegisterApplication { registrar: registrar(), path: self.path.duplicate() },
        );
        proof {
            assert(action_views(steps@) =~= published + seq![
                BusActionView::PublishApplication { path: self@.path },
                BusActionView::RegisterApplication { registrar: registrar_path(), path: self@.path },
            ]);
        }
        steps
    }

    /// The one step that takes the application off the bus: the registrar is
    /// told to drop it. What stands below the root is left to the registrar.
    pub fn unregister(&self) -> (step: BusAction)
        ensures
            step@ == (BusActionView::UnregisterApplication {
                registrar: registrar_path(),
                path: self@.path,
            }),
    {
        BusAction::UnregisterApplication { registrar: registrar(), path: self.path.duplicate() }
    }
}

} // verus!
