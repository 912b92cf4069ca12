//! The paths of a registered tree: that they depend on the root and the
//! shape of the declaration alone, how many they are, and that no two of them
//! are the same.

use vstd::prelude::*;
use crate::application::{
    ManagedObjectView,
    characteristic_objects,
    characteristics_objects,
    descriptor_objects,
    index_of,
    object_of,
    registered_application,
    registered_services,
    service_objects,
    services_objects,
};
use crate::characteristic::{
    GattCharacteristic1View,
    GattCharacteristicHandleView,
    registered_characteristic,
};
use crate::descriptor::GattDescriptor1View;
use crate::path::{
    NodeKind,
    child_path,
    kind_label,
    lemma_child_path_injective,
    lemma_child_tail,
};
use crate::decimal::{decimal, is_digit, lemma_decimal_digits};
use crate::service::{GattService1View, GattServiceHandleView, registered_service};

verus! {

/// The shape of a declaration: for each service, for each of its
/// characteristics, the number of its descriptors.
pub open spec fn shape_of(
    decl: Seq<(GattService1View, Seq<(GattCharacteristic1View, Seq<GattDescriptor1View>)>)>,
) -> Seq<Seq<nat>> {
    Seq::new(decl.len(), |i: int| characteristics_shape(decl[i].1))
}

/// The shape of the characteristics of one service.
pub open spec fn characteristics_shape(
    chars: Seq<(GattCharacteristic1View, Seq<GattDescriptor1View>)>,
) -> Seq<nat> {
    Seq::new(chars.len(), |j: int| chars[j].1.len())
}

/// The paths of `count` descriptors below the characteristic at `path`.
pub open spec fn descriptor_paths(path: Seq<char>, count: nat) -> Seq<Seq<char>> {
    Seq::new(count, |k: int| child_path(path, NodeKind::Descriptor, k as nat))
}

/// The paths of a characteristic at `path` with `count` descriptors: its
/// own, then theirs.
pub open spec fn characteristic_paths(path: Seq<char>, count: nat) -> Seq<Seq<char>> {
    seq![path] + descriptor_paths(path, count)
}

/// The paths of the first `upto` characteristics below the service at
/// `path`.
pub open spec fn characteristics_paths(path: Seq<char>, chars: Seq<nat>, upto: nat) -> Seq<
    Seq<char>,
>
    decreases upto,
{
    if upto == 0 {
        Seq::<Seq<char>>::empty()
    } else {
        characteristics_paths(path, chars, (upto - 1) as nat) + characteristic_paths(
            child_path(path, NodeKind::Characteristic, (upto - 1) as nat),
            chars[upto - 1],
        )
    }
}

/// The paths of a service at `path`: its own, then those of its
/// characteristics.
pub open spec fn service_paths(path: Seq<char>, chars: Seq<nat>) -> Seq<Seq<char>> {
    seq![path] + characteristics_paths(path, chars, chars.len())
}

/// The paths of the first `upto` services below `root`.
pub open spec fn services_paths(root: Seq<char>, shape: Seq<Seq<nat>>, upto: nat) -> Seq<Seq<char>>
    decreases upto,
{
    if upto == 0 {
        Seq::<Seq<char>>::empty()
    } else {
        services_paths(root, shape, (upto - 1) as nat) + service_paths(
            child_path(root, NodeKind::Service, (upto - 1) as nat),
            shape[upto - 1],
        )
    }
}

/// Every path of a tree of the given shape below `root`, in the order of
/// the index.
pub open spec fn tree_paths(root: Seq<char>, shape: Seq<Seq<nat>>) -> Seq<Seq<char>> {
    services_paths(root, shape, shape.len())
}

/// The paths of a list of objects.
pub open spec fn paths_of(objects: Seq<ManagedObjectView>) -> Seq<Seq<char>> {
    Seq::new(objects.len(), |n: int| objects[n].path)
}

/// The number of nodes among the first `upto` characteristics of a service.
pub open spec fn characteristics_count(chars: Seq<nat>, upto: nat) -> nat
    decreases upto,
{
    if upto == 0 {
        0
    } else {
        characteristics_count(chars, (upto - 1) as nat) + 1 + chars[upto - 1]
    }
}

/// The number of nodes among the first `upto` services of a shape.
pub open spec fn services_count(shape: Seq<Seq<nat>>, upto: nat) -> nat
    decreases upto,
{
    if upto == 0 {
        0
    } else {
        services_count(shape, (upto - 1) as nat) + 1 + characteristics_count(
            shape[upto - 1],
            shape[upto - 1].len(),
        )
    }
}

/// The number of nodes of a shape: its services, their characteristics and
/// their descriptors.
pub open spec fn node_count(shape: Seq<Seq<nat>>) -> nat {
    services_count(shape, shape.len())
}

/// Whether `q` is the path `p` or a path below it.
pub open spec fn within(p: Seq<char>, q: Seq<char>) -> bool {
    &&& q.len() >= p.len()
    &&& q.subrange(0, p.len() as int) == p
    &&& (q.len() == p.len() || q[p.len() as int] == '/')
}

/// Whether every path of a list is `p` or below it.
pub open spec fn all_within(p: Seq<char>, list: Seq<Seq<char>>) -> bool {
    forall|n: int| 0 <= n < list.len() ==> within(p, #[trigger] list[n])
}

/// Whether no path of a list is `p` or below it.
pub open spec fn none_within(p: Seq<char>, list: Seq<Seq<char>>) -> bool {
    forall|n: int| 0 <= n < list.len() ==> !within(p, #[trigger] list[n])
}

/// Whether every path of a list is longer than `p`.
pub open spec fn all_longer(p: Seq<char>, list: Seq<Seq<char>>) -> bool {
    forall|n: int| 0 <= n < list.len() ==> (#[trigger] list[n]).len() > p.len()
}

/// Whether no path stands twice in a list.
pub open spec fn distinct(list: Seq<Seq<char>>) -> bool {
    forall|a: int, b: int| 0 <= a < b < list.len() ==> #[trigger] list[a] != #[trigger] list[b]
}

/// A child path is below its parent.
pub proof fn lemma_within_child(p: Seq<char>, kind: NodeKind, n: nat)
    ensures
        within(p, child_path(p, kind, n)),
{
    lemma_child_tail(p, kind, n);
}

/// What is below a path is below whatever that path is below.
pub proof fn lemma_within_transitive(a: Seq<char>, b: Seq<char>, c: Seq<char>)
    requires
        within(a, b),
        within(b, c),
    ensures
        within(a, c),
{
    let la = a.len() as int;
    let lb = b.len() as int;
    assert(c.subrange(0, la) =~= b.subrange(0, la)) by {
        assert forall|i: int| 0 <= i < la implies c.subrange(0, la)[i] == b.subrange(0, la)[i] by {
            assert(c.subrange(0, lb)[i] == b[i]);
        }
    }
    if c.len() > la {
        if lb == la {
            assert(c[la] == '/');
        } else {
            assert(c.subrange(0, lb)[la] == b[la]);
        }
    }
}

/// Nothing is below two different children of one parent.
pub proof fn lemma_siblings_apart(p: Seq<char>, kind: NodeKind, n: nat, m: nat, q: Seq<char>)
    requires
        n != m,
        within(child_path(p, kind, n), q),
    ensures
        !within(child_path(p, kind, m), q),
{
    let x = child_path(p, kind, n);
    let y = child_path(p, kind, m);
    if within(y, q) {
        lemma_child_tail(p, kind, n);
        lemma_child_tail(p, kind, m);
        lemma_decimal_digits(n);
        lemma_decimal_digits(m);
        let lx = x.len() as int;
        let ly = y.len() as int;
        if lx == ly {
            assert(x == y);
            lemma_child_path_injective(p, kind, n, p, kind, m);
        } else if lx < ly {
            assert(q[lx] == '/');
            assert(q.subrange(0, ly)[lx] == y[lx]);
            assert(is_digit(y[lx]));
        } else {
            assert(q[ly] == '/');
            assert(q.subrange(0, lx)[ly] == x[ly]);
            assert(is_digit(x[ly]));
        }
    }
}

/// Two lists without repeats, one wholly below a path and one wholly
/// elsewhere, make a list without repeats.
pub proof fn lemma_concat_distinct(a: Seq<Seq<char>>, b: Seq<Seq<char>>, p: Seq<char>)
    requires
        distinct(a),
        distinct(b),
        none_within(p, a),
        all_within(p, b),
    ensures
        distinct(a + b),
{
    let c = a + b;
    assert forall|i: int, j: int| 0 <= i < j < c.len() implies #[trigger] c[i] != #[trigger] c[j] by {
        if j < a.len() {
            assert(a[i] != a[j]);
        } else if i >= a.len() {
            assert(b[i - a.len()] != b[j - a.len()]);
        } else {
            assert(!within(p, a[i]));
            assert(within(p, b[j - a.len()]));
        }
    }
}

/// The paths of a characteristic and its descriptors are all different, and
/// all of them the characteristic's path or below it.
pub proof fn lemma_characteristic_paths(path: Seq<char>, count: nat)
    ensures
        distinct(characteristic_paths(path, count)),
        all_within(path, characteristic_paths(path, count)),
        characteristic_paths(path, count).len() == 1 + count,
{
    let list = characteristic_paths(path, count);
    assert forall|n: int| 0 <= n < list.len() implies within(path, #[trigger] list[n]) by {
        if n > 0 {
            lemma_within_child(path, NodeKind::Descriptor, (n - 1) as nat);
        } else {
            assert(path.subrange(0, path.len() as int) =~= path);
        }
    }
    assert forall|a: int, b: int| 0 <= a < b < list.len() implies #[trigger] list[a]
        != #[trigger] list[b] by {
        lemma_child_tail(path, NodeKind::Descriptor, (b - 1) as nat);
        if a > 0 {
            if list[a] == list[b] {
                lemma_child_path_injective(
                    path,
                    NodeKind::Descriptor,
                    (a - 1) as nat,
                    path,
                    NodeKind::Descriptor,
                    (b - 1) as nat,
                );
            }
        }
    }
}

/// The paths of the first `upto` characteristics of a service are all
/// different, all below the service's path and longer than it, and none of
/// them is the path of a later characteristic or below one.
pub proof fn lemma_characteristics_paths(path: Seq<char>, chars: Seq<nat>, upto: nat)
    requires
        upto <= chars.len(),
    ensures
        distinct(characteristics_paths(path, chars, upto)),
        all_within(path, characteristics_paths(path, chars, upto)),
        all_longer(path, characteristics_paths(path, chars, upto)),
        forall|j: nat|
            j >= upto ==> none_within(
                #[trigger] child_path(path, NodeKind::Characteristic, j),
                characteristics_paths(path, chars, upto),
            ),
        characteristics_paths(path, chars, upto).len() == characteristics_count(chars, upto),
    decreases upto,
{
    if upto > 0 {
        let last = (upto - 1) as nat;
        let before = characteristics_paths(path, chars, last);
        let here = child_path(path, NodeKind::Characteristic, last);
        let block = characteristic_paths(here, chars[last as int]);
        let list = characteristics_paths(path, chars, upto);
        lemma_characteristics_paths(path, chars, last);
        lemma_characteristic_paths(here, chars[last as int]);
        lemma_within_child(path, NodeKind::Characteristic, last);
        lemma_child_tail(path, NodeKind::Characteristic, last);
        assert(none_within(here, before));
        lemma_concat_distinct(before, block, here);
        assert forall|n: int| 0 <= n < list.len() implies within(path, #[trigger] list[n])
            && list[n].len() > path.len() by {
            if n >= before.len() {
                let q = block[n - before.len()];
                assert(within(here, q));
                lemma_within_transitive(path, here, q);
            } else {
                assert(within(path, before[n]));
                assert(before[n].len() > path.len());
            }
        }
        assert forall|j: nat| j >= upto implies none_within(
            #[trigger] child_path(path, NodeKind::Characteristic, j),
            list,
        ) by {
            let later = child_path(path, NodeKind::Characteristic, j);
            assert(none_within(later, before));
            assert forall|n: int| 0 <= n < list.len() implies !within(later, #[trigger] list[n]) by {
                if n >= before.len() {
                    let q = block[n - before.len()];
                    assert(within(here, q));
                    lemma_siblings_apart(path, NodeKind::Characteristic, last, j, q);
                } else {
                    assert(!within(later, before[n]));
                }
            }
        }
    }
}

/// The paths of a service and all that stands below it are all different,
/// and all of them the service's path or below it.
pub proof fn lemma_service_paths(path: Seq<char>, chars: Seq<nat>)
    ensures
        distinct(service_paths(path, chars)),
        all_within(path, service_paths(path, chars)),
        service_paths(path, chars).len() == 1 + characteristics_count(chars, chars.len()),
{
    let below = characteristics_paths(path, chars, chars.len());
    let list = service_paths(path, chars);
    lemma_characteristics_paths(path, chars, chars.len());
    assert forall|n: int| 0 <= n < list.len() implies within(path, #[trigger] list[n]) by {
        if n > 0 {
            assert(within(path, below[n - 1]));
        } else {
            assert(path.subrange(0, path.len() as int) =~= path);
        }
    }
    assert forall|a: int, b: int| 0 <= a < b < list.len() implies #[trigger] list[a]
        != #[trigger] list[b] by {
        if a > 0 {
            assert(below[a - 1] != below[b - 1]);
        } else {
            assert(below[b - 1].len() > path.len());
        }
    }
}

/// The paths of the first `upto` services below a root are all different,
/// and none of them is the path of a later service or below one.
pub proof fn lemma_services_paths(root: Seq<char>, shape: Seq<Seq<nat>>, upto: nat)
    requires
        upto <= shape.len(),
    ensures
        distinct(services_paths(root, shape, upto)),
        forall|i: nat|
            i >= upto ==> none_within(
                #[trigger] child_path(root, NodeKind::Service, i),
                services_paths(root, shape, upto),
            ),
        services_paths(root, shape, upto).len() == services_count(shape, upto),
    decreases upto,
{
    if upto > 0 {
        let last = (upto - 1) as nat;
        let before = services_paths(root, shape, last);
        let here = child_path(root, NodeKind::Service, last);
        let block = service_paths(here, shape[last as int]);
        let list = services_paths(root, shape, upto);
        lemma_services_paths(root, shape, last);
        lemma_service_paths(here, shape[last as int]);
        assert(none_within(here, before));
        lemma_concat_distinct(before, block, here);
        assert forall|i: nat| i >= upto implies none_within(
            #[trigger] child_path(root, NodeKind::Service, i),
            list,
        ) by {
            let later = child_path(root, NodeKind::Service, i);
            assert(none_within(later, before));
            assert forall|n: int| 0 <= n < list.len() implies !within(later, #[trigger] list[n]) by {
                if n >= before.len() {
                    let q = block[n - before.len()];
                    assert(within(here, q));
                    lemma_siblings_apart(root, NodeKind::Service, last, i, q);
                } else {
                    assert(!within(later, before[n]));
                }
            }
        }
    }
}

/// No two nodes of a tree have the same path, and the tree has one path for
/// each of its nodes.
pub proof fn lemma_tree_paths_distinct(root: Seq<char>, shape: Seq<Seq<nat>>)
    ensures
        distinct(tree_paths(root, shape)),
        tree_paths(root, shape).len() == node_count(shape),
{
    lemma_services_paths(root, shape, shape.len());
}

/// The paths of two lists of objects, one after the other, are the paths of
/// the first and then those of the second.
proof fn lemma_paths_of_concat(a: Seq<ManagedObjectView>, b: Seq<ManagedObjectView>)
    ensures
        paths_of(a + b) == paths_of(a) + paths_of(b),
{
    assert(paths_of(a + b) =~= paths_of(a) + paths_of(b));
}

/// The objects of a registered characteristic stand at the paths of a
/// characteristic with as many descriptors.
proof fn lemma_characteristic_object_paths(
    c: GattCharacteristic1View,
    path: Seq<char>,
    service_path: Seq<char>,
    descs: Seq<GattDescriptor1View>,
)
    ensures
        paths_of(characteristic_objects(registered_characteristic(c, path, service_path, descs)))
            == characteristic_paths(path, descs.len()),
{
    let handle = registered_characteristic(c, path, service_path, descs);
    assert(paths_of(descriptor_objects(handle.descriptors)) =~= descriptor_paths(path, descs.len()));
    assert(paths_of(characteristic_objects(handle)) =~= characteristic_paths(path, descs.len()));
}

/// The objects of the first `upto` characteristics of a registered service
/// stand at the paths of as many characteristics of the same shape.
proof fn lemma_characteristics_object_paths(
    s: GattService1View,
    path: Seq<char>,
    chars: Seq<(GattCharacteristic1View, Seq<GattDescriptor1View>)>,
    upto: nat,
)
    requires
        upto <= chars.len(),
    ensures
        paths_of(characteristics_objects(registered_service(s, path, chars).characteristics, upto))
            == characteristics_paths(path, characteristics_shape(chars), upto),
    decreases upto,
{
    let handles = registered_service(s, path, chars).characteristics;
    if upto > 0 {
        let last = (upto - 1) as nat;
        lemma_characteristics_object_paths(s, path, chars, last);
        lemma_characteristic_object_paths(
            chars[last as int].0,
            child_path(path, NodeKind::Characteristic, last),
            path,
            chars[last as int].1,
        );
        lemma_paths_of_concat(
            characteristics_objects(handles, last),
            characteristic_objects(handles[last as int]),
        );
    } else {
        assert(paths_of(characteristics_objects(handles, 0)) =~= characteristics_paths(
            path,
            characteristics_shape(chars),
            0,
        ));
    }
}

/// The objects of a registered service stand at the paths of a service of
/// the same shape.
proof fn lemma_service_object_paths(
    s: GattService1View,
    path: Seq<char>,
    chars: Seq<(GattCharacteristic1View, Seq<GattDescriptor1View>)>,
)
    ensures
        paths_of(service_objects(registered_service(s, path, chars))) == service_paths(
            path,
            characteristics_shape(chars),
        ),
{
    let handle = registered_service(s, path, chars);
    lemma_characteristics_object_paths(s, path, chars, chars.len());
    lemma_paths_of_concat(
        seq![object_of(NodeKind::Service, handle.path, handle.property_map)],
        characteristics_objects(handle.characteristics, handle.characteristics.len()),
    );
    assert(paths_of(
        seq![object_of(NodeKind::Service, handle.path, handle.property_map)],
    ) =~= seq![path]);
}

/// The objects of the first `upto` registered services stand at the paths
/// of as many services of the same shape.
proof fn lemma_services_object_paths(
    root: Seq<char>,
    decl: Seq<(GattService1View, Seq<(GattCharacteristic1View, Seq<GattDescriptor1View>)>)>,
    upto: nat,
)
    requires
        upto <= decl.len(),
    ensures
        paths_of(services_objects(registered_services(root, decl), upto)) == services_paths(
            root,
            shape_of(decl),
            upto,
        ),
    decreases upto,
{
    let handles = registered_services(root, decl);
    if upto > 0 {
        let last = (upto - 1) as nat;
        lemma_services_object_paths(root, decl, last);
        lemma_service_object_paths(
            decl[last as int].0,
            child_path(root, NodeKind::Service, last),
            decl[last as int].1,
        );
        lemma_paths_of_concat(services_objects(handles, last), service_objects(handles[last as int]));
    } else {
        assert(paths_of(services_objects(handles, 0)) =~= services_paths(root, shape_of(decl), 0));
    }
}

/// The index of a registered application holds, in its order, one object at
/// each path of the tree that the root and the shape of the declaration give.
pub proof fn lemma_index_paths(
    root: Seq<char>,
    decl: Seq<(GattService1View, Seq<(GattCharacteristic1View, Seq<GattDescriptor1View>)>)>,
)
    ensures
        paths_of(registered_application(root, decl).managed_objects) == tree_paths(
            root,
            shape_of(decl),
        ),
{
    lemma_services_object_paths(root, decl, decl.len());
}

/// The index of a registered application holds one object for each node of
/// the declaration, and no two of its objects stand at the same path.
pub proof fn lemma_index_one_object_per_node(
    root: Seq<char>,
    decl: Seq<(GattService1View, Seq<(GattCharacteristic1View, Seq<GattDescriptor1View>)>)>,
)
    ensures
        registered_application(root, decl).managed_objects.len() == node_count(shape_of(decl)),
        distinct(paths_of(registered_application(root, decl).managed_objects)),
{
    lemma_index_paths(root, decl);
    lemma_tree_paths_distinct(root, shape_of(decl));
}

/// Two declarations of one shape, registered below one root, place their
/// nodes at the same paths, whatever the nodes hold.
pub proof fn lemma_paths_depend_on_shape(
    root: Seq<char>,
    first: Seq<(GattService1View, Seq<(GattCharacteristic1View, Seq<GattDescriptor1View>)>)>,
    second: Seq<(GattService1View, Seq<(GattCharacteristic1View, Seq<GattDescriptor1View>)>)>,
)
    requires
        shape_of(first) == shape_of(second),
    ensures
        paths_of(registered_application(root, first).managed_objects) == paths_of(
            registered_application(root, second).managed_objects,
        ),
{
    lemma_index_paths(root, first);
    lemma_index_paths(root, second);
}

/// Whether every object of `part` stands in `whole`.
pub open spec fn holds_all(whole: Seq<ManagedObjectView>, part: Seq<ManagedObjectView>) -> bool {
    forall|n: int| 0 <= n < part.len() ==> whole.contains(#[trigger] part[n])
}

/// What stands in one of two lists stands in the two put together.
proof fn lemma_concat_holds(a: Seq<ManagedObjectView>, b: Seq<ManagedObjectView>)
    ensures
        holds_all(a + b, a),
        holds_all(a + b, b),
{
    assert forall|n: int| 0 <= n < a.len() implies (a + b).contains(#[trigger] a[n]) by {
        assert((a + b)[n] == a[n]);
    }
    assert forall|n: int| 0 <= n < b.len() implies (a + b).contains(#[trigger] b[n]) by {
        assert((a + b)[a.len() + n] == b[n]);
    }
}

/// What holds all of a list holds all of what that list holds all of.
proof fn lemma_holds_transitive(
    whole: Seq<ManagedObjectView>,
    middle: Seq<ManagedObjectView>,
    part: Seq<ManagedObjectView>,
)
    requires
        holds_all(whole, middle),
        holds_all(middle, part),
    ensures
        holds_all(whole, part),
{
    assert forall|n: int| 0 <= n < part.len() implies whole.contains(#[trigger] part[n]) by {
        assert(middle.contains(part[n]));
        let m = choose|m: int| 0 <= m < middle.len() && middle[m] == part[n];
        assert(whole.contains(middle[m]));
    }
}

/// The objects of the first `upto` characteristics hold those of each one
/// among them.
proof fn lemma_characteristics_hold(
    chars: Seq<GattCharacteristicHandleView>,
    upto: nat,
    j: int,
)
    requires
        0 <= j < upto <= chars.len(),
    ensures
        holds_all(characteristics_objects(chars, upto), characteristic_objects(chars[j])),
    decreases upto,
{
    let before = characteristics_objects(chars, (upto - 1) as nat);
    let block = characteristic_objects(chars[upto - 1]);
    lemma_concat_holds(before, block);
    if j < upto - 1 {
        lemma_characteristics_hold(chars, (upto - 1) as nat, j);
        lemma_holds_transitive(before + block, before, characteristic_objects(chars[j]));
    }
}

/// The objects of the first `upto` services hold those of each one among
/// them.
proof fn lemma_services_hold(
    services: Seq<GattServiceHandleView>,
    upto: nat,
    i: int,
)
    requires
        0 <= i < upto <= services.len(),
    ensures
        holds_all(services_objects(services, upto), service_objects(services[i])),
    decreases upto,
{
    let before = services_objects(services, (upto - 1) as nat);
    let block = service_objects(services[upto - 1]);
    lemma_concat_holds(before, block);
    if i < upto - 1 {
        lemma_services_hold(services, (upto - 1) as nat, i);
        lemma_holds_transitive(before + block, before, service_objects(services[i]));
    }
}

/// The index holds the object of every service, with the path and the
/// snapshot of its handle.
pub proof fn lemma_index_holds_service(services: Seq<GattServiceHandleView>, i: int)
    requires
        0 <= i < services.len(),
    ensures
        index_of(services).contains(
            object_of(
                NodeKind::Service,
                services[i].path,
                services[i].property_map,
            ),
        ),
{
    lemma_services_hold(services, services.len(), i);
    let block = service_objects(services[i]);
    assert(block[0] == object_of(
        NodeKind::Service,
        services[i].path,
        services[i].property_map,
    ));
}

/// The index holds the object of every characteristic of every service,
/// with the path and the snapshot of its handle.
pub proof fn lemma_index_holds_characteristic(
    services: Seq<GattServiceHandleView>,
    i: int,
    j: int,
)
    requires
        0 <= i < services.len(),
        0 <= j < services[i].characteristics.len(),
    ensures
        index_of(services).contains(
            object_of(
                NodeKind::Characteristic,
                services[i].characteristics[j].path,
                services[i].characteristics[j].property_map,
            ),
        ),
{
    let chars = services[i].characteristics;
    let own = seq![
        object_of(
            NodeKind::Service,
            services[i].path,
            services[i].property_map,
        ),
    ];
    let below = characteristics_objects(chars, chars.len());
    let block = characteristic_objects(chars[j]);
    lemma_services_hold(services, services.len(), i);
    lemma_characteristics_hold(chars, chars.len(), j);
    lemma_concat_holds(own, below);
    lemma_holds_transitive(own + below, below, block);
    lemma_holds_transitive(index_of(services), service_objects(services[i]), block);
    assert(block[0] == object_of(
        NodeKind::Characteristic,
        chars[j].path,
        chars[j].property_map,
    ));
}

/// The index holds the object of every descriptor of every characteristic
/// of every service, with the path and the snapshot of its handle.
pub proof fn lemma_index_holds_descriptor(
    services: Seq<GattServiceHandleView>,
    i: int,
    j: int,
    k: int,
)
    requires
        0 <= i < services.len(),
        0 <= j < services[i].characteristics.len(),
        0 <= k < services[i].characteristics[j].descriptors.len(),
    ensures
        index_of(services).contains(
            object_of(
                NodeKind::Descriptor,
                services[i].characteristics[j].descriptors[k].path,
                services[i].characteristics[j].descriptors[k].property_map,
            ),
        ),
{
    let chars = services[i].characteristics;
    let descs = chars[j].descriptors;
    let own = seq![
        object_of(
            NodeKind::Service,
            services[i].path,
            services[i].property_map,
        ),
    ];
    let below = characteristics_objects(chars, chars.len());
    let block = characteristic_objects(chars[j]);
    let head = seq![
        object_of(NodeKind::Characteristic, chars[j].path, chars[j].property_map),
    ];
    let tail = descriptor_objects(descs);
    lemma_services_hold(services, services.len(), i);
    lemma_characteristics_hold(chars, chars.len(), j);
    lemma_concat_holds(own, below);
    lemma_concat_holds(head, tail);
    lemma_holds_transitive(own + below, below, block);
    lemma_holds_transitive(index_of(services), service_objects(services[i]), block);
    lemma_holds_transitive(index_of(services), block, tail);
    assert(tail[k] == object_of(
        NodeKind::Descriptor,
        descs[k].path,
        descs[k].property_map,
    ));
}

/// Whether a shape has `c` characteristics in every service and `d`
/// descriptors in every characteristic.
pub open spec fn uniform(shape: Seq<Seq<nat>>, c: nat, d: nat) -> bool {
    forall|i: int|
        0 <= i < shape.len() ==> (#[trigger] shape[i]).len() == c && forall|j: int|
            0 <= j < c ==> #[trigger] shape[i][j] == d
}

/// The first `upto` characteristics with `d` descriptors each are
/// `upto + upto * d` nodes.
proof fn lemma_uniform_characteristics_count(chars: Seq<nat>, upto: nat, d: nat)
    requires
        upto <= chars.len(),
        forall|j: int| 0 <= j < chars.len() ==> #[trigger] chars[j] == d,
    ensures
        characteristics_count(chars, upto) == upto + upto * d,
    decreases upto,
{
    if upto > 0 {
        lemma_uniform_characteristics_count(chars, (upto - 1) as nat, d);
        assert(upto * d == (upto - 1) * d + d) by (nonlinear_arith);
    } else {
        assert(0 * d == 0) by (nonlinear_arith);
    }
}

/// The first `upto` services of a uniform shape are
/// `upto + upto * c + upto * c * d` nodes.
proof fn lemma_uniform_services_count(shape: Seq<Seq<nat>>, upto: nat, c: nat, d: nat)
    requires
        upto <= shape.len(),
        uniform(shape, c, d),
    ensures
        services_count(shape, upto) == upto + upto * c + upto * c * d,
    decreases upto,
{
    if upto > 0 {
        let last = (upto - 1) as int;
        lemma_uniform_services_count(shape, (upto - 1) as nat, c, d);
        assert(shape[last].len() == c);
        lemma_uniform_characteristics_count(shape[last], c, d);
        assert(upto * c == (upto - 1) * c + c) by (nonlinear_arith);
        assert(upto * c * d == (upto - 1) * c * d + c * d) by (nonlinear_arith);
    } else {
        assert(0 * c == 0 && 0 * c * d == 0) by (nonlinear_arith);
    }
}

/// The index of an application that was registered with `n` services, `c`
/// characteristics in each and `d` descriptors in each of those, holds
/// `n + n * c + n * c * d` objects.
pub proof fn lemma_uniform_index_len(
    root: Seq<char>,
    decl: Seq<(GattService1View, Seq<(GattCharacteristic1View, Seq<GattDescriptor1View>)>)>,
    c: nat,
    d: nat,
)
    requires
        uniform(shape_of(decl), c, d),
    ensures
        registered_application(root, decl).managed_objects.len() == decl.len() + decl.len() * c
            + decl.len() * c * d,
{
    lemma_index_one_object_per_node(root, decl);
    lemma_uniform_services_count(shape_of(decl), decl.len(), c, d);
}

/// What follows the root in the path of a child: the label of its kind and
/// its position.
pub open spec fn relative_child(below: Seq<char>, kind: NodeKind, index: nat) -> Seq<char> {
    below + kind_label(kind) + decimal(index)
}

/// The path of a node is its root and then what the positions of the node
/// and of those above it give: the service at position `i` stands at
/// `service{i}` below the root, its characteristic at position `j` at
/// `characteristic{j}` below that, and the descriptor at position `k` of that
/// one at `descriptor{k}` below that, whatever the root is.
pub proof fn lemma_relative_paths(root: Seq<char>, i: nat, j: nat, k: nat)
    ensures
        child_path(root, NodeKind::Service, i) == root + relative_child(
            Seq::<char>::empty(),
            NodeKind::Service,
            i,
        ),
        child_path(
            child_path(root, NodeKind::Service, i),
            NodeKind::Characteristic,
            j,
        ) == root + relative_child(
            relative_child(Seq::<char>::empty(), NodeKind::Service, i),
            NodeKind::Characteristic,
            j,
        ),
        child_path(
            child_path(child_path(root, NodeKind::Service, i), NodeKind::Characteristic, j),
            NodeKind::Descriptor,
            k,
        ) == root + relative_child(
            relative_child(
                relative_child(Seq::<char>::empty(), NodeKind::Service, i),
                NodeKind::Characteristic,
                j,
            ),
            NodeKind::Descriptor,
            k,
        ),
{
    let e = Seq::<char>::empty();
    let s = relative_child(e, NodeKind::Service, i);
    let c = relative_child(s, NodeKind::Characteristic, j);
    let d = relative_child(c, NodeKind::Descriptor, k);
    assert(child_path(root, NodeKind::Service, i) =~= root + s);
    assert(child_path(root + s, NodeKind::Characteristic, j) =~= root + c);
    assert(child_path(root + c, NodeKind::Descriptor, k) =~= root + d);
}

} // verus!
