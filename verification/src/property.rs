//! The values that a node reports for its properties, and the snapshot that
//! maps each property's name to its value.

use vstd::prelude::*;
use crate::path::ObjectPath;

verus! {

/// The characters of each text in a list.
pub open spec fn texts_of(list: Seq<String>) -> Seq<Seq<char>> {
    Seq::new(list.len(), |i: int| list[i]@)
}

/// A copy of a list of texts.
pub fn duplicate_texts(list: &Vec<String>) -> (copy: Vec<String>)
    ensures
        texts_of(copy@) == texts_of(list@),
{
    let mut copy: Vec<String> = Vec::new();
    let mut i: usize = 0;
    while i < list.len()
        invariant
            i <= list@.len(),
            copy@.len() == i,
            forall|k: int| 0 <= k < i ==> copy@[k]@ == list@[k]@,
        decreases list@.len() - i,
    {
        copy.push(list[i].clone());
        i = i + 1;
    }
    assert(texts_of(copy@) =~= texts_of(list@));
    copy
}

/// A copy of a byte string.
pub fn duplicate_bytes(bytes: &Vec<u8>) -> (copy: Vec<u8>)
    ensures
        copy@ == bytes@,
{
    let mut copy: Vec<u8> = Vec::new();
    let mut i: usize = 0;
    while i < bytes.len()
        invariant
            i <= bytes@.len(),
            copy@ == bytes@.subrange(0, i as int),
        decreases bytes@.len() - i,
    {
        copy.push(bytes[i]);
        assert(copy@ =~= bytes@.subrange(0, i + 1));
        i = i + 1;
    }
    assert(copy@ =~= bytes@);
    copy
}

/// The value of one property, as it goes on the wire.
#[derive(Debug)]
pub enum PropertyValue {
    /// A text.
    Str(String),
    /// The path of another object.
    ObjectPath(ObjectPath),
    /// A truth value.
    Bool(bool),
    /// A signed number of sixteen bits.
    I16(i16),
    /// A list of texts.
    StrArray(Vec<String>),
    /// A byte string.
    ByteArray(Vec<u8>),
}

/// A property value by what it holds.
pub enum PropertyValueView {
    Str(Seq<char>),
    ObjectPath(Seq<char>),
    Bool(bool),
    I16(i16),
    StrArray(Seq<Seq<char>>),
    ByteArray(Seq<u8>),
}

impl View for PropertyValue {
    type V = PropertyValueView;

    open spec fn view(&self) -> PropertyValueView {
        match self {
            PropertyValue::Str(s) => PropertyValueView::Str(s@),
            PropertyValue::ObjectPath(p) => PropertyValueView::ObjectPath(p@),
            PropertyValue::Bool(b) => PropertyValueView::Bool(*b),
            PropertyValue::I16(n) => PropertyValueView::I16(*n),
            PropertyValue::StrArray(l) => PropertyValueView::StrArray(texts_of(l@)),
            PropertyValue::ByteArray(b) => PropertyValueView::ByteArray(b@),
        }
    }
}

impl PropertyValue {
    /// A copy of the value.
    pub fn duplicate(&self) -> (copy: PropertyValue)
        ensures
            copy@ == self@,
    {
        match self {
            PropertyValue::Str(s) => PropertyValue::Str(s.clone()),
            PropertyValue::ObjectPath(p) => PropertyValue::ObjectPath(p.duplicate()),
            PropertyValue::Bool(b) => PropertyValue::Bool(*b),
            PropertyValue::I16(n) => PropertyValue::I16(*n),
            PropertyValue::StrArray(l) => PropertyValue::StrArray(duplicate_texts(l)),
            PropertyValue::ByteArray(b) => PropertyValue::ByteArray(duplicate_bytes(b)),
        }
    }
}

/// One property: its name and its value.
#[derive(Debug)]
pub struct Property {
    pub name: String,
    pub value: PropertyValue,
}

/// The snapshot of a node's properties: at most one value for a name.
#[derive(Debug)]
pub struct PropertyMap {
    entries: Vec<Property>,
}

/// Whether the entry at `i` carries the name `name`.
pub open spec fn named(entries: Seq<Property>, i: int, name: Seq<char>) -> bool {
    0 <= i < entries.len() && entries[i].name@ == name
}

/// The mapping that a list of entries with distinct names stands for.
pub open spec fn mapping_of(entries: Seq<Property>) -> Map<Seq<char>, PropertyValueView> {
    Map::new(
        |name: Seq<char>| exists|i: int| named(entries, i, name),
        |name: Seq<char>| entries[choose|i: int| named(entries, i, name)].value@,
    )
}

/// Whether no two entries carry the same name.
pub open spec fn distinct_names(entries: Seq<Property>) -> bool {
    forall|i: int, j: int|
        0 <= i < j < entries.len() ==> (#[trigger] entries[i]).name@ != (#[trigger] entries[j]).name@
}

impl View for PropertyMap {
    type V = Map<Seq<char>, PropertyValueView>;

    closed spec fn view(&self) -> Map<Seq<char>, PropertyValueView> {
        mapping_of(self.entries@)
    }
}

impl PropertyMap {
    #[verifier::type_invariant]
    closed spec fn well_formed(&self) -> bool {
        distinct_names(self.entries@)
    }

    /// A snapshot without properties.
    pub fn new() -> (props: PropertyMap)
        ensures
            props@ == Map::<Seq<char>, PropertyValueView>::empty(),
    {
        let props = PropertyMap { entries: Vec::new() };
        assert(props@ =~= Map::<Seq<char>, PropertyValueView>::empty());
        props
    }

    /// The position of the entry named `name`, if there is one.
    fn position(&self, name: &String) -> (found: Option<usize>)
        ensures
            match found {
                Some(i) => named(self.entries@, i as int, name@),
                None => forall|i: int| !named(self.entries@, i, name@),
            },
    {
        let mut i: usize = 0;
        while i < self.entries.len()
            invariant
                i <= self.entries@.len(),
                forall|k: int| 0 <= k < i ==> !named(self.entries@, k, name@),
            decreases self.entries@.len() - i,
        {
            if self.entries[i].name == *name {
                return Some(i);
            }
            i = i + 1;
        }
        None
    }

    /// Gives `name` the value `value`, in place of the one it had, if any.
    pub fn insert(&mut self, name: String, value: PropertyValue)
        ensures
            final(self)@ == old(self)@.insert(name@, value@),
    {
        proof {
            use_type_invariant(&*self);
        }
        let ghost before = self.entries@;
        let ghost key = name@;
        let ghost val = value@;
        let found = self.position(&name);
        let mut entries: Vec<Property> = Vec::new();
        core::mem::swap(&mut self.entries, &mut entries);
        match found {
            Some(i) => {
                entries.set(i, Property { name, value });
                proof {
                    let after = entries@;
                    assert forall|k: Seq<char>| #[trigger]
                        mapping_of(after).dom().contains(k) == mapping_of(before).insert(
                            key,
                            val,
                        ).dom().contains(k) by {
                        if exists|j: int| named(after, j, k) {
                            let j = choose|j: int| named(after, j, k);
                            assert(named(before, j, k));
                        }
                        if exists|j: int| named(before, j, k) {
                            let j = choose|j: int| named(before, j, k);
                            assert(named(after, j, k));
                        }
                        if k == key {
                            assert(named(after, i as int, k));
                        }
                    }
                    assert forall|k: Seq<char>| #[trigger]
                        mapping_of(after).dom().contains(k) implies mapping_of(after)[k]
                        == mapping_of(before).insert(key, val)[k] by {
                        let j = choose|j: int| named(after, j, k);
                        assert(named(before, j, k));
                        if k != key {
                            let j0 = choose|j: int| named(before, j, k);
                            assert(j0 == j);
                        } else {
                            assert(j == i);
                        }
                    }
                    assert(mapping_of(after) =~= mapping_of(before).insert(key, val));
                    assert(distinct_names(after));
                }
            },
            None => {
                entries.push(Property { name, value });
                proof {
                    let after = entries@;
                    let n = before.len() as int;
                    assert forall|k: Seq<char>| #[trigger]
                        mapping_of(after).dom().contains(k) == mapping_of(before).insert(
                            key,
                            val,
                        ).dom().contains(k) by {
                        if exists|j: int| named(after, j, k) {
                            let j = choose|j: int| named(after, j, k);
                            if j < n {
                                assert(named(before, j, k));
                            }
                        }
                        if exists|j: int| named(before, j, k) {
                            let j = choose|j: int| named(before, j, k);
                            assert(named(after, j, k));
                        }
                        if k == key {
                            assert(named(after, n, k));
                        }
                    }
                    assert forall|k: Seq<char>| #[trigger]
                        mapping_of(after).dom().contains(k) implies mapping_of(after)[k]
                        == mapping_of(before).insert(key, val)[k] by {
                        let j = choose|j: int| named(after, j, k);
                        if k != key {
                            assert(named(before, j, k));
                            let j0 = choose|j: int| named(before, j, k);
                            assert(j0 == j);
                        } else {
                            if j < n {
                                assert(named(before, j, k));
                            }
                        }
                    }
                    assert(mapping_of(after) =~= mapping_of(before).insert(key, val));
                    assert forall|a: int, b: int| 0 <= a < b < after.len() implies (
                    #[trigger] after[a]).name@ != (#[trigger] after[b]).name@ by {
                        if b == n {
                            assert(!named(before, a, key));
                        }
                    }
                }
            },
        }
        self.entries = entries;
    }

    /// The value of the property named `name`, if the snapshot has one.
    pub fn get(&self, name: &str) -> (value: Option<&PropertyValue>)
        ensures
            self@.dom().contains(name@) ==> value is Some && value->Some_0@ == self@[name@],
            !self@.dom().contains(name@) ==> value is None,
    {
        proof {
            use_type_invariant(self);
        }
        let key = name.to_string();
        match self.position(&key) {
            Some(i) => {
                proof {
                    let j = choose|j: int| named(self.entries@, j, name@);
                    assert(named(self.entries@, j, name@));
                    assert(j == i);
                }
                Some(&self.entries[i].value)
            },
            None => None,
        }
    }

    /// The properties of the snapshot, one entry for each name.
    pub fn entries(&self) -> (entries: &Vec<Property>)
        ensures
            distinct_names(entries@),
            mapping_of(entries@) == self@,
    {
        proof {
            use_type_invariant(self);
        }
        &self.entries
    }

    /// A copy of the snapshot.
    pub fn duplicate(&self) -> (copy: PropertyMap)
        ensures
            copy@ == self@,
    {
        proof {
            use_type_invariant(self);
        }
        let mut entries: Vec<Property> = Vec::new();
        let mut i: usize = 0;
        while i < self.entries.len()
            invariant
                i <= self.entries@.len(),
                entries@.len() == i,
                forall|k: int|
                    0 <= k < i ==> (#[trigger] entries@[k]).name@ == self.entries@[k].name@
                        && entries@[k].value@ == self.entries@[k].value@,
            decreases self.entries@.len() - i,
        {
            entries.push(
                Property {
                    name: self.entries[i].name.clone(),
                    value: self.entries[i].value.duplicate(),
                },
            );
            i = i + 1;
        }
        proof {
            let a = entries@;
            let b = self.entries@;
            assert forall|k: Seq<char>| #[trigger]
                mapping_of(a).dom().contains(k) == mapping_of(b).dom().contains(k) by {
                if exists|j: int| named(a, j, k) {
                    let j = choose|j: int| named(a, j, k);
                    assert(named(b, j, k));
                }
                if exists|j: int| named(b, j, k) {
                    let j = choose|j: int| named(b, j, k);
                    assert(named(a, j, k));
                }
            }
            assert forall|k: Seq<char>| #[trigger]
                mapping_of(a).dom().contains(k) implies mapping_of(a)[k] == mapping_of(b)[k] by {
                let j = choose|j: int| named(a, j, k);
                assert(named(b, j, k));
                let j0 = choose|j: int| named(b, j, k);
                assert(j0 == j);
            }
            assert(mapping_of(a) =~= mapping_of(b));
        }
        PropertyMap { entries }
    }
}

} // verus!
