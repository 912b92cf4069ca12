//! Object paths, and the paths that services, characteristics and descriptors
//! are given below an application's root.

use vstd::prelude::*;
use crate::decimal::{decimal, decimal_text, is_digit, lemma_decimal_digits, lemma_decimal_injective};
use crate::error::{GattError, GattErrorView};

verus! {

/// Whether a character may stand in an element of an object path.
pub open spec fn name_char(c: char) -> bool {
    ('a' <= c <= 'z') || ('A' <= c <= 'Z') || ('0' <= c <= '9') || c == '_'
}

/// Whether a text is an object path: it starts with a slash, its elements
/// hold letters, digits and underscores, none of them is empty, and no slash
/// ends it unless the path is the root.
pub open spec fn valid_object_path(s: Seq<char>) -> bool {
    &&& s.len() >= 1
    &&& s[0] == '/'
    &&& forall|i: int| 0 <= i < s.len() ==> #[trigger] s[i] == '/' || name_char(s[i])
    &&& forall|i: int| 0 <= i < s.len() - 1 ==> !(#[trigger] s[i] == '/' && s[i + 1] == '/')
    &&& (s.len() > 1 ==> s[s.len() - 1] != '/')
}

/// The three kinds of node below an application.
#[derive(Clone, Copy, Debug, PartialEq, Eq, Structural)]
pub enum NodeKind {
    Service,
    Characteristic,
    Descriptor,
}

/// What precedes the index in the last element of a node's path.
pub open spec fn kind_label(kind: NodeKind) -> Seq<char> {
    match kind {
        NodeKind::Service => "/service"@,
        NodeKind::Characteristic => "/characteristic"@,
        NodeKind::Descriptor => "/descriptor"@,
    }
}

/// The path of the child of `kind` at position `index` below `parent`.
pub open spec fn child_path(parent: Seq<char>, kind: NodeKind, index: nat) -> Seq<char> {
    parent + kind_label(kind) + decimal(index)
}

/// A label is a slash and then a name that no other kind starts like.
pub proof fn lemma_kind_label(kind: NodeKind)
    ensures
        kind_label(kind).len() >= 2,
        kind_label(kind)[0] == '/',
        forall|i: int| 1 <= i < kind_label(kind).len() ==> name_char(#[trigger] kind_label(kind)[i]),
        forall|i: int| 1 <= i < kind_label(kind).len() ==> !is_digit(#[trigger] kind_label(kind)[i]),
        kind_label(kind)[1] == match kind {
            NodeKind::Service => 's',
            NodeKind::Characteristic => 'c',
            NodeKind::Descriptor => 'd',
        },
{
    reveal_strlit("/service");
    reveal_strlit("/characteristic");
    reveal_strlit("/descriptor");
    match kind {
        NodeKind::Service => {
            assert("/service"@ =~= seq!['/', 's', 'e', 'r', 'v', 'i', 'c', 'e']);
        },
        NodeKind::Characteristic => {
            assert("/characteristic"@ =~= seq![
                '/', 'c', 'h', 'a', 'r', 'a', 'c', 't', 'e', 'r', 'i', 's', 't', 'i', 'c',
            ]);
        },
        NodeKind::Descriptor => {
            assert("/descriptor"@ =~= seq!['/', 'd', 'e', 's', 'c', 'r', 'i', 'p', 't', 'o', 'r']);
        },
    }
}

/// Below a valid parent every child path is valid, except below the root,
/// where none is: the slash of the label would follow the root's own.
pub proof fn lemma_child_valid(parent: Seq<char>, kind: NodeKind, index: nat)
    requires
        valid_object_path(parent),
    ensures
        valid_object_path(child_path(parent, kind, index)) <==> parent.len() > 1,
{
    let label = kind_label(kind);
    let digits = decimal(index);
    let c = child_path(parent, kind, index);
    let a = parent.len() as int;
    let b = label.len() as int;
    lemma_kind_label(kind);
    lemma_decimal_digits(index);
    assert(c.len() == a + b + digits.len());
    assert forall|i: int| 0 <= i < c.len() implies c[i] == if i < a {
        parent[i]
    } else if i < a + b {
        label[i - a]
    } else {
        digits[i - a - b]
    } by {}
    if parent.len() > 1 {
        assert forall|i: int| 0 <= i < c.len() implies #[trigger] c[i] == '/' || name_char(c[i]) by {
            if i < a {
                assert(parent[i] == '/' || name_char(parent[i]));
            } else if i < a + b {
                if i > a {
                    assert(name_char(label[i - a]));
                }
            } else {
                assert(is_digit(digits[i - a - b]));
            }
        }
        assert forall|i: int| 0 <= i < c.len() - 1 implies !(#[trigger] c[i] == '/' && c[i + 1]
            == '/') by {
            if i + 1 < a {
                assert(!(parent[i] == '/' && parent[i + 1] == '/'));
            } else if i + 1 == a {
                assert(parent[a - 1] != '/');
            } else if i + 1 < a + b {
                assert(name_char(label[i + 1 - a]));
            } else {
                assert(is_digit(digits[i + 1 - a - b]));
            }
        }
        assert(is_digit(digits[digits.len() - 1]));
        assert(c[0] == parent[0]);
    } else {
        assert(c[0] == '/' && c[1] == '/');
    }
}

/// Two child paths are the same text only where parent, kind and index are
/// the same.
pub proof fn lemma_child_path_injective(
    parent: Seq<char>,
    kind: NodeKind,
    index: nat,
    other_parent: Seq<char>,
    other_kind: NodeKind,
    other_index: nat,
)
    requires
        child_path(parent, kind, index) == child_path(other_parent, other_kind, other_index),
    ensures
        parent == other_parent,
        kind == other_kind,
        index == other_index,
{
    let path = child_path(parent, kind, index);
    let other_path = child_path(other_parent, other_kind, other_index);
    lemma_child_tail(parent, kind, index);
    lemma_child_tail(other_parent, other_kind, other_index);
    if parent.len() < other_parent.len() {
        assert(other_path[other_parent.len() as int] == '/');
        assert(path[other_parent.len() as int] != '/');
    } else if other_parent.len() < parent.len() {
        assert(path[parent.len() as int] == '/');
        assert(other_path[parent.len() as int] != '/');
    }
    let a = parent.len() as int;
    assert(parent =~= path.subrange(0, a));
    assert(other_parent =~= other_path.subrange(0, a));
    lemma_kind_label(kind);
    lemma_kind_label(other_kind);
    assert(path[a + 1] == kind_label(kind)[1]);
    assert(other_path[a + 1] == kind_label(other_kind)[1]);
    let b = kind_label(kind).len() as int;
    assert(decimal(index) =~= path.subrange(a + b, path.len() as int));
    assert(decimal(other_index) =~= other_path.subrange(a + b, other_path.len() as int));
    lemma_decimal_injective(index, other_index);
}

/// A child path holds its parent, then a slash, then no further slash.
pub proof fn lemma_child_tail(parent: Seq<char>, kind: NodeKind, index: nat)
    ensures
        child_path(parent, kind, index).len() > parent.len() + 2,
        child_path(parent, kind, index).subrange(0, parent.len() as int) == parent,
        child_path(parent, kind, index)[parent.len() as int] == '/',
        forall|i: int|
            parent.len() < i < child_path(parent, kind, index).len() ==> #[trigger] child_path(
                parent,
                kind,
                index,
            )[i] != '/',
        forall|i: int|
            parent.len() + kind_label(kind).len() <= i < child_path(parent, kind, index).len()
                ==> is_digit(#[trigger] child_path(parent, kind, index)[i]),
{
    let label = kind_label(kind);
    let digits = decimal(index);
    let c = child_path(parent, kind, index);
    let a = parent.len() as int;
    let b = label.len() as int;
    lemma_kind_label(kind);
    lemma_decimal_digits(index);
    assert(c.subrange(0, a) =~= parent);
    assert forall|i: int| a < i < c.len() implies #[trigger] c[i] != '/' by {
        if i < a + b {
            assert(c[i] == label[i - a]);
            assert(name_char(label[i - a]));
        } else {
            assert(c[i] == digits[i - a - b]);
            assert(is_digit(digits[i - a - b]));
        }
    }
    assert forall|i: int| a + b <= i < c.len() implies is_digit(#[trigger] c[i]) by {
        assert(c[i] == digits[i - a - b]);
        assert(is_digit(digits[i - a - b]));
    }
    assert(c[a] == label[0]);
}

/// The path of an object on the bus.
#[derive(Debug)]
pub struct ObjectPath {
    text: String,
}

impl View for ObjectPath {
    type V = Seq<char>;

    closed spec fn view(&self) -> Seq<char> {
        self.text@
    }
}

/// The text of the root path.
pub open spec fn root_path() -> Seq<char> {
    seq!['/']
}

/// `zbus::zvariant::ObjectPath::try_from` on a `&str`, asked only whether it
/// accepts the text. It does so for a slash followed by elements of ASCII
/// letters, digits and underscores that single slashes separate, and for
/// nothing else.
#[verifier::external_body]
fn is_object_path(text: &str) -> (ok: bool)
    ensures
        ok == valid_object_path(text@),
{
    zbus::zvariant::ObjectPath::try_from(text).is_ok()
}

/// The label of a kind, as text.
fn label_text(kind: NodeKind) -> (text: &'static str)
    ensures
        text@ == kind_label(kind),
{
    match kind {
        NodeKind::Service => "/service",
        NodeKind::Characteristic => "/characteristic",
        NodeKind::Descriptor => "/descriptor",
    }
}

impl ObjectPath {
    #[verifier::type_invariant]
    closed spec fn well_formed(&self) -> bool {
        valid_object_path(self.text@)
    }

    /// Reads a path from its text, or turns the text down where it is none.
    pub fn parse(text: &str) -> (result: Result<ObjectPath, GattError>)
        ensures
            valid_object_path(text@) ==> result is Ok && result->Ok_0@ == text@,
            !valid_object_path(text@) ==> result is Err && result->Err_0@
                == GattErrorView::InvalidObjectPath,
    {
        if is_object_path(text) {
            Ok(ObjectPath { text: text.to_string() })
        } else {
            Err(GattError::InvalidObjectPath)
        }
    }

    /// The root path, which a node has before it is given its place.
    pub fn root() -> (path: ObjectPath)
        ensures
            path@ == root_path(),
    {
        proof {
            reveal_strlit("/");
            assert("/"@ =~= root_path());
        }
        ObjectPath { text: "/".to_string() }
    }

    /// The path as text: that of an object path, as every path is.
    pub fn as_str(&self) -> (text: &str)
        ensures
            text@ == self@,
            valid_object_path(text@),
    {
        proof {
            use_type_invariant(self);
        }
        self.text.as_str()
    }

    /// Whether two paths are the same text.
    pub fn same_as(&self, other: &ObjectPath) -> (same: bool)
        ensures
            same == (self@ == other@),
    {
        self.text == other.text
    }

    /// A copy of the path.
    pub fn duplicate(&self) -> (path: ObjectPath)
        ensures
            path@ == self@,
    {
        proof {
            use_type_invariant(self);
        }
        ObjectPath { text: self.text.clone() }
    }

    /// The path of the child of `kind` at position `index` below this one.
    /// It depends on nothing but the three. Below the root there is none.
    pub fn child(&self, kind: NodeKind, index: usize) -> (result: Result<ObjectPath, GattError>)
        ensures
            self@ != root_path() ==> result is Ok && result->Ok_0@ == child_path(
                self@,
                kind,
                index as nat,
            ),
            self@ == root_path() ==> result is Err && result->Err_0@
                == GattErrorView::InvalidObjectPath,
    {
        proof {
            use_type_invariant(self);
            lemma_child_valid(self.text@, kind, index as nat);
            if self.text@.len() == 1 {
                assert(self.text@ =~= root_path());
            }
        }
        let mut text = self.text.clone();
        text.append(label_text(kind));
        let digits = decimal_text(index);
        text.append(digits.as_str());
        if is_object_path(text.as_str()) {
            Ok(ObjectPath { text })
        } else {
            Err(GattError::InvalidObjectPath)
        }
    }
}

} // verus!
