//! The keys under which cluster objects are filed.

use vstd::prelude::*;
use vstd::string::*;

use crate::table::Key;

verus! {

/// Copies an optional text.
pub fn copy_text(text: &Option<String>) -> (r: Option<String>)
    ensures
        option_text(r) == option_text(*text),
{
    match text {
        Some(t) => Some(t.clone()),
        None => None,
    }
}

/// An optional text as plain characters.
pub open spec fn option_text(text: Option<String>) -> Option<Seq<char>> {
    match text {
        Some(t) => Some(t@),
        None => None,
    }
}

/// The key of an object within its type: the namespace, absent for objects
/// that belong to the whole cluster, and the name.
#[derive(Clone, Debug)]
pub struct ObjectKey {
    namespace: Option<String>,
    name: String,
}

/// An object key as plain characters.
pub struct ObjectKeyView {
    pub namespace: Option<Seq<char>>,
    pub name: Seq<char>,
}

impl View for ObjectKey {
    type V = ObjectKeyView;

    closed spec fn view(&self) -> ObjectKeyView {
        ObjectKeyView { namespace: option_text(self.namespace), name: self.name@ }
    }
}

impl ObjectKey {
    /// The key with the given namespace and name.
    pub fn new(namespace: Option<String>, name: String) -> (key: ObjectKey)
        ensures
            key@ == (ObjectKeyView { namespace: option_text(namespace), name: name@ }),
    {
        ObjectKey { namespace, name }
    }

    /// The namespace, if the object has one.
    pub fn namespace(&self) -> (r: &Option<String>)
        ensures
            option_text(*r) == self@.namespace,
    {
        &self.namespace
    }

    /// The name.
    pub fn name(&self) -> (r: &String)
        ensures
            r@ == self@.name,
    {
        &self.name
    }
}

impl Key for ObjectKey {
    type Id = ObjectKeyView;

    open spec fn id(&self) -> ObjectKeyView {
        self@
    }

    /// Two keys are the same where both the namespace and the name are.
    fn same(&self, other: &Self) -> (r: bool) {
        let same_namespace = match (&self.namespace, &other.namespace) {
            (Some(a), Some(b)) => *a == *b,
            (None, None) => true,
            _ => false,
        };
        same_namespace && self.name == other.name
    }

    fn duplicate(&self) -> (r: Self) {
        ObjectKey { namespace: copy_text(&self.namespace), name: self.name.clone() }
    }
}

/// The schema of a stored object: API group, version and kind.
#[derive(Clone, Debug)]
pub struct TypeKey {
    group: String,
    version: String,
    kind: String,
}

/// A type key as plain characters.
pub struct TypeKeyView {
    pub group: Seq<char>,
    pub version: Seq<char>,
    pub kind: Seq<char>,
}

impl View for TypeKey {
    type V = TypeKeyView;

    closed spec fn view(&self) -> TypeKeyView {
        TypeKeyView { group: self.group@, version: self.version@, kind: self.kind@ }
    }
}

impl TypeKey {
    /// Builds the key through `kube::api::GroupVersionKind::gvk` and keeps
    /// the three fields of what it returns. That function copies each of its
    /// arguments into the field of the same name; the contract claims no
    /// more than that.
    #[verifier::external_body]
    fn gvk(group: &str, version: &str, kind: &str) -> (key: TypeKey)
        ensures
            key@ == (TypeKeyView { group: group@, version: version@, kind: kind@ }),
    {
        let gvk = kube::api::GroupVersionKind::gvk(group, version, kind);
        TypeKey { group: gvk.group, version: gvk.version, kind: gvk.kind }
    }

    /// The type key of the given group, version and kind.
    pub fn new(group: &str, version: &str, kind: &str) -> (key: TypeKey)
        ensures
            key@ == (TypeKeyView { group: group@, version: version@, kind: kind@ }),
    {
        Self::gvk(group, version, kind)
    }

    /// The API group.
    pub fn group(&self) -> (r: &String)
        ensures
            r@ == self@.group,
    {
        &self.group
    }

    /// The version.
    pub fn version(&self) -> (r: &String)
        ensures
            r@ == self@.version,
    {
        &self.version
    }

    /// The kind.
    pub fn kind(&self) -> (r: &String)
        ensures
            r@ == self@.kind,
    {
        &self.kind
    }
}

impl Key for TypeKey {
    type Id = TypeKeyView;

    open spec fn id(&self) -> TypeKeyView {
        self@
    }

    fn same(&self, other: &Self) -> (r: bool) {
        self.group == other.group && self.version == other.version && self.kind == other.kind
    }

    fn duplicate(&self) -> (r: Self) {
        TypeKey {
            group: self.group.clone(),
            version: self.version.clone(),
            kind: self.kind.clone(),
        }
    }
}

} // verus!
