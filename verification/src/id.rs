//! Stable identifiers of documents, assembly components and topology
//! references.

use vstd::prelude::*;

verus! {

/// Stable identifier of a document.
#[derive(Debug, Clone, PartialEq, Eq, Hash)]
pub struct DocumentId {
    value: String,
}

impl DocumentId {
    /// The identifier text.
    pub closed spec fn view(&self) -> Seq<char> {
        self.value@
    }

    /// An identifier with the given text.
    pub fn new(value: &str) -> (id: Self)
        ensures
            id.view() == value@,
    {
        DocumentId { value: value.to_owned() }
    }

    /// The identifier text.
    pub fn as_str(&self) -> (s: &str)
        ensures
            s@ == self.view(),
    {
        self.value.as_str()
    }
}

/// Stable identifier of a component inside an assembly.
#[derive(Debug, Clone, PartialEq, Eq, Hash)]
pub struct ComponentId {
    value: String,
}

impl ComponentId {
    /// The identifier text.
    pub closed spec fn view(&self) -> Seq<char> {
        self.value@
    }

    /// An identifier with the given text.
    pub fn new(value: &str) -> (id: Self)
        ensures
            id.view() == value@,
    {
        ComponentId { value: value.to_owned() }
    }

    /// The identifier text.
    pub fn as_str(&self) -> (s: &str)
        ensures
            s@ == self.view(),
    {
        self.value.as_str()
    }
}

/// Stable identifier of a semantic topology reference.
#[derive(Debug, PartialEq, Eq, Hash)]
pub struct TopoRefId {
    value: String,
}

impl TopoRefId {
    /// The identifier text.
    pub closed spec fn view(&self) -> Seq<char> {
        self.value@
    }

    /// An identifier with the given text.
    pub fn new(value: &str) -> (id: Self)
        ensures
            id.view() == value@,
    {
        TopoRefId { value: value.to_owned() }
    }

    /// The identifier text.
    pub fn as_str(&self) -> (s: &str)
        ensures
            s@ == self.view(),
    {
        self.value.as_str()
    }
}

impl Clone for TopoRefId {
    fn clone(&self) -> (id: Self)
        ensures
            id.view() == self.view(),
    {
        TopoRefId { value: self.value.clone() }
    }
}

} // verus!
