//! Identifiers of workspaces and of the documents open in them.

use vstd::prelude::*;

verus! {

/// Identifies a document opened in a workspace.
#[derive(Clone, Copy, Debug, PartialEq, Eq, Hash, Structural)]
pub struct DocumentId {
    value: u64,
}

impl DocumentId {
    /// The number that stands for this identifier.
    pub closed spec fn spec_value(self) -> u64 {
        self.value
    }

    /// The identifier that `value` stands for.
    pub closed spec fn spec_from_value(value: u64) -> DocumentId {
        DocumentId { value }
    }

    /// The identifier that `value` stands for.
    pub fn from_value(value: u64) -> (id: DocumentId)
        ensures
            id == DocumentId::spec_from_value(value),
            id.spec_value() == value,
    {
        DocumentId { value }
    }

    /// The number that stands for this identifier.
    pub fn value(&self) -> (r: u64)
        ensures
            r == self.spec_value(),
    {
        self.value
    }

    /// Two identifiers are equal exactly when their numbers are.
    pub proof fn lemma_value_injective(a: DocumentId, b: DocumentId)
        ensures
            (a.spec_value() == b.spec_value()) <==> (a == b),
    {
    }

    /// The number of the identifier made from `value` is `value`.
    pub proof fn lemma_from_value(value: u64)
        ensures
            #[trigger] DocumentId::spec_from_value(value).spec_value() == value,
    {
    }
}

/// Identifies an opened workspace.
#[derive(Clone, Copy, Debug, PartialEq, Eq, Hash, Structural)]
pub struct WorkspaceId {
    value: u64,
}

impl WorkspaceId {
    /// The number that stands for this identifier.
    pub closed spec fn spec_value(self) -> u64 {
        self.value
    }

    /// The identifier that `value` stands for.
    pub closed spec fn spec_from_value(value: u64) -> WorkspaceId {
        WorkspaceId { value }
    }

    /// The identifier that `value` stands for.
    pub fn from_value(value: u64) -> (id: WorkspaceId)
        ensures
            id == WorkspaceId::spec_from_value(value),
            id.spec_value() == value,
    {
        WorkspaceId { value }
    }

    /// The number that stands for this identifier.
    pub fn value(&self) -> (r: u64)
        ensures
            r == self.spec_value(),
    {
        self.value
    }

    /// Two identifiers are equal exactly when their numbers are.
    pub proof fn lemma_value_injective(a: WorkspaceId, b: WorkspaceId)
        ensures
            (a.spec_value() == b.spec_value()) <==> (a == b),
    {
    }

    /// The number of the identifier made from `value` is `value`.
    pub proof fn lemma_from_value(value: u64)
        ensures
            #[trigger] WorkspaceId::spec_from_value(value).spec_value() == value,
    {
    }
}

} // verus!
