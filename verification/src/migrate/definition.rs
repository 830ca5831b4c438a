//! Migration definitions, as loaded once per run and never changed after.

use vstd::prelude::*;

verus! {

/// Identifier of a migration: unique within a source and totally ordered.
pub type Version = i64;

/// Whether a migration can be undone.
#[derive(Debug, Clone, PartialEq, Eq)]
pub enum MigrationKind {
    /// A single script. Once applied it stays in the ledger for good.
    Simple { up_script: String },
    /// A script together with its inverse.
    Reversible { up_script: String, down_script: String },
}

/// Mathematical value of a [`MigrationKind`].
pub ghost enum MigrationKindView {
    Simple { up_script: Seq<char> },
    Reversible { up_script: Seq<char>, down_script: Seq<char> },
}

impl View for MigrationKind {
    type V = MigrationKindView;

    open spec fn view(&self) -> MigrationKindView {
        match *self {
            MigrationKind::Simple { up_script } => MigrationKindView::Simple {
                up_script: up_script@,
            },
            MigrationKind::Reversible { up_script, down_script } => MigrationKindView::Reversible {
                up_script: up_script@,
                down_script: down_script@,
            },
        }
    }
}

impl MigrationKindView {
    /// The script that applies the migration.
    pub open spec fn up_script(self) -> Seq<char> {
        match self {
            MigrationKindView::Simple { up_script } => up_script,
            MigrationKindView::Reversible { up_script, .. } => up_script,
        }
    }
}

impl MigrationKind {
    /// True for a migration that has a down script.
    pub fn is_reversible(&self) -> (r: bool)
        ensures
            r == (self@ is Reversible),
    {
        match self {
            MigrationKind::Simple { .. } => false,
            MigrationKind::Reversible { .. } => true,
        }
    }

    /// The script that applies the migration.
    pub fn up_script(&self) -> (s: &String)
        ensures
            s@ == self@.up_script(),
    {
        match self {
            MigrationKind::Simple { up_script } => up_script,
            MigrationKind::Reversible { up_script, .. } => up_script,
        }
    }

    /// The script that undoes the migration, if it has one.
    pub fn down_script(&self) -> (s: Option<&String>)
        ensures
            match self@ {
                MigrationKindView::Simple { .. } => s is None,
                MigrationKindView::Reversible { down_script, .. } => s is Some
                    && s->Some_0@ == down_script,
            },
    {
        match self {
            MigrationKind::Simple { .. } => None,
            MigrationKind::Reversible { down_script, .. } => Some(down_script),
        }
    }

    /// A copy with the same scripts.
    pub fn duplicate(&self) -> (r: MigrationKind)
        ensures
            r@ == self@,
    {
        match self {
            MigrationKind::Simple { up_script } => MigrationKind::Simple {
                up_script: up_script.clone(),
            },
            MigrationKind::Reversible { up_script, down_script } => MigrationKind::Reversible {
                up_script: up_script.clone(),
                down_script: down_script.clone(),
            },
        }
    }
}

/// One versioned unit of schema change.
///
/// The checksum is a hash over the content of the up script. It serves to
/// notice that a migration was edited after it was applied, and never to tell
/// two migrations apart: that is what the version is for.
#[derive(Debug, Clone, PartialEq, Eq)]
pub struct MigrationDefinition {
    pub version: Version,
    pub description: String,
    pub content_checksum: Vec<u8>,
    pub kind: MigrationKind,
}

/// Mathematical value of a [`MigrationDefinition`].
pub ghost struct MigrationDefinitionView {
    pub version: Version,
    pub description: Seq<char>,
    pub content_checksum: Seq<u8>,
    pub kind: MigrationKindView,
}

impl View for MigrationDefinition {
    type V = MigrationDefinitionView;

    open spec fn view(&self) -> MigrationDefinitionView {
        MigrationDefinitionView {
            version: self.version,
            description: self.description@,
            content_checksum: self.content_checksum@,
            kind: self.kind@,
        }
    }
}

impl MigrationDefinitionView {
    /// True when the migration can be targeted by a revert.
    pub open spec fn is_reversible(self) -> bool {
        self.kind is Reversible
    }
}

/// Copies a byte string.
pub fn copy_bytes(bytes: &Vec<u8>) -> (r: Vec<u8>)
    ensures
        r@ == bytes@,
{
    let mut r: Vec<u8> = Vec::new();
    let mut i: usize = 0;
    while i < bytes.len()
        invariant
            i <= bytes.len(),
            r@ == bytes@.take(i as int),
        decreases bytes.len() - i,
    {
        r.push(bytes[i]);
        assert(bytes@.take(i + 1) == bytes@.take(i as int).push(bytes@[i as int]));
        i += 1;
    }
    r
}

/// Compares two byte strings.
pub fn same_bytes(a: &Vec<u8>, b: &Vec<u8>) -> (r: bool)
    ensures
        r == (a@ == b@),
{
    if a.len() != b.len() {
        return false;
    }
    let mut i: usize = 0;
    while i < a.len()
        invariant
            i <= a.len(),
            a.len() == b.len(),
            a@.take(i as int) == b@.take(i as int),
        decreases a.len() - i,
    {
        if a[i] != b[i] {
            return false;
        }
        assert(a@.take(i + 1) == a@.take(i as int).push(a@[i as int]));
        assert(b@.take(i + 1) == b@.take(i as int).push(b@[i as int]));
        i += 1;
    }
    assert(a@.take(a.len() as int) == a@);
    assert(b@.take(b.len() as int) == b@);
    true
}

impl MigrationDefinition {
    /// A copy with the same version, description, checksum and scripts.
    pub fn duplicate(&self) -> (r: MigrationDefinition)
        ensures
            r@ == self@,
    {
        MigrationDefinition {
            version: self.version,
            description: self.description.clone(),
            content_checksum: copy_bytes(&self.content_checksum),
            kind: self.kind.duplicate(),
        }
    }

    /// True when the migration can be targeted by a revert.
    pub fn is_reversible(&self) -> (r: bool)
        ensures
            r == self@.is_reversible(),
    {
        self.kind.is_reversible()
    }
}

} // verus!
