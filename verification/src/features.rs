//! The capability set of a backend: a fixed collection of named booleans that the differ and the
//! renderer look up before they choose a strategy.
use vstd::prelude::*;

verus! {

/// One capability of a backend.
#[derive(Clone, Copy, Debug, PartialEq, Eq, Structural)]
pub enum MigrationFeature {
    /// `ALTER TABLE .. DROP COLUMN` exists.
    ColumnDrop,
    /// A column's type, nullability and default can be changed in place.
    ColumnAlter,
    /// Foreign keys can be added to and dropped from an existing table.
    ForeignKeyAlter,
    /// Schema changes take part in transactions.
    TransactionalDdl,
    /// A declared size or precision is part of a column's type.
    SizedTypes,
    /// Booleans are a type of their own, not small integers.
    NativeBoolean,
}

/// A set of capabilities.
#[derive(Clone, Copy, Debug, PartialEq, Eq, Structural)]
pub struct MigrationFeatures {
    pub column_drop: bool,
    pub column_alter: bool,
    pub foreign_key_alter: bool,
    pub transactional_ddl: bool,
    pub sized_types: bool,
    pub native_boolean: bool,
}

impl MigrationFeatures {
    /// The set with no capability.
    pub open spec fn spec_empty() -> MigrationFeatures {
        MigrationFeatures {
            column_drop: false,
            column_alter: false,
            foreign_key_alter: false,
            transactional_ddl: false,
            sized_types: false,
            native_boolean: false,
        }
    }

    /// Whether `feature` is in the set.
    pub open spec fn spec_contains(self, feature: MigrationFeature) -> bool {
        match feature {
            MigrationFeature::ColumnDrop => self.column_drop,
            MigrationFeature::ColumnAlter => self.column_alter,
            MigrationFeature::ForeignKeyAlter => self.foreign_key_alter,
            MigrationFeature::TransactionalDdl => self.transactional_ddl,
            MigrationFeature::SizedTypes => self.sized_types,
            MigrationFeature::NativeBoolean => self.native_boolean,
        }
    }

    /// The capabilities that are in either set.
    pub open spec fn spec_union(self, other: MigrationFeatures) -> MigrationFeatures {
        MigrationFeatures {
            column_drop: self.column_drop || other.column_drop,
            column_alter: self.column_alter || other.column_alter,
            foreign_key_alter: self.foreign_key_alter || other.foreign_key_alter,
            transactional_ddl: self.transactional_ddl || other.transactional_ddl,
            sized_types: self.sized_types || other.sized_types,
            native_boolean: self.native_boolean || other.native_boolean,
        }
    }

    /// The set with `feature` added.
    pub open spec fn spec_with(self, feature: MigrationFeature) -> MigrationFeatures {
        match feature {
            MigrationFeature::ColumnDrop => MigrationFeatures { column_drop: true, ..self },
            MigrationFeature::ColumnAlter => MigrationFeatures { column_alter: true, ..self },
            MigrationFeature::ForeignKeyAlter => MigrationFeatures { foreign_key_alter: true, ..self },
            MigrationFeature::TransactionalDdl => MigrationFeatures { transactional_ddl: true, ..self },
            MigrationFeature::SizedTypes => MigrationFeatures { sized_types: true, ..self },
            MigrationFeature::NativeBoolean => MigrationFeatures { native_boolean: true, ..self },
        }
    }

    /// The set with no capability.
    pub fn empty() -> (set: MigrationFeatures)
        ensures
            set == Self::spec_empty(),
            forall|f: MigrationFeature| !set.spec_contains(f),
    {
        MigrationFeatures {
            column_drop: false,
            column_alter: false,
            foreign_key_alter: false,
            transactional_ddl: false,
            sized_types: false,
            native_boolean: false,
        }
    }

    /// Whether `feature` is in the set.
    pub fn contains(&self, feature: MigrationFeature) -> (found: bool)
        ensures
            found == self.spec_contains(feature),
    {
        match feature {
            MigrationFeature::ColumnDrop => self.column_drop,
            MigrationFeature::ColumnAlter => self.column_alter,
            MigrationFeature::ForeignKeyAlter => self.foreign_key_alter,
            MigrationFeature::TransactionalDdl => self.transactional_ddl,
            MigrationFeature::SizedTypes => self.sized_types,
            MigrationFeature::NativeBoolean => self.native_boolean,
        }
    }

    /// The set with `feature` added.
    pub fn with(self, feature: MigrationFeature) -> (set: MigrationFeatures)
        ensures
            set == self.spec_with(feature),
            forall|f: MigrationFeature|
                set.spec_contains(f) == (f == feature || self.spec_contains(f)),
    {
        match feature {
            MigrationFeature::ColumnDrop => MigrationFeatures { column_drop: true, ..self },
            MigrationFeature::ColumnAlter => MigrationFeatures { column_alter: true, ..self },
            MigrationFeature::ForeignKeyAlter => MigrationFeatures { foreign_key_alter: true, ..self },
            MigrationFeature::TransactionalDdl => MigrationFeatures { transactional_ddl: true, ..self },
            MigrationFeature::SizedTypes => MigrationFeatures { sized_types: true, ..self },
            MigrationFeature::NativeBoolean => MigrationFeatures { native_boolean: true, ..self },
        }
    }

    /// The capabilities that are in either set.
    pub fn union(self, other: MigrationFeatures) -> (set: MigrationFeatures)
        ensures
            set == self.spec_union(other),
            forall|f: MigrationFeature|
                set.spec_contains(f) == (self.spec_contains(f) || other.spec_contains(f)),
    {
        MigrationFeatures {
            column_drop: self.column_drop || other.column_drop,
            column_alter: self.column_alter || other.column_alter,
            foreign_key_alter: self.foreign_key_alter || other.foreign_key_alter,
            transactional_ddl: self.transactional_ddl || other.transactional_ddl,
            sized_types: self.sized_types || other.sized_types,
            native_boolean: self.native_boolean || other.native_boolean,
        }
    }
}

} // verus!
