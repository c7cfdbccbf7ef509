//! The schema differ: from two snapshots and a capability set to an ordered plan of steps.
use crate::features::MigrationFeatures;
use crate::schema::{
    column_names, seq_view, table_names, Column, ColumnType, ColumnTypeFamily, ColumnView, DefaultValue, DefaultValueView,
    ForeignKey, ForeignKeyView, Index, IndexView, Name, SqlSchema, SqlSchemaView, Table, TableView,
};
use vstd::prelude::*;

verus! {

/// One step of a migration plan. Steps name the entities they touch and carry the definitions
/// they install: they hold no reference into either snapshot.
#[allow(inconsistent_fields)]
#[derive(Debug, PartialEq, Eq)]
pub enum DiffStep {
    /// Create `table`, with the foreign keys that the step carries.
    CreateTable { table: Table },
    DropTable { table: String },
    AddColumn { table: String, column: Column },
    DropColumn { table: String, column: String },
    /// Change the column named `next.name` from `previous` to `next`.
    AlterColumn { table: String, previous: Column, next: Column },
    AddForeignKey { table: String, foreign_key: ForeignKey },
    DropForeignKey { table: String, foreign_key: ForeignKey },
    CreateIndex { table: String, index: Index },
    DropIndex { table: String, index: String },
    /// Rebuild the table named `next.name` under the definition `next`, copy the rows of
    /// `previous` over, and swap the names.
    RedefineTable { previous: Table, next: Table },
}

/// A step as contracts speak of it.
#[allow(inconsistent_fields)]
pub enum DiffStepView {
    CreateTable { table: TableView },
    DropTable { table: Name },
    AddColumn { table: Name, column: ColumnView },
    DropColumn { table: Name, column: Name },
    AlterColumn { table: Name, previous: ColumnView, next: ColumnView },
    AddForeignKey { table: Name, foreign_key: ForeignKeyView },
    DropForeignKey { table: Name, foreign_key: ForeignKeyView },
    CreateIndex { table: Name, index: IndexView },
    DropIndex { table: Name, index: Name },
    RedefineTable { previous: TableView, next: TableView },
}

impl View for DiffStep {
    type V = DiffStepView;

    open spec fn view(&self) -> DiffStepView {
        match self {
            DiffStep::CreateTable { table } => DiffStepView::CreateTable { table: table@ },
            DiffStep::DropTable { table } => DiffStepView::DropTable { table: table@ },
            DiffStep::AddColumn { table, column } => DiffStepView::AddColumn {
                table: table@,
                column: column@,
            },
            DiffStep::DropColumn { table, column } => DiffStepView::DropColumn {
                table: table@,
                column: column@,
            },
            DiffStep::AlterColumn { table, previous, next } => DiffStepView::AlterColumn {
                table: table@,
                previous: previous@,
                next: next@,
            },
            DiffStep::AddForeignKey { table, foreign_key } => DiffStepView::AddForeignKey {
                table: table@,
                foreign_key: foreign_key@,
            },
            DiffStep::DropForeignKey { table, foreign_key } => DiffStepView::DropForeignKey {
                table: table@,
                foreign_key: foreign_key@,
            },
            DiffStep::CreateIndex { table, index } => DiffStepView::CreateIndex {
                table: table@,
                index: index@,
            },
            DiffStep::DropIndex { table, index } => DiffStepView::DropIndex {
                table: table@,
                index: index@,
            },
            DiffStep::RedefineTable { previous, next } => DiffStepView::RedefineTable {
                previous: previous@,
                next: next@,
            },
        }
    }
}

/// The position of the first table called `name`.
pub open spec fn find_table(tables: Seq<TableView>, name: Name) -> Option<int> {
    table_names(tables).index_of_first(name)
}

/// The position of the first column called `name`.
pub open spec fn find_column(columns: Seq<ColumnView>, name: Name) -> Option<int> {
    column_names(columns).index_of_first(name)
}

/// A column type as the backend stores it: a boolean is a one-digit small integer where the
/// backend has no boolean type, and a declared size is dropped where the backend ignores sizes.
pub open spec fn normalized_type(tpe: ColumnType, features: MigrationFeatures) -> ColumnType {
    let family = if tpe.family == ColumnTypeFamily::Boolean && !features.native_boolean {
        ColumnTypeFamily::SmallInt
    } else {
        tpe.family
    };
    let size = if !features.sized_types {
        None
    } else if tpe.family == ColumnTypeFamily::Boolean && !features.native_boolean {
        Some(1u32)
    } else {
        tpe.size
    };
    ColumnType { family, size }
}

/// A default as the backend stores it: `true` and `false` are 1 and 0 where the backend has no
/// boolean type.
pub open spec fn normalized_default(
    default: Option<DefaultValueView>,
    features: MigrationFeatures,
) -> Option<DefaultValueView> {
    match default {
        Some(DefaultValueView::Bool(b)) => if features.native_boolean {
            default
        } else if b {
            Some(DefaultValueView::Int(1))
        } else {
            Some(DefaultValueView::Int(0))
        },
        _ => default,
    }
}

/// Whether two columns are the same column to the backend: same name, same nullability, and
/// type and default equal once both are taken as the backend stores them.
pub open spec fn columns_match(a: ColumnView, b: ColumnView, features: MigrationFeatures) -> bool {
    &&& a.name == b.name
    &&& a.nullable == b.nullable
    &&& normalized_type(a.tpe, features) == normalized_type(b.tpe, features)
    &&& normalized_default(a.default, features) == normalized_default(b.default, features)
}

/// Whether `previous` has a column whose name no column of `next` bears.
pub open spec fn drops_column(previous: TableView, next: TableView) -> bool {
    exists|j: int|
        0 <= j < previous.columns.len() && !column_names(next.columns).contains(
            #[trigger] previous.columns[j].name,
        )
}

/// Whether `previous` has a column called as `column` is that does not match it.
pub open spec fn column_altered(
    previous: Seq<ColumnView>,
    column: ColumnView,
    features: MigrationFeatures,
) -> bool {
    match find_column(previous, column.name) {
        Some(k) => !columns_match(previous[k], column, features),
        None => false,
    }
}

/// Whether some column of `next` alters a column of `previous`.
pub open spec fn alters_column(
    previous: TableView,
    next: TableView,
    features: MigrationFeatures,
) -> bool {
    exists|j: int|
        0 <= j < next.columns.len() && column_altered(
            previous.columns,
            #[trigger] next.columns[j],
            features,
        )
}

/// Whether every element of `a` occurs in `b`.
pub open spec fn all_in<A>(a: Seq<A>, b: Seq<A>) -> bool {
    forall|j: int| 0 <= j < a.len() ==> b.contains(#[trigger] a[j])
}

/// Whether one table has a foreign key that the other lacks.
pub open spec fn foreign_keys_differ(previous: TableView, next: TableView) -> bool {
    !all_in(previous.foreign_keys, next.foreign_keys) || !all_in(
        next.foreign_keys,
        previous.foreign_keys,
    )
}

/// Whether the change from `previous` to `next` asks for something the backend cannot do in
/// place, so that the table has to be rebuilt: a change of primary key; a dropped column where
/// columns cannot be dropped; an altered column where columns cannot be altered; a change of
/// foreign keys where an existing table's foreign keys cannot be changed.
pub open spec fn needs_redefine(
    previous: TableView,
    next: TableView,
    features: MigrationFeatures,
) -> bool {
    ||| previous.primary_key != next.primary_key
    ||| !features.column_drop && drops_column(previous, next)
    ||| !features.column_alter && alters_column(previous, next, features)
    ||| !features.foreign_key_alter && foreign_keys_differ(previous, next)
}

/// The concatenation of `part(0)`, .., `part(n - 1)`.
pub open spec fn concat_prefix<A>(part: spec_fn(int) -> Seq<A>, n: nat) -> Seq<A>
    decreases n,
{
    if n == 0 {
        Seq::empty()
    } else {
        concat_prefix(part, (n - 1) as nat) + part(n - 1)
    }
}


/// Drops of the foreign keys among the first `n` of `dropped` that `kept` lacks.
pub open spec fn foreign_key_drops_in(
    table: Name,
    dropped: Seq<ForeignKeyView>,
    kept: Seq<ForeignKeyView>,
    n: nat,
) -> Seq<DiffStepView> {
    concat_prefix(
        |j: int|
            if kept.contains(dropped[j]) {
                Seq::empty()
            } else {
                seq![DiffStepView::DropForeignKey { table, foreign_key: dropped[j] }]
            },
        n,
    )
}

/// The foreign-key drops for one table of the old schema: where the table stays, the keys
/// that its new definition lacks, unless the table is rebuilt on a backend that cannot drop
/// foreign keys (the rebuild then leaves them behind); where the table goes and the backend
/// can drop foreign keys, all of them.
pub open spec fn foreign_key_drops_of(
    previous: TableView,
    to: Seq<TableView>,
    features: MigrationFeatures,
) -> Seq<DiffStepView> {
    match find_table(to, previous.name) {
        Some(k) => if needs_redefine(previous, to[k], features) && !features.foreign_key_alter {
            Seq::empty()
        } else {
            foreign_key_drops_in(
                previous.name,
                previous.foreign_keys,
                to[k].foreign_keys,
                previous.foreign_keys.len(),
            )
        },
        None => if features.foreign_key_alter {
            foreign_key_drops_in(
                previous.name,
                previous.foreign_keys,
                Seq::empty(),
                previous.foreign_keys.len(),
            )
        } else {
            Seq::empty()
        },
    }
}

/// The foreign-key drops for the first `n` tables of the old schema.
pub open spec fn foreign_key_drops(
    from: Seq<TableView>,
    to: Seq<TableView>,
    features: MigrationFeatures,
    n: nat,
) -> Seq<DiffStepView> {
    concat_prefix(|i: int| foreign_key_drops_of(from[i], to, features), n)
}

/// Drops of the indexes among the first `n` of `dropped` that `kept` lacks.
pub open spec fn index_drops_in(
    table: Name,
    dropped: Seq<IndexView>,
    kept: Seq<IndexView>,
    n: nat,
) -> Seq<DiffStepView> {
    concat_prefix(
        |j: int|
            if kept.contains(dropped[j]) {
                Seq::empty()
            } else {
                seq![DiffStepView::DropIndex { table, index: dropped[j].name }]
            },
        n,
    )
}

/// The index drops for one table of the old schema: none unless the table stays and is changed
/// in place.
pub open spec fn index_drops_of(
    previous: TableView,
    to: Seq<TableView>,
    features: MigrationFeatures,
) -> Seq<DiffStepView> {
    match find_table(to, previous.name) {
        Some(k) => if needs_redefine(previous, to[k], features) {
            Seq::empty()
        } else {
            index_drops_in(previous.name, previous.indexes, to[k].indexes, previous.indexes.len())
        },
        None => Seq::empty(),
    }
}

/// The index drops for the first `n` tables of the old schema.
pub open spec fn index_drops(
    from: Seq<TableView>,
    to: Seq<TableView>,
    features: MigrationFeatures,
    n: nat,
) -> Seq<DiffStepView> {
    concat_prefix(|i: int| index_drops_of(from[i], to, features), n)
}

/// Drops of those among the first `n` tables of the old schema that the new one lacks.
pub open spec fn table_drops(from: Seq<TableView>, to: Seq<TableView>, n: nat) -> Seq<
    DiffStepView,
> {
    concat_prefix(
        |i: int|
            if find_table(to, from[i].name) is None {
                seq![DiffStepView::DropTable { table: from[i].name }]
            } else {
                Seq::empty()
            },
        n,
    )
}

/// The definition under which a new table is created: without its indexes, which are created
/// after it, and without its foreign keys where the backend can add them later.
pub open spec fn created_table(next: TableView, features: MigrationFeatures) -> TableView {
    TableView {
        name: next.name,
        columns: next.columns,
        primary_key: next.primary_key,
        indexes: Seq::empty(),
        foreign_keys: if features.foreign_key_alter {
            Seq::empty()
        } else {
            next.foreign_keys
        },
    }
}

/// Creations of those among the first `n` tables of the new schema that the old one lacks.
pub open spec fn table_creations(
    from: Seq<TableView>,
    to: Seq<TableView>,
    features: MigrationFeatures,
    n: nat,
) -> Seq<DiffStepView> {
    concat_prefix(
        |i: int|
            if find_table(from, to[i].name) is None {
                seq![DiffStepView::CreateTable { table: created_table(to[i], features) }]
            } else {
                Seq::empty()
            },
        n,
    )
}

/// Drops of the columns among the first `n` of `previous` whose name no column of `next` bears.
pub open spec fn column_drops_in(
    table: Name,
    previous: Seq<ColumnView>,
    next: Seq<ColumnView>,
    n: nat,
) -> Seq<DiffStepView> {
    concat_prefix(
        |j: int|
            if column_names(next).contains(previous[j].name) {
                Seq::empty()
            } else {
                seq![DiffStepView::DropColumn { table, column: previous[j].name }]
            },
        n,
    )
}

/// What `column` of the new definition asks for: an addition where no column of `previous` is
/// called so, an alteration where one is and does not match, nothing where it matches.
pub open spec fn column_change(
    table: Name,
    previous: Seq<ColumnView>,
    column: ColumnView,
    features: MigrationFeatures,
) -> Seq<DiffStepView> {
    match find_column(previous, column.name) {
        None => seq![DiffStepView::AddColumn { table, column }],
        Some(k) => if columns_match(previous[k], column, features) {
            Seq::empty()
        } else {
            seq![DiffStepView::AlterColumn { table, previous: previous[k], next: column }]
        },
    }
}

/// The additions and alterations for the first `n` columns of `next`.
pub open spec fn column_changes_in(
    table: Name,
    previous: Seq<ColumnView>,
    next: Seq<ColumnView>,
    features: MigrationFeatures,
    n: nat,
) -> Seq<DiffStepView> {
    concat_prefix(|j: int| column_change(table, previous, next[j], features), n)
}

/// The column steps for one table of the new schema: none where the table is new; one rebuild
/// where the change cannot be made in place; else the column drops, then the additions and
/// alterations.
pub open spec fn column_changes_of(
    from: Seq<TableView>,
    next: TableView,
    features: MigrationFeatures,
) -> Seq<DiffStepView> {
    match find_table(from, next.name) {
        None => Seq::empty(),
        Some(k) => if needs_redefine(from[k], next, features) {
            seq![DiffStepView::RedefineTable { previous: from[k], next }]
        } else {
            column_drops_in(next.name, from[k].columns, next.columns, from[k].columns.len())
                + column_changes_in(
                next.name,
                from[k].columns,
                next.columns,
                features,
                next.columns.len(),
            )
        },
    }
}

/// The column steps for the first `n` tables of the new schema.
pub open spec fn column_changes(
    from: Seq<TableView>,
    to: Seq<TableView>,
    features: MigrationFeatures,
    n: nat,
) -> Seq<DiffStepView> {
    concat_prefix(|i: int| column_changes_of(from, to[i], features), n)
}

/// Creations of the indexes among the first `n` of `created` that `existing` lacks.
pub open spec fn index_creations_in(
    table: Name,
    created: Seq<IndexView>,
    existing: Seq<IndexView>,
    n: nat,
) -> Seq<DiffStepView> {
    concat_prefix(
        |j: int|
            if existing.contains(created[j]) {
                Seq::empty()
            } else {
                seq![DiffStepView::CreateIndex { table, index: created[j] }]
            },
        n,
    )
}

/// The index creations for one table of the new schema: all its indexes where the table is
/// new, none where it is rebuilt, else the indexes that its old definition lacks.
pub open spec fn index_creations_of(
    from: Seq<TableView>,
    next: TableView,
    features: MigrationFeatures,
) -> Seq<DiffStepView> {
    match find_table(from, next.name) {
        None => index_creations_in(next.name, next.indexes, Seq::empty(), next.indexes.len()),
        Some(k) => if needs_redefine(from[k], next, features) {
            Seq::empty()
        } else {
            index_creations_in(next.name, next.indexes, from[k].indexes, next.indexes.len())
        },
    }
}

/// The index creations for the first `n` tables of the new schema.
pub open spec fn index_creations(
    from: Seq<TableView>,
    to: Seq<TableView>,
    features: MigrationFeatures,
    n: nat,
) -> Seq<DiffStepView> {
    concat_prefix(|i: int| index_creations_of(from, to[i], features), n)
}

/// Additions of the foreign keys among the first `n` of `added` that `existing` lacks.
pub open spec fn foreign_key_additions_in(
    table: Name,
    added: Seq<ForeignKeyView>,
    existing: Seq<ForeignKeyView>,
    n: nat,
) -> Seq<DiffStepView> {
    concat_prefix(
        |j: int|
            if existing.contains(added[j]) {
                Seq::empty()
            } else {
                seq![DiffStepView::AddForeignKey { table, foreign_key: added[j] }]
            },
        n,
    )
}

/// The foreign-key additions for one table of the new schema: where the table is new, all its
/// foreign keys if the backend can add them to an existing table (else its creation carries
/// them); none where it is rebuilt; else the foreign keys that its old definition lacks.
pub open spec fn foreign_key_additions_of(
    from: Seq<TableView>,
    next: TableView,
    features: MigrationFeatures,
) -> Seq<DiffStepView> {
    match find_table(from, next.name) {
        None => if features.foreign_key_alter {
            foreign_key_additions_in(
                next.name,
                next.foreign_keys,
                Seq::empty(),
                next.foreign_keys.len(),
            )
        } else {
            Seq::empty()
        },
        Some(k) => if needs_redefine(from[k], next, features) {
            Seq::empty()
        } else {
            foreign_key_additions_in(
                next.name,
                next.foreign_keys,
                from[k].foreign_keys,
                next.foreign_keys.len(),
            )
        },
    }
}

/// The foreign-key additions for the first `n` tables of the new schema.
pub open spec fn foreign_key_additions(
    from: Seq<TableView>,
    to: Seq<TableView>,
    features: MigrationFeatures,
    n: nat,
) -> Seq<DiffStepView> {
    concat_prefix(|i: int| foreign_key_additions_of(from, to[i], features), n)
}

/// Whether a table holds a foreign key to another table that the new schema lacks.
pub open spec fn references_dropped(table: TableView, to: Seq<TableView>) -> bool {
    exists|j: int|
        0 <= j < table.foreign_keys.len() && (#[trigger] table.foreign_keys[j]).referenced_table
            != table.name && find_table(to, table.foreign_keys[j].referenced_table) is None
}

/// A table's definition without its foreign keys.
pub open spec fn without_foreign_keys(table: TableView) -> TableView {
    TableView {
        name: table.name,
        columns: table.columns,
        primary_key: table.primary_key,
        indexes: table.indexes,
        foreign_keys: Seq::empty(),
    }
}

/// The rebuild that frees a table of its foreign keys before it is dropped. A table that goes
/// is rebuilt without its keys where it holds a key to another table that goes and the
/// backend cannot drop foreign keys: the tables can then be dropped in any order.
pub open spec fn key_rebuild_of(
    previous: TableView,
    to: Seq<TableView>,
    features: MigrationFeatures,
) -> Seq<DiffStepView> {
    if find_table(to, previous.name) is None && !features.foreign_key_alter && references_dropped(
        previous,
        to,
    ) {
        seq![DiffStepView::RedefineTable { previous, next: without_foreign_keys(previous) }]
    } else {
        Seq::empty()
    }
}

/// The key-freeing rebuilds for the first `n` tables of the old schema.
pub open spec fn key_rebuilds(
    from: Seq<TableView>,
    to: Seq<TableView>,
    features: MigrationFeatures,
    n: nat,
) -> Seq<DiffStepView> {
    concat_prefix(|i: int| key_rebuild_of(from[i], to, features), n)
}

/// The steps that change tables: the column steps and rebuilds of the tables that stay, then
/// the key-freeing rebuilds of tables that go.
pub open spec fn table_changes(
    from: Seq<TableView>,
    to: Seq<TableView>,
    features: MigrationFeatures,
) -> Seq<DiffStepView> {
    column_changes(from, to, features, to.len()) + key_rebuilds(from, to, features, from.len())
}

/// The plan that turns `from` into `to` on a backend with `features`. Its steps come in seven
/// passes: foreign-key drops, index drops, table creations, column steps and rebuilds, table
/// drops, index creations, foreign-key additions. So no table is dropped before the keys to
/// it are gone, and no key is added before the table it refers to is there.
pub open spec fn spec_diff(
    from: SqlSchemaView,
    to: SqlSchemaView,
    features: MigrationFeatures,
) -> Seq<DiffStepView> {
    foreign_key_drops(from.tables, to.tables, features, from.tables.len()) + index_drops(
        from.tables,
        to.tables,
        features,
        from.tables.len(),
    ) + table_creations(from.tables, to.tables, features, to.tables.len()) + table_changes(
        from.tables,
        to.tables,
        features,
    ) + table_drops(from.tables, to.tables, from.tables.len()) + index_creations(
        from.tables,
        to.tables,
        features,
        to.tables.len(),
    ) + foreign_key_additions(from.tables, to.tables, features, to.tables.len())
}


/// The view of an extended list is the extended view.
pub proof fn lemma_seq_view_push<T: View>(s: Seq<T>, x: T)
    ensures
        seq_view(s.push(x)) == seq_view(s).push(x@),
{
    assert(seq_view(s.push(x)) =~= seq_view(s).push(x@));
}

/// The position of the first table called `name`, if any.
pub fn find_table_index(tables: &Vec<Table>, name: &String) -> (found: Option<usize>)
    ensures
        match found {
            Some(i) => i < tables.len() && find_table(seq_view(tables@), name@) == Some(i as int),
            None => find_table(seq_view(tables@), name@) is None,
        },
{
    let ghost names = table_names(seq_view(tables@));
    let mut i: usize = 0;
    while i < tables.len()
        invariant
            0 <= i <= tables.len(),
            names == table_names(seq_view(tables@)),
            forall|j: int| 0 <= j < i ==> names[j] != name@,
        decreases tables.len() - i,
    {
        if tables[i].name == *name {
            proof {
                assert(names[i as int] == name@);
                names.index_of_first_ensures(name@);
            }
            return Some(i);
        }
        i += 1;
    }
    proof {
        names.index_of_first_ensures(name@);
    }
    None
}

/// The position of the first column called `name`, if any.
pub fn find_column_index(columns: &Vec<Column>, name: &String) -> (found: Option<usize>)
    ensures
        match found {
            Some(i) => i < columns.len() && find_column(seq_view(columns@), name@) == Some(
                i as int,
            ),
            None => find_column(seq_view(columns@), name@) is None,
        },
{
    let ghost names = column_names(seq_view(columns@));
    let mut i: usize = 0;
    while i < columns.len()
        invariant
            0 <= i <= columns.len(),
            names == column_names(seq_view(columns@)),
            forall|j: int| 0 <= j < i ==> names[j] != name@,
        decreases columns.len() - i,
    {
        if columns[i].name == *name {
            proof {
                assert(names[i as int] == name@);
                names.index_of_first_ensures(name@);
            }
            return Some(i);
        }
        i += 1;
    }
    proof {
        names.index_of_first_ensures(name@);
    }
    None
}

/// Whether `index` occurs in `indexes`.
pub fn contains_index(indexes: &Vec<Index>, index: &Index) -> (found: bool)
    ensures
        found == seq_view(indexes@).contains(index@),
{
    let mut i: usize = 0;
    while i < indexes.len()
        invariant
            0 <= i <= indexes.len(),
            forall|j: int| 0 <= j < i ==> seq_view(indexes@)[j] != index@,
        decreases indexes.len() - i,
    {
        if indexes[i].same_as(index) {
            assert(seq_view(indexes@)[i as int] == index@);
            return true;
        }
        i += 1;
    }
    false
}

/// Whether `foreign_key` occurs in `foreign_keys`.
pub fn contains_foreign_key(foreign_keys: &Vec<ForeignKey>, foreign_key: &ForeignKey) -> (found:
    bool)
    ensures
        found == seq_view(foreign_keys@).contains(foreign_key@),
{
    let mut i: usize = 0;
    while i < foreign_keys.len()
        invariant
            0 <= i <= foreign_keys.len(),
            forall|j: int| 0 <= j < i ==> seq_view(foreign_keys@)[j] != foreign_key@,
        decreases foreign_keys.len() - i,
    {
        if foreign_keys[i].same_as(foreign_key) {
            assert(seq_view(foreign_keys@)[i as int] == foreign_key@);
            return true;
        }
        i += 1;
    }
    false
}

/// Whether every foreign key of `a` occurs in `b`.
pub fn foreign_keys_all_in(a: &Vec<ForeignKey>, b: &Vec<ForeignKey>) -> (all: bool)
    ensures
        all == all_in(seq_view(a@), seq_view(b@)),
{
    let mut i: usize = 0;
    while i < a.len()
        invariant
            0 <= i <= a.len(),
            forall|j: int| 0 <= j < i ==> seq_view(b@).contains(#[trigger] seq_view(a@)[j]),
        decreases a.len() - i,
    {
        if !contains_foreign_key(b, &a[i]) {
            assert(!seq_view(b@).contains(seq_view(a@)[i as int]));
            return false;
        }
        i += 1;
    }
    true
}

/// The type as the backend stores it.
pub fn normalize_type(tpe: ColumnType, features: MigrationFeatures) -> (stored: ColumnType)
    ensures
        stored == normalized_type(tpe, features),
{
    let boolean_as_integer = tpe.family == ColumnTypeFamily::Boolean && !features.native_boolean;
    let family = if boolean_as_integer {
        ColumnTypeFamily::SmallInt
    } else {
        tpe.family
    };
    let size = if !features.sized_types {
        None
    } else if boolean_as_integer {
        Some(1u32)
    } else {
        tpe.size
    };
    ColumnType { family, size }
}

/// Whether two defaults are equal as the backend stores them.
pub fn defaults_match(
    a: &Option<DefaultValue>,
    b: &Option<DefaultValue>,
    features: MigrationFeatures,
) -> (same: bool)
    ensures
        same == (normalized_default(crate::schema::default_view(*a), features)
            == normalized_default(crate::schema::default_view(*b), features)),
{
    match (a, b) {
        (None, None) => true,
        (Some(x), Some(y)) => match (x, y) {
            (DefaultValue::Int(m), DefaultValue::Int(n)) => *m == *n,
            (DefaultValue::Bool(p), DefaultValue::Bool(q)) => *p == *q,
            (DefaultValue::Text(s), DefaultValue::Text(t)) => *s == *t,
            (DefaultValue::Now, DefaultValue::Now) => true,
            (DefaultValue::Autoincrement, DefaultValue::Autoincrement) => true,
            (DefaultValue::Bool(p), DefaultValue::Int(n)) => !features.native_boolean && *n == (
            if *p {
                1i64
            } else {
                0i64
            }),
            (DefaultValue::Int(n), DefaultValue::Bool(p)) => !features.native_boolean && *n == (
            if *p {
                1i64
            } else {
                0i64
            }),
            _ => false,
        },
        _ => false,
    }
}

/// Whether two columns are the same column to the backend.
pub fn columns_match_exec(a: &Column, b: &Column, features: MigrationFeatures) -> (same: bool)
    ensures
        same == columns_match(a@, b@, features),
{
    a.name == b.name && a.nullable == b.nullable && normalize_type(a.tpe, features).same_as(
        &normalize_type(b.tpe, features),
    ) && defaults_match(&a.default, &b.default, features)
}

/// Whether `previous` has a column whose name no column of `next` bears.
pub fn table_drops_column(previous: &Table, next: &Table) -> (drops: bool)
    ensures
        drops == drops_column(previous@, next@),
{
    let mut j: usize = 0;
    while j < previous.columns.len()
        invariant
            0 <= j <= previous.columns.len(),
            forall|k: int|
                0 <= k < j ==> column_names(next@.columns).contains(
                    #[trigger] previous@.columns[k].name,
                ),
        decreases previous.columns.len() - j,
    {
        let found = find_column_index(&next.columns, &previous.columns[j].name);
        proof {
            column_names(next@.columns).index_of_first_ensures(previous@.columns[j as int].name);
        }
        if found.is_none() {
            return true;
        }
        j += 1;
    }
    false
}

/// Whether some column of `next` alters a column of `previous`.
pub fn table_alters_column(previous: &Table, next: &Table, features: MigrationFeatures) -> (alters:
    bool)
    ensures
        alters == alters_column(previous@, next@, features),
{
    let mut j: usize = 0;
    while j < next.columns.len()
        invariant
            0 <= j <= next.columns.len(),
            forall|k: int|
                0 <= k < j ==> !column_altered(
                    previous@.columns,
                    #[trigger] next@.columns[k],
                    features,
                ),
        decreases next.columns.len() - j,
    {
        match find_column_index(&previous.columns, &next.columns[j].name) {
            Some(k) => {
                if !columns_match_exec(&previous.columns[k], &next.columns[j], features) {
                    assert(column_altered(previous@.columns, next@.columns[j as int], features));
                    return true;
                }
            },
            None => {},
        }
        j += 1;
    }
    false
}

/// Whether the change from `previous` to `next` needs the table rebuilt.
pub fn table_needs_redefine(previous: &Table, next: &Table, features: MigrationFeatures) -> (rebuild:
    bool)
    ensures
        rebuild == needs_redefine(previous@, next@, features),
{
    if !crate::schema::names_eq(&previous.primary_key, &next.primary_key) {
        return true;
    }
    if !features.column_drop && table_drops_column(previous, next) {
        return true;
    }
    if !features.column_alter && table_alters_column(previous, next, features) {
        return true;
    }
    if !features.foreign_key_alter {
        let same = foreign_keys_all_in(&previous.foreign_keys, &next.foreign_keys)
            && foreign_keys_all_in(&next.foreign_keys, &previous.foreign_keys);
        return !same;
    }
    false
}


fn push_foreign_key_drops_in(
    table: &String,
    dropped: &Vec<ForeignKey>,
    kept: &Vec<ForeignKey>,
    steps: &mut Vec<DiffStep>,
)
    ensures
        seq_view(final(steps)@) == seq_view(old(steps)@) + foreign_key_drops_in(
            table@,
            seq_view(dropped@),
            seq_view(kept@),
            dropped@.len(),
        ),
{
    let ghost base = seq_view(steps@);
    let mut j: usize = 0;
    assert(seq_view(steps@) =~= base + Seq::<DiffStepView>::empty());
    while j < dropped.len()
        invariant
            0 <= j <= dropped.len(),
            seq_view(steps@) == base + foreign_key_drops_in(
                table@,
                seq_view(dropped@),
                seq_view(kept@),
                j as nat,
            ),
        decreases dropped.len() - j,
    {
        let ghost before = seq_view(steps@);
        let ghost done = foreign_key_drops_in(
            table@,
            seq_view(dropped@),
            seq_view(kept@),
            j as nat,
        );
        if !contains_foreign_key(kept, &dropped[j]) {
            let step = DiffStep::DropForeignKey {
                table: table.clone(),
                foreign_key: dropped[j].clone(),
            };
            proof {
                lemma_seq_view_push(steps@, step);
            }
            steps.push(step);
            assert(seq_view(steps@) =~= base + (done + seq![
                DiffStepView::DropForeignKey {
                    table: table@,
                    foreign_key: seq_view(dropped@)[j as int],
                },
            ]));
        } else {
            assert(seq_view(steps@) =~= base + (done + Seq::<DiffStepView>::empty()));
        }
        j += 1;
    }
}

fn push_foreign_key_drops_of(
    previous: &Table,
    to: &SqlSchema,
    features: MigrationFeatures,
    steps: &mut Vec<DiffStep>,
)
    ensures
        seq_view(final(steps)@) == seq_view(old(steps)@) + foreign_key_drops_of(
            previous@,
            to@.tables,
            features,
        ),
{
    match find_table_index(&to.tables, &previous.name) {
        Some(k) => {
            if !features.foreign_key_alter && table_needs_redefine(
                previous,
                &to.tables[k],
                features,
            ) {
                assert(seq_view(steps@) =~= seq_view(steps@) + Seq::<DiffStepView>::empty());
            } else {
                push_foreign_key_drops_in(
                    &previous.name,
                    &previous.foreign_keys,
                    &to.tables[k].foreign_keys,
                    steps,
                );
            }
        },
        None => {
            if features.foreign_key_alter {
                let none: Vec<ForeignKey> = Vec::new();
                assert(seq_view(none@) =~= Seq::<ForeignKeyView>::empty());
                push_foreign_key_drops_in(&previous.name, &previous.foreign_keys, &none, steps);
            } else {
                assert(seq_view(steps@) =~= seq_view(steps@) + Seq::<DiffStepView>::empty());
            }
        },
    }
}

fn push_foreign_key_drops(
    from: &SqlSchema,
    to: &SqlSchema,
    features: MigrationFeatures,
    steps: &mut Vec<DiffStep>,
)
    ensures
        seq_view(final(steps)@) == seq_view(old(steps)@) + foreign_key_drops(
            from@.tables,
            to@.tables,
            features,
            from@.tables.len(),
        ),
{
    let ghost base = seq_view(steps@);
    let mut i: usize = 0;
    assert(seq_view(steps@) =~= base + Seq::<DiffStepView>::empty());
    while i < from.tables.len()
        invariant
            0 <= i <= from.tables.len(),
            seq_view(steps@) == base + foreign_key_drops(
                from@.tables,
                to@.tables,
                features,
                i as nat,
            ),
        decreases from.tables.len() - i,
    {
        let ghost done = foreign_key_drops(from@.tables, to@.tables, features, i as nat);
        push_foreign_key_drops_of(&from.tables[i], to, features, steps);
        assert(seq_view(steps@) =~= base + (done + foreign_key_drops_of(
            from@.tables[i as int],
            to@.tables,
            features,
        )));
        i += 1;
    }
}


fn push_index_drops_in(
    table: &String,
    dropped: &Vec<Index>,
    kept: &Vec<Index>,
    steps: &mut Vec<DiffStep>,
)
    ensures
        seq_view(final(steps)@) == seq_view(old(steps)@) + index_drops_in(
            table@,
            seq_view(dropped@),
            seq_view(kept@),
            dropped@.len(),
        ),
{
    let ghost base = seq_view(steps@);
    let mut j: usize = 0;
    assert(seq_view(steps@) =~= base + Seq::<DiffStepView>::empty());
    while j < dropped.len()
        invariant
            0 <= j <= dropped.len(),
            seq_view(steps@) == base + index_drops_in(
                table@,
                seq_view(dropped@),
                seq_view(kept@),
                j as nat,
            ),
        decreases dropped.len() - j,
    {
        let ghost done = index_drops_in(table@, seq_view(dropped@), seq_view(kept@), j as nat);
        if !contains_index(kept, &dropped[j]) {
            let step = DiffStep::DropIndex { table: table.clone(), index: dropped[j].name.clone() };
            proof {
                lemma_seq_view_push(steps@, step);
            }
            steps.push(step);
            assert(seq_view(steps@) =~= base + (done + seq![
                DiffStepView::DropIndex { table: table@, index: seq_view(dropped@)[j as int].name },
            ]));
        } else {
            assert(seq_view(steps@) =~= base + (done + Seq::<DiffStepView>::empty()));
        }
        j += 1;
    }
}

fn push_index_drops_of(
    previous: &Table,
    to: &SqlSchema,
    features: MigrationFeatures,
    steps: &mut Vec<DiffStep>,
)
    ensures
        seq_view(final(steps)@) == seq_view(old(steps)@) + index_drops_of(
            previous@,
            to@.tables,
            features,
        ),
{
    match find_table_index(&to.tables, &previous.name) {
        Some(k) => {
            if table_needs_redefine(previous, &to.tables[k], features) {
                assert(seq_view(steps@) =~= seq_view(steps@) + Seq::<DiffStepView>::empty());
            } else {
                push_index_drops_in(
                    &previous.name,
                    &previous.indexes,
                    &to.tables[k].indexes,
                    steps,
                );
            }
        },
        None => {
            assert(seq_view(steps@) =~= seq_view(steps@) + Seq::<DiffStepView>::empty());
        },
    }
}

fn push_index_drops(
    from: &SqlSchema,
    to: &SqlSchema,
    features: MigrationFeatures,
    steps: &mut Vec<DiffStep>,
)
    ensures
        seq_view(final(steps)@) == seq_view(old(steps)@) + index_drops(
            from@.tables,
            to@.tables,
            features,
            from@.tables.len(),
        ),
{
    let ghost base = seq_view(steps@);
    let mut i: usize = 0;
    assert(seq_view(steps@) =~= base + Seq::<DiffStepView>::empty());
    while i < from.tables.len()
        invariant
            0 <= i <= from.tables.len(),
            seq_view(steps@) == base + index_drops(from@.tables, to@.tables, features, i as nat),
        decreases from.tables.len() - i,
    {
        let ghost done = index_drops(from@.tables, to@.tables, features, i as nat);
        push_index_drops_of(&from.tables[i], to, features, steps);
        assert(seq_view(steps@) =~= base + (done + index_drops_of(
            from@.tables[i as int],
            to@.tables,
            features,
        )));
        i += 1;
    }
}

fn push_table_drops(from: &SqlSchema, to: &SqlSchema, steps: &mut Vec<DiffStep>)
    ensures
        seq_view(final(steps)@) == seq_view(old(steps)@) + table_drops(
            from@.tables,
            to@.tables,
            from@.tables.len(),
        ),
{
    let ghost base = seq_view(steps@);
    let mut i: usize = 0;
    assert(seq_view(steps@) =~= base + Seq::<DiffStepView>::empty());
    while i < from.tables.len()
        invariant
            0 <= i <= from.tables.len(),
            seq_view(steps@) == base + table_drops(from@.tables, to@.tables, i as nat),
        decreases from.tables.len() - i,
    {
        let ghost done = table_drops(from@.tables, to@.tables, i as nat);
        if find_table_index(&to.tables, &from.tables[i].name).is_none() {
            let step = DiffStep::DropTable { table: from.tables[i].name.clone() };
            proof {
                lemma_seq_view_push(steps@, step);
            }
            steps.push(step);
            assert(seq_view(steps@) =~= base + (done + seq![
                DiffStepView::DropTable { table: from@.tables[i as int].name },
            ]));
        } else {
            assert(seq_view(steps@) =~= base + (done + Seq::<DiffStepView>::empty()));
        }
        i += 1;
    }
}

/// The definition under which `next` is created on a backend with `features`.
pub fn table_to_create(next: &Table, features: MigrationFeatures) -> (table: Table)
    ensures
        table@ == created_table(next@, features),
{
    let foreign_keys = if features.foreign_key_alter {
        Vec::new()
    } else {
        crate::schema::foreign_keys_clone(&next.foreign_keys)
    };
    let indexes: Vec<Index> = Vec::new();
    assert(seq_view(indexes@) =~= Seq::<IndexView>::empty());
    assert(features.foreign_key_alter ==> seq_view(foreign_keys@) =~= Seq::<
        ForeignKeyView,
    >::empty());
    Table {
        name: next.name.clone(),
        columns: crate::schema::columns_clone(&next.columns),
        primary_key: crate::schema::names_clone(&next.primary_key),
        indexes,
        foreign_keys,
    }
}

fn push_table_creations(
    from: &SqlSchema,
    to: &SqlSchema,
    features: MigrationFeatures,
    steps: &mut Vec<DiffStep>,
)
    ensures
        seq_view(final(steps)@) == seq_view(old(steps)@) + table_creations(
            from@.tables,
            to@.tables,
            features,
            to@.tables.len(),
        ),
{
    let ghost base = seq_view(steps@);
    let mut i: usize = 0;
    assert(seq_view(steps@) =~= base + Seq::<DiffStepView>::empty());
    while i < to.tables.len()
        invariant
            0 <= i <= to.tables.len(),
            seq_view(steps@) == base + table_creations(
                from@.tables,
                to@.tables,
                features,
                i as nat,
            ),
        decreases to.tables.len() - i,
    {
        let ghost done = table_creations(from@.tables, to@.tables, features, i as nat);
        if find_table_index(&from.tables, &to.tables[i].name).is_none() {
            let step = DiffStep::CreateTable { table: table_to_create(&to.tables[i], features) };
            proof {
                lemma_seq_view_push(steps@, step);
            }
            steps.push(step);
            assert(seq_view(steps@) =~= base + (done + seq![
                DiffStepView::CreateTable {
                    table: created_table(to@.tables[i as int], features),
                },
            ]));
        } else {
            assert(seq_view(steps@) =~= base + (done + Seq::<DiffStepView>::empty()));
        }
        i += 1;
    }
}

fn push_column_drops_in(
    table: &String,
    previous: &Vec<Column>,
    next: &Vec<Column>,
    steps: &mut Vec<DiffStep>,
)
    ensures
        seq_view(final(steps)@) == seq_view(old(steps)@) + column_drops_in(
            table@,
            seq_view(previous@),
            seq_view(next@),
            previous@.len(),
        ),
{
    let ghost base = seq_view(steps@);
    let mut j: usize = 0;
    assert(seq_view(steps@) =~= base + Seq::<DiffStepView>::empty());
    while j < previous.len()
        invariant
            0 <= j <= previous.len(),
            seq_view(steps@) == base + column_drops_in(
                table@,
                seq_view(previous@),
                seq_view(next@),
                j as nat,
            ),
        decreases previous.len() - j,
    {
        let ghost done = column_drops_in(table@, seq_view(previous@), seq_view(next@), j as nat);
        let found = find_column_index(next, &previous[j].name);
        proof {
            column_names(seq_view(next@)).index_of_first_ensures(
                seq_view(previous@)[j as int].name,
            );
        }
        if found.is_none() {
            let step = DiffStep::DropColumn {
                table: table.clone(),
                column: previous[j].name.clone(),
            };
            proof {
                lemma_seq_view_push(steps@, step);
            }
            steps.push(step);
            assert(seq_view(steps@) =~= base + (done + seq![
                DiffStepView::DropColumn {
                    table: table@,
                    column: seq_view(previous@)[j as int].name,
                },
            ]));
        } else {
            assert(seq_view(steps@) =~= base + (done + Seq::<DiffStepView>::empty()));
        }
        j += 1;
    }
}

fn push_column_changes_in(
    table: &String,
    previous: &Vec<Column>,
    next: &Vec<Column>,
    features: MigrationFeatures,
    steps: &mut Vec<DiffStep>,
)
    ensures
        seq_view(final(steps)@) == seq_view(old(steps)@) + column_changes_in(
            table@,
            seq_view(previous@),
            seq_view(next@),
            features,
            next@.len(),
        ),
{
    let ghost base = seq_view(steps@);
    let mut j: usize = 0;
    assert(seq_view(steps@) =~= base + Seq::<DiffStepView>::empty());
    while j < next.len()
        invariant
            0 <= j <= next.len(),
            seq_view(steps@) == base + column_changes_in(
                table@,
                seq_view(previous@),
                seq_view(next@),
                features,
                j as nat,
            ),
        decreases next.len() - j,
    {
        let ghost done = column_changes_in(
            table@,
            seq_view(previous@),
            seq_view(next@),
            features,
            j as nat,
        );
        let ghost change = column_change(
            table@,
            seq_view(previous@),
            seq_view(next@)[j as int],
            features,
        );
        match find_column_index(previous, &next[j].name) {
            None => {
                let step = DiffStep::AddColumn { table: table.clone(), column: next[j].clone() };
                proof {
                    lemma_seq_view_push(steps@, step);
                }
                steps.push(step);
                assert(seq_view(steps@) =~= base + (done + change));
            },
            Some(k) => {
                if columns_match_exec(&previous[k], &next[j], features) {
                    assert(seq_view(steps@) =~= base + (done + change));
                } else {
                    let step = DiffStep::AlterColumn {
                        table: table.clone(),
                        previous: previous[k].clone(),
                        next: next[j].clone(),
                    };
                    proof {
                        lemma_seq_view_push(steps@, step);
                    }
                    steps.push(step);
                    assert(seq_view(steps@) =~= base + (done + change));
                }
            },
        }
        j += 1;
    }
}

fn push_column_changes_of(
    from: &SqlSchema,
    next: &Table,
    features: MigrationFeatures,
    steps: &mut Vec<DiffStep>,
)
    ensures
        seq_view(final(steps)@) == seq_view(old(steps)@) + column_changes_of(
            from@.tables,
            next@,
            features,
        ),
{
    let ghost base = seq_view(steps@);
    match find_table_index(&from.tables, &next.name) {
        None => {
            assert(seq_view(steps@) =~= base + Seq::<DiffStepView>::empty());
        },
        Some(k) => {
            let previous = &from.tables[k];
            if table_needs_redefine(previous, next, features) {
                let step = DiffStep::RedefineTable { previous: previous.clone(), next: next.clone() };
                proof {
                    lemma_seq_view_push(steps@, step);
                }
                steps.push(step);
                assert(seq_view(steps@) =~= base + seq![
                    DiffStepView::RedefineTable { previous: previous@, next: next@ },
                ]);
            } else {
                push_column_drops_in(&next.name, &previous.columns, &next.columns, steps);
                push_column_changes_in(
                    &next.name,
                    &previous.columns,
                    &next.columns,
                    features,
                    steps,
                );
                assert(seq_view(steps@) =~= base + (column_drops_in(
                    next@.name,
                    previous@.columns,
                    next@.columns,
                    previous@.columns.len(),
                ) + column_changes_in(
                    next@.name,
                    previous@.columns,
                    next@.columns,
                    features,
                    next@.columns.len(),
                )));
            }
        },
    }
}

fn push_column_changes(
    from: &SqlSchema,
    to: &SqlSchema,
    features: MigrationFeatures,
    steps: &mut Vec<DiffStep>,
)
    ensures
        seq_view(final(steps)@) == seq_view(old(steps)@) + column_changes(
            from@.tables,
            to@.tables,
            features,
            to@.tables.len(),
        ),
{
    let ghost base = seq_view(steps@);
    let mut i: usize = 0;
    assert(seq_view(steps@) =~= base + Seq::<DiffStepView>::empty());
    while i < to.tables.len()
        invariant
            0 <= i <= to.tables.len(),
            seq_view(steps@) == base + column_changes(from@.tables, to@.tables, features, i as nat),
        decreases to.tables.len() - i,
    {
        let ghost done = column_changes(from@.tables, to@.tables, features, i as nat);
        push_column_changes_of(from, &to.tables[i], features, steps);
        assert(seq_view(steps@) =~= base + (done + column_changes_of(
            from@.tables,
            to@.tables[i as int],
            features,
        )));
        i += 1;
    }
}


fn push_index_creations_in(
    table: &String,
    created: &Vec<Index>,
    existing: &Vec<Index>,
    steps: &mut Vec<DiffStep>,
)
    ensures
        seq_view(final(steps)@) == seq_view(old(steps)@) + index_creations_in(
            table@,
            seq_view(created@),
            seq_view(existing@),
            created@.len(),
        ),
{
    let ghost base = seq_view(steps@);
    let mut j: usize = 0;
    assert(seq_view(steps@) =~= base + Seq::<DiffStepView>::empty());
    while j < created.len()
        invariant
            0 <= j <= created.len(),
            seq_view(steps@) == base + index_creations_in(
                table@,
                seq_view(created@),
                seq_view(existing@),
                j as nat,
            ),
        decreases created.len() - j,
    {
        let ghost done = index_creations_in(
            table@,
            seq_view(created@),
            seq_view(existing@),
            j as nat,
        );
        if !contains_index(existing, &created[j]) {
            let step = DiffStep::CreateIndex { table: table.clone(), index: created[j].clone() };
            proof {
                lemma_seq_view_push(steps@, step);
            }
            steps.push(step);
            assert(seq_view(steps@) =~= base + (done + seq![
                DiffStepView::CreateIndex { table: table@, index: seq_view(created@)[j as int] },
            ]));
        } else {
            assert(seq_view(steps@) =~= base + (done + Seq::<DiffStepView>::empty()));
        }
        j += 1;
    }
}

fn push_index_creations_of(
    from: &SqlSchema,
    next: &Table,
    features: MigrationFeatures,
    steps: &mut Vec<DiffStep>,
)
    ensures
        seq_view(final(steps)@) == seq_view(old(steps)@) + index_creations_of(
            from@.tables,
            next@,
            features,
        ),
{
    match find_table_index(&from.tables, &next.name) {
        None => {
            let none: Vec<Index> = Vec::new();
            assert(seq_view(none@) =~= Seq::<IndexView>::empty());
            push_index_creations_in(&next.name, &next.indexes, &none, steps);
        },
        Some(k) => {
            if table_needs_redefine(&from.tables[k], next, features) {
                assert(seq_view(steps@) =~= seq_view(steps@) + Seq::<DiffStepView>::empty());
            } else {
                push_index_creations_in(&next.name, &next.indexes, &from.tables[k].indexes, steps);
            }
        },
    }
}

fn push_index_creations(
    from: &SqlSchema,
    to: &SqlSchema,
    features: MigrationFeatures,
    steps: &mut Vec<DiffStep>,
)
    ensures
        seq_view(final(steps)@) == seq_view(old(steps)@) + index_creations(
            from@.tables,
            to@.tables,
            features,
            to@.tables.len(),
        ),
{
    let ghost base = seq_view(steps@);
    let mut i: usize = 0;
    assert(seq_view(steps@) =~= base + Seq::<DiffStepView>::empty());
    while i < to.tables.len()
        invariant
            0 <= i <= to.tables.len(),
            seq_view(steps@) == base + index_creations(
                from@.tables,
                to@.tables,
                features,
                i as nat,
            ),
        decreases to.tables.len() - i,
    {
        let ghost done = index_creations(from@.tables, to@.tables, features, i as nat);
        push_index_creations_of(from, &to.tables[i], features, steps);
        assert(seq_view(steps@) =~= base + (done + index_creations_of(
            from@.tables,
            to@.tables[i as int],
            features,
        )));
        i += 1;
    }
}

fn push_foreign_key_additions_in(
    table: &String,
    added: &Vec<ForeignKey>,
    existing: &Vec<ForeignKey>,
    steps: &mut Vec<DiffStep>,
)
    ensures
        seq_view(final(steps)@) == seq_view(old(steps)@) + foreign_key_additions_in(
            table@,
            seq_view(added@),
            seq_view(existing@),
            added@.len(),
        ),
{
    let ghost base = seq_view(steps@);
    let mut j: usize = 0;
    assert(seq_view(steps@) =~= base + Seq::<DiffStepView>::empty());
    while j < added.len()
        invariant
            0 <= j <= added.len(),
            seq_view(steps@) == base + foreign_key_additions_in(
                table@,
                seq_view(added@),
                seq_view(existing@),
                j as nat,
            ),
        decreases added.len() - j,
    {
        let ghost done = foreign_key_additions_in(
            table@,
            seq_view(added@),
            seq_view(existing@),
            j as nat,
        );
        if !contains_foreign_key(existing, &added[j]) {
            let step = DiffStep::AddForeignKey {
                table: table.clone(),
                foreign_key: added[j].clone(),
            };
            proof {
                lemma_seq_view_push(steps@, step);
            }
            steps.push(step);
            assert(seq_view(steps@) =~= base + (done + seq![
                DiffStepView::AddForeignKey {
                    table: table@,
                    foreign_key: seq_view(added@)[j as int],
                },
            ]));
        } else {
            assert(seq_view(steps@) =~= base + (done + Seq::<DiffStepView>::empty()));
        }
        j += 1;
    }
}

fn push_foreign_key_additions_of(
    from: &SqlSchema,
    next: &Table,
    features: MigrationFeatures,
    steps: &mut Vec<DiffStep>,
)
    ensures
        seq_view(final(steps)@) == seq_view(old(steps)@) + foreign_key_additions_of(
            from@.tables,
            next@,
            features,
        ),
{
    match find_table_index(&from.tables, &next.name) {
        None => {
            if features.foreign_key_alter {
                let none: Vec<ForeignKey> = Vec::new();
                assert(seq_view(none@) =~= Seq::<ForeignKeyView>::empty());
                push_foreign_key_additions_in(&next.name, &next.foreign_keys, &none, steps);
            } else {
                assert(seq_view(steps@) =~= seq_view(steps@) + Seq::<DiffStepView>::empty());
            }
        },
        Some(k) => {
            if table_needs_redefine(&from.tables[k], next, features) {
                assert(seq_view(steps@) =~= seq_view(steps@) + Seq::<DiffStepView>::empty());
            } else {
                push_foreign_key_additions_in(
                    &next.name,
                    &next.foreign_keys,
                    &from.tables[k].foreign_keys,
                    steps,
                );
            }
        },
    }
}

fn push_foreign_key_additions(
    from: &SqlSchema,
    to: &SqlSchema,
    features: MigrationFeatures,
    steps: &mut Vec<DiffStep>,
)
    ensures
        seq_view(final(steps)@) == seq_view(old(steps)@) + foreign_key_additions(
            from@.tables,
            to@.tables,
            features,
            to@.tables.len(),
        ),
{
    let ghost base = seq_view(steps@);
    let mut i: usize = 0;
    assert(seq_view(steps@) =~= base + Seq::<DiffStepView>::empty());
    while i < to.tables.len()
        invariant
            0 <= i <= to.tables.len(),
            seq_view(steps@) == base + foreign_key_additions(
                from@.tables,
                to@.tables,
                features,
                i as nat,
            ),
        decreases to.tables.len() - i,
    {
        let ghost done = foreign_key_additions(from@.tables, to@.tables, features, i as nat);
        push_foreign_key_additions_of(from, &to.tables[i], features, steps);
        assert(seq_view(steps@) =~= base + (done + foreign_key_additions_of(
            from@.tables,
            to@.tables[i as int],
            features,
        )));
        i += 1;
    }
}

/// Whether a table holds a foreign key to another table that the new schema lacks.
pub fn table_references_dropped(table: &Table, to: &SqlSchema) -> (found: bool)
    ensures
        found == references_dropped(table@, to@.tables),
{
    let mut j: usize = 0;
    while j < table.foreign_keys.len()
        invariant
            0 <= j <= table.foreign_keys.len(),
            forall|x: int|
                0 <= x < j ==> !((#[trigger] table@.foreign_keys[x]).referenced_table
                    != table@.name && find_table(
                    to@.tables,
                    table@.foreign_keys[x].referenced_table,
                ) is None),
        decreases table.foreign_keys.len() - j,
    {
        let key = &table.foreign_keys[j];
        assert(key@ == table@.foreign_keys[j as int]);
        if key.referenced_table != table.name && find_table_index(
            &to.tables,
            &key.referenced_table,
        ).is_none() {
            return true;
        }
        j += 1;
    }
    false
}

/// A copy of a table's definition without its foreign keys.
pub fn table_without_foreign_keys(table: &Table) -> (bare: Table)
    ensures
        bare@ == without_foreign_keys(table@),
{
    let foreign_keys: Vec<ForeignKey> = Vec::new();
    assert(seq_view(foreign_keys@) =~= Seq::<ForeignKeyView>::empty());
    Table {
        name: table.name.clone(),
        columns: crate::schema::columns_clone(&table.columns),
        primary_key: crate::schema::names_clone(&table.primary_key),
        indexes: crate::schema::indexes_clone(&table.indexes),
        foreign_keys,
    }
}

fn push_key_rebuilds(
    from: &SqlSchema,
    to: &SqlSchema,
    features: MigrationFeatures,
    steps: &mut Vec<DiffStep>,
)
    ensures
        seq_view(final(steps)@) == seq_view(old(steps)@) + key_rebuilds(
            from@.tables,
            to@.tables,
            features,
            from@.tables.len(),
        ),
{
    let ghost base = seq_view(steps@);
    let mut i: usize = 0;
    assert(seq_view(steps@) =~= base + Seq::<DiffStepView>::empty());
    while i < from.tables.len()
        invariant
            0 <= i <= from.tables.len(),
            seq_view(steps@) == base + key_rebuilds(from@.tables, to@.tables, features, i as nat),
        decreases from.tables.len() - i,
    {
        let ghost done = key_rebuilds(from@.tables, to@.tables, features, i as nat);
        let ghost part = key_rebuild_of(from@.tables[i as int], to@.tables, features);
        let previous = &from.tables[i];
        if !features.foreign_key_alter && find_table_index(&to.tables, &previous.name).is_none()
            && table_references_dropped(previous, to) {
            let step = DiffStep::RedefineTable {
                previous: previous.clone(),
                next: table_without_foreign_keys(previous),
            };
            proof {
                lemma_seq_view_push(steps@, step);
            }
            steps.push(step);
            assert(seq_view(steps@) =~= base + (done + part));
        } else {
            assert(seq_view(steps@) =~= base + (done + part));
        }
        i += 1;
    }
}

/// Computes the ordered plan that turns a database in state `from` into one in state `to` on a
/// backend with the capabilities `features`.
pub fn diff(from: &SqlSchema, to: &SqlSchema, features: MigrationFeatures) -> (steps: Vec<
    DiffStep,
>)
    ensures
        seq_view(steps@) == spec_diff(from@, to@, features),
{
    let mut steps: Vec<DiffStep> = Vec::new();
    assert(seq_view(steps@) =~= Seq::<DiffStepView>::empty());
    push_foreign_key_drops(from, to, features, &mut steps);
    push_index_drops(from, to, features, &mut steps);
    push_table_creations(from, to, features, &mut steps);
    push_column_changes(from, to, features, &mut steps);
    push_key_rebuilds(from, to, features, &mut steps);
    push_table_drops(from, to, &mut steps);
    push_index_creations(from, to, features, &mut steps);
    push_foreign_key_additions(from, to, features, &mut steps);
    assert(seq_view(steps@) =~= spec_diff(from@, to@, features));
    steps
}


impl Clone for DiffStep {
    fn clone(&self) -> (copy: DiffStep)
        ensures
            copy@ == self@,
    {
        match self {
            DiffStep::CreateTable { table } => DiffStep::CreateTable { table: table.clone() },
            DiffStep::DropTable { table } => DiffStep::DropTable { table: table.clone() },
            DiffStep::AddColumn { table, column } => DiffStep::AddColumn {
                table: table.clone(),
                column: column.clone(),
            },
            DiffStep::DropColumn { table, column } => DiffStep::DropColumn {
                table: table.clone(),
                column: column.clone(),
            },
            DiffStep::AlterColumn { table, previous, next } => DiffStep::AlterColumn {
                table: table.clone(),
                previous: previous.clone(),
                next: next.clone(),
            },
            DiffStep::AddForeignKey { table, foreign_key } => DiffStep::AddForeignKey {
                table: table.clone(),
                foreign_key: foreign_key.clone(),
            },
            DiffStep::DropForeignKey { table, foreign_key } => DiffStep::DropForeignKey {
                table: table.clone(),
                foreign_key: foreign_key.clone(),
            },
            DiffStep::CreateIndex { table, index } => DiffStep::CreateIndex {
                table: table.clone(),
                index: index.clone(),
            },
            DiffStep::DropIndex { table, index } => DiffStep::DropIndex {
                table: table.clone(),
                index: index.clone(),
            },
            DiffStep::RedefineTable { previous, next } => DiffStep::RedefineTable {
                previous: previous.clone(),
                next: next.clone(),
            },
        }
    }
}

} // verus!
