//! A database's schema as a plan acts on it: tables by name, and in each table columns and
//! indexes by name and foreign keys as a set.
use crate::differ::{concat_prefix, find_column, find_table, DiffStepView};
use crate::schema::{
    column_names, index_names, table_names, ColumnView, ForeignKeyView, IndexView, Name,
    SqlSchemaView, TableView,
};
use vstd::prelude::*;

verus! {

/// A table of a database.
pub struct TableModel {
    pub columns: Map<Name, ColumnView>,
    pub primary_key: Seq<Name>,
    pub indexes: Map<Name, IndexView>,
    pub foreign_keys: Set<ForeignKeyView>,
}

/// The tables of a database, by name.
pub type SchemaModel = Map<Name, TableModel>;

/// The columns of a definition by name: under each name the first column that bears it.
pub open spec fn columns_model(columns: Seq<ColumnView>) -> Map<Name, ColumnView> {
    Map::new(
        |name: Name| column_names(columns).contains(name),
        |name: Name| columns[find_column(columns, name).unwrap()],
    )
}

/// The position of the first index called `name`.
pub open spec fn find_index(indexes: Seq<IndexView>, name: Name) -> Option<int> {
    index_names(indexes).index_of_first(name)
}

/// The indexes of a definition by name: under each name the first index that bears it.
pub open spec fn indexes_model(indexes: Seq<IndexView>) -> Map<Name, IndexView> {
    Map::new(
        |name: Name| index_names(indexes).contains(name),
        |name: Name| indexes[find_index(indexes, name).unwrap()],
    )
}

/// The table that a definition describes.
pub open spec fn table_model(table: TableView) -> TableModel {
    TableModel {
        columns: columns_model(table.columns),
        primary_key: table.primary_key,
        indexes: indexes_model(table.indexes),
        foreign_keys: table.foreign_keys.to_set(),
    }
}

/// The database that a snapshot describes: under each name the first table that bears it.
pub open spec fn schema_model(schema: SqlSchemaView) -> SchemaModel {
    Map::new(
        |name: Name| table_names(schema.tables).contains(name),
        |name: Name| table_model(schema.tables[find_table(schema.tables, name).unwrap()]),
    )
}

/// The table called `name`, if the database has one.
pub open spec fn lookup(database: SchemaModel, name: Name) -> Option<TableModel> {
    if database.contains_key(name) {
        Some(database[name])
    } else {
        None
    }
}

/// The name of the table that a step acts on.
pub open spec fn target(step: DiffStepView) -> Name {
    match step {
        DiffStepView::CreateTable { table } => table.name,
        DiffStepView::DropTable { table } => table,
        DiffStepView::AddColumn { table, .. } => table,
        DiffStepView::DropColumn { table, .. } => table,
        DiffStepView::AlterColumn { table, .. } => table,
        DiffStepView::AddForeignKey { table, .. } => table,
        DiffStepView::DropForeignKey { table, .. } => table,
        DiffStepView::CreateIndex { table, .. } => table,
        DiffStepView::DropIndex { table, .. } => table,
        DiffStepView::RedefineTable { next, .. } => next.name,
    }
}

/// What a step makes of the table it acts on. A creation installs its definition, and a drop
/// leaves nothing. Every other step changes an existing table, and nothing where there is
/// none: a rebuild installs the new definition; a column or index is added, replaced or
/// removed under its name; a foreign key joins or leaves the set.
pub open spec fn step_on_table(entry: Option<TableModel>, step: DiffStepView) -> Option<
    TableModel,
> {
    match step {
        DiffStepView::CreateTable { table } => Some(table_model(table)),
        DiffStepView::DropTable { .. } => None,
        _ => match entry {
            None => None,
            Some(t) => Some(
                match step {
                    DiffStepView::RedefineTable { next, .. } => table_model(next),
                    DiffStepView::AddColumn { column, .. } => TableModel {
                        columns: t.columns.insert(column.name, column),
                        ..t
                    },
                    DiffStepView::DropColumn { column, .. } => TableModel {
                        columns: t.columns.remove(column),
                        ..t
                    },
                    DiffStepView::AlterColumn { next, .. } => TableModel {
                        columns: t.columns.insert(next.name, next),
                        ..t
                    },
                    DiffStepView::AddForeignKey { foreign_key, .. } => TableModel {
                        foreign_keys: t.foreign_keys.insert(foreign_key),
                        ..t
                    },
                    DiffStepView::DropForeignKey { foreign_key, .. } => TableModel {
                        foreign_keys: t.foreign_keys.remove(foreign_key),
                        ..t
                    },
                    DiffStepView::CreateIndex { index, .. } => TableModel {
                        indexes: t.indexes.insert(index.name, index),
                        ..t
                    },
                    DiffStepView::DropIndex { index, .. } => TableModel {
                        indexes: t.indexes.remove(index),
                        ..t
                    },
                    _ => t,
                },
            ),
        },
    }
}

/// The database after one step.
pub open spec fn apply_step(database: SchemaModel, step: DiffStepView) -> SchemaModel {
    match step_on_table(lookup(database, target(step)), step) {
        Some(table) => database.insert(target(step), table),
        None => database.remove(target(step)),
    }
}

/// The database after the steps of a plan, applied in order.
pub open spec fn apply_steps(database: SchemaModel, steps: Seq<DiffStepView>) -> SchemaModel
    decreases steps.len(),
{
    if steps.len() == 0 {
        database
    } else {
        apply_step(apply_steps(database, steps.drop_last()), steps.last())
    }
}

/// What the steps of a plan make of the table called `name`: the steps that act on it, applied
/// in order.
pub open spec fn entry_after(entry: Option<TableModel>, steps: Seq<DiffStepView>, name: Name) -> Option<
    TableModel,
>
    decreases steps.len(),
{
    if steps.len() == 0 {
        entry
    } else {
        let before = entry_after(entry, steps.drop_last(), name);
        if target(steps.last()) == name {
            step_on_table(before, steps.last())
        } else {
            before
        }
    }
}

/// A plan acts on each table by the steps that name it, and by no others.
pub proof fn lemma_lookup_after(database: SchemaModel, steps: Seq<DiffStepView>, name: Name)
    ensures
        lookup(apply_steps(database, steps), name) == entry_after(
            lookup(database, name),
            steps,
            name,
        ),
    decreases steps.len(),
{
    if steps.len() > 0 {
        lemma_lookup_after(database, steps.drop_last(), name);
    }
}

/// Acting by one plan and then by another is acting by the two in a row.
pub proof fn lemma_entry_after_concat(
    entry: Option<TableModel>,
    first: Seq<DiffStepView>,
    second: Seq<DiffStepView>,
    name: Name,
)
    ensures
        entry_after(entry, first + second, name) == entry_after(
            entry_after(entry, first, name),
            second,
            name,
        ),
    decreases second.len(),
{
    if second.len() == 0 {
        assert(first + second =~= first);
    } else {
        lemma_entry_after_concat(entry, first, second.drop_last(), name);
        assert((first + second).drop_last() =~= first + second.drop_last());
        assert((first + second).last() == second.last());
    }
}

/// Whether no step of `steps` acts on the table called `name`.
pub open spec fn leaves_alone(steps: Seq<DiffStepView>, name: Name) -> bool {
    forall|k: int| 0 <= k < steps.len() ==> target(#[trigger] steps[k]) != name
}

/// Steps that act on other tables leave a table as it is.
pub proof fn lemma_entry_untouched(entry: Option<TableModel>, steps: Seq<DiffStepView>, name: Name)
    requires
        leaves_alone(steps, name),
    ensures
        entry_after(entry, steps, name) == entry,
    decreases steps.len(),
{
    if steps.len() > 0 {
        assert(leaves_alone(steps.drop_last(), name)) by {
            assert forall|k: int| 0 <= k < steps.drop_last().len() implies target(
                #[trigger] steps.drop_last()[k],
            ) != name by {
                assert(steps.drop_last()[k] == steps[k]);
            }
        }
        lemma_entry_untouched(entry, steps.drop_last(), name);
        assert(target(steps[steps.len() - 1]) != name);
    }
}

/// Where at most the part at `own` acts on the table called `name`, a concatenation of parts
/// acts on it as that part does.
pub proof fn lemma_entry_after_own_part(
    entry: Option<TableModel>,
    part: spec_fn(int) -> Seq<DiffStepView>,
    n: nat,
    own: int,
    name: Name,
)
    requires
        forall|i: int| 0 <= i < n && i != own ==> leaves_alone(#[trigger] part(i), name),
    ensures
        entry_after(entry, concat_prefix(part, n), name) == if 0 <= own < n {
            entry_after(entry, part(own), name)
        } else {
            entry
        },
    decreases n,
{
    if n > 0 {
        let before = concat_prefix(part, (n - 1) as nat);
        lemma_entry_after_own_part(entry, part, (n - 1) as nat, own, name);
        lemma_entry_after_concat(entry, before, part(n - 1), name);
        if own == n - 1 {
            assert(entry_after(entry, before, name) == entry);
        } else {
            assert(leaves_alone(part(n - 1), name));
            lemma_entry_untouched(entry_after(entry, before, name), part(n - 1), name);
        }
    }
}

/// Where each part takes the table from one state to the next, the concatenation of the parts
/// takes it from the first state to the last.
pub proof fn lemma_entry_after_stepwise(
    state: spec_fn(int) -> Option<TableModel>,
    part: spec_fn(int) -> Seq<DiffStepView>,
    n: nat,
    name: Name,
)
    requires
        forall|j: int| 0 <= j < n ==> entry_after(state(j), #[trigger] part(j), name) == state(j + 1),
    ensures
        entry_after(state(0), concat_prefix(part, n), name) == state(n as int),
    decreases n,
{
    if n > 0 {
        lemma_entry_after_stepwise(state, part, (n - 1) as nat, name);
        lemma_entry_after_concat(state(0), concat_prefix(part, (n - 1) as nat), part(n - 1), name);
    }
}

} // verus!
