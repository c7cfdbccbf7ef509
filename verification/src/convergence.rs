//! What a plan achieves: schemas that the differ cannot tell apart, and the schema that a plan
//! leaves behind.
use crate::differ::{
    all_in, alters_column, column_altered, column_change, column_changes, column_changes_in,
    column_changes_of, column_drops_in, columns_match, concat_prefix, created_table, drops_column,
    find_column, find_table, foreign_key_additions, foreign_key_additions_in,
    foreign_key_additions_of, foreign_key_drops, foreign_key_drops_in, foreign_key_drops_of,
    foreign_keys_differ, index_creations, index_creations_in, index_creations_of, index_drops,
    index_drops_in, index_drops_of, key_rebuild_of, key_rebuilds, needs_redefine, spec_diff,
    table_changes, table_creations, table_drops, DiffStepView,
};
use crate::effects::{
    after_column_changes, after_column_drops, after_foreign_key_additions,
    after_foreign_key_drops, after_index_creations, after_index_drops, among, column_changed,
    column_kept, index_created, index_dropped, lemma_column_changes_effect,
    lemma_column_drops_effect, lemma_entry_after_one, lemma_find_index_at,
    lemma_foreign_key_additions_effect, lemma_foreign_key_drops_effect,
    lemma_index_creations_effect, lemma_index_drops_effect,
};
use crate::features::MigrationFeatures;
use crate::model::{
    apply_steps, entry_after, find_index, indexes_model, leaves_alone, lemma_entry_after_concat,
    lemma_entry_after_own_part, lemma_lookup_after, lookup, schema_model, table_model, target,
    TableModel,
};
use crate::ordering::{all_meet, lemma_concat_prefix_all};
use crate::schema::{
    column_names, index_names, table_names, ColumnView, ForeignKeyView, IndexView, Name,
    SqlSchemaView, TableView,
};
use vstd::prelude::*;

verus! {

/// What `find_table` returns: the first position of the name, or nothing where no table bears
/// it.
pub proof fn lemma_find_table(tables: Seq<TableView>, name: Name)
    ensures
        match find_table(tables, name) {
            Some(k) => {
                &&& 0 <= k < tables.len()
                &&& tables[k].name == name
                &&& forall|j: int| 0 <= j < k ==> (#[trigger] tables[j]).name != name
            },
            None => forall|j: int| 0 <= j < tables.len() ==> (#[trigger] tables[j]).name != name,
        },
{
    let names = table_names(tables);
    names.index_of_first_ensures(name);
    match find_table(tables, name) {
        Some(k) => {
            assert forall|j: int| 0 <= j < k implies (#[trigger] tables[j]).name != name by {
                assert(names[j] != name);
            }
        },
        None => {
            assert forall|j: int| 0 <= j < tables.len() implies (#[trigger] tables[j]).name
                != name by {
                assert(names[j] == tables[j].name);
            }
        },
    }
}

/// What `find_column` returns: the first position of the name, or nothing where no column
/// bears it.
pub proof fn lemma_find_column(columns: Seq<ColumnView>, name: Name)
    ensures
        match find_column(columns, name) {
            Some(k) => {
                &&& 0 <= k < columns.len()
                &&& columns[k].name == name
                &&& forall|j: int| 0 <= j < k ==> (#[trigger] columns[j]).name != name
            },
            None => forall|j: int|
                0 <= j < columns.len() ==> (#[trigger] columns[j]).name != name,
        },
{
    let names = column_names(columns);
    names.index_of_first_ensures(name);
    match find_column(columns, name) {
        Some(k) => {
            assert forall|j: int| 0 <= j < k implies (#[trigger] columns[j]).name != name by {
                assert(names[j] != name);
            }
        },
        None => {
            assert forall|j: int| 0 <= j < columns.len() implies (#[trigger] columns[j]).name
                != name by {
                assert(names[j] == columns[j].name);
            }
        },
    }
}

/// Where the names of `tables` are distinct, each table is found at its own position.
pub proof fn lemma_find_table_at(tables: Seq<TableView>, i: int)
    requires
        table_names(tables).no_duplicates(),
        0 <= i < tables.len(),
    ensures
        find_table(tables, tables[i].name) == Some(i),
{
    lemma_find_table(tables, tables[i].name);
    let names = table_names(tables);
    match find_table(tables, tables[i].name) {
        Some(k) => {
            assert(names[k] == names[i]);
        },
        None => {},
    }
}

/// Where the names of `columns` are distinct, each column is found at its own position.
pub proof fn lemma_find_column_at(columns: Seq<ColumnView>, i: int)
    requires
        column_names(columns).no_duplicates(),
        0 <= i < columns.len(),
    ensures
        find_column(columns, columns[i].name) == Some(i),
{
    lemma_find_column(columns, columns[i].name);
    let names = column_names(columns);
    match find_column(columns, columns[i].name) {
        Some(k) => {
            assert(names[k] == names[i]);
        },
        None => {},
    }
}

/// Whether the differ finds nothing to do between two definitions of a table: same name and
/// primary key, the same column names with matching columns under each, the same indexes and
/// the same foreign keys.
pub open spec fn tables_equivalent(a: TableView, b: TableView, features: MigrationFeatures) -> bool {
    &&& a.name == b.name
    &&& a.primary_key == b.primary_key
    &&& all_in(column_names(a.columns), column_names(b.columns))
    &&& all_in(column_names(b.columns), column_names(a.columns))
    &&& forall|j: int|
        0 <= j < b.columns.len() ==> !column_altered(a.columns, #[trigger] b.columns[j], features)
    &&& all_in(a.indexes, b.indexes)
    &&& all_in(b.indexes, a.indexes)
    &&& all_in(a.foreign_keys, b.foreign_keys)
    &&& all_in(b.foreign_keys, a.foreign_keys)
}

/// Whether the differ finds nothing to do between two schemas: each table of either has a
/// namesake in the other, and the first namesakes are equivalent.
pub open spec fn schemas_equivalent(
    a: SqlSchemaView,
    b: SqlSchemaView,
    features: MigrationFeatures,
) -> bool {
    &&& forall|i: int|
        0 <= i < a.tables.len() ==> match find_table(b.tables, (#[trigger] a.tables[i]).name) {
            Some(k) => tables_equivalent(a.tables[i], b.tables[k], features),
            None => false,
        }
    &&& forall|i: int|
        0 <= i < b.tables.len() ==> match find_table(a.tables, (#[trigger] b.tables[i]).name) {
            Some(k) => tables_equivalent(a.tables[k], b.tables[i], features),
            None => false,
        }
}

/// A concatenation of empty parts is empty.
pub proof fn lemma_concat_prefix_empty<A>(part: spec_fn(int) -> Seq<A>, n: nat)
    requires
        forall|i: int| 0 <= i < n ==> (#[trigger] part(i)).len() == 0,
    ensures
        concat_prefix(part, n) == Seq::<A>::empty(),
    decreases n,
{
    if n > 0 {
        lemma_concat_prefix_empty(part, (n - 1) as nat);
        assert(part(n - 1).len() == 0);
        assert(concat_prefix(part, n) =~= Seq::<A>::empty());
    }
}

/// Equivalent tables are changed in place, by no step.
proof fn lemma_equivalent_tables_need_no_step(
    a: TableView,
    b: TableView,
    features: MigrationFeatures,
)
    requires
        tables_equivalent(a, b, features),
    ensures
        !needs_redefine(a, b, features),
        foreign_key_drops_in(a.name, a.foreign_keys, b.foreign_keys, a.foreign_keys.len())
            == Seq::<DiffStepView>::empty(),
        index_drops_in(a.name, a.indexes, b.indexes, a.indexes.len()) == Seq::<
            DiffStepView,
        >::empty(),
        column_drops_in(b.name, a.columns, b.columns, a.columns.len()) == Seq::<
            DiffStepView,
        >::empty(),
        column_changes_in(b.name, a.columns, b.columns, features, b.columns.len()) == Seq::<
            DiffStepView,
        >::empty(),
        index_creations_in(b.name, b.indexes, a.indexes, b.indexes.len()) == Seq::<
            DiffStepView,
        >::empty(),
        foreign_key_additions_in(b.name, b.foreign_keys, a.foreign_keys, b.foreign_keys.len())
            == Seq::<DiffStepView>::empty(),
{
    assert(!drops_column(a, b)) by {
        assert forall|j: int| 0 <= j < a.columns.len() implies column_names(b.columns).contains(
            #[trigger] a.columns[j].name,
        ) by {
            assert(column_names(a.columns)[j] == a.columns[j].name);
        }
    }
    assert(!alters_column(a, b, features));
    assert(!foreign_keys_differ(a, b));
    lemma_concat_prefix_empty(
        |j: int|
            if b.foreign_keys.contains(a.foreign_keys[j]) {
                Seq::empty()
            } else {
                seq![DiffStepView::DropForeignKey { table: a.name, foreign_key: a.foreign_keys[j] }]
            },
        a.foreign_keys.len(),
    );
    lemma_concat_prefix_empty(
        |j: int|
            if b.indexes.contains(a.indexes[j]) {
                Seq::empty()
            } else {
                seq![DiffStepView::DropIndex { table: a.name, index: a.indexes[j].name }]
            },
        a.indexes.len(),
    );
    assert forall|j: int| 0 <= j < a.columns.len() implies column_names(b.columns).contains(
        #[trigger] a.columns[j].name,
    ) by {
        assert(column_names(a.columns)[j] == a.columns[j].name);
    }
    lemma_concat_prefix_empty(
        |j: int|
            if column_names(b.columns).contains(a.columns[j].name) {
                Seq::empty()
            } else {
                seq![DiffStepView::DropColumn { table: b.name, column: a.columns[j].name }]
            },
        a.columns.len(),
    );
    assert forall|j: int| 0 <= j < b.columns.len() implies (#[trigger] column_change(
        b.name,
        a.columns,
        b.columns[j],
        features,
    )).len() == 0 by {
        lemma_find_column(a.columns, b.columns[j].name);
        assert(column_names(a.columns).contains(column_names(b.columns)[j]));
        assert(!column_altered(a.columns, b.columns[j], features));
        match find_column(a.columns, b.columns[j].name) {
            Some(k) => {},
            None => {
                let w = choose|w: int|
                    0 <= w < column_names(a.columns).len() && column_names(a.columns)[w]
                        == column_names(b.columns)[j];
                assert(a.columns[w].name == b.columns[j].name);
            },
        }
    }
    lemma_concat_prefix_empty(
        |j: int| column_change(b.name, a.columns, b.columns[j], features),
        b.columns.len(),
    );
    lemma_concat_prefix_empty(
        |j: int|
            if a.indexes.contains(b.indexes[j]) {
                Seq::empty()
            } else {
                seq![DiffStepView::CreateIndex { table: b.name, index: b.indexes[j] }]
            },
        b.indexes.len(),
    );
    lemma_concat_prefix_empty(
        |j: int|
            if a.foreign_keys.contains(b.foreign_keys[j]) {
                Seq::empty()
            } else {
                seq![DiffStepView::AddForeignKey { table: b.name, foreign_key: b.foreign_keys[j] }]
            },
        b.foreign_keys.len(),
    );
}

/// The differ finds nothing to do between equivalent schemas.
pub proof fn lemma_equivalent_schemas_diff_empty(
    a: SqlSchemaView,
    b: SqlSchemaView,
    features: MigrationFeatures,
)
    requires
        schemas_equivalent(a, b, features),
    ensures
        spec_diff(a, b, features) == Seq::<DiffStepView>::empty(),
{
    let from = a.tables;
    let to = b.tables;
    assert forall|i: int| 0 <= i < from.len() implies {
        &&& foreign_key_drops_of(#[trigger] from[i], to, features).len() == 0
        &&& index_drops_of(from[i], to, features).len() == 0
        &&& key_rebuild_of(from[i], to, features).len() == 0
        &&& find_table(to, from[i].name) is Some
    } by {
        lemma_find_table(to, from[i].name);
        assert(find_table(to, a.tables[i].name) is Some);
        let k = find_table(to, from[i].name).unwrap();
        lemma_equivalent_tables_need_no_step(from[i], to[k], features);
    }
    assert forall|i: int| 0 <= i < to.len() implies {
        &&& column_changes_of(from, #[trigger] to[i], features).len() == 0
        &&& index_creations_of(from, to[i], features).len() == 0
        &&& foreign_key_additions_of(from, to[i], features).len() == 0
        &&& find_table(from, to[i].name) is Some
    } by {
        lemma_find_table(from, to[i].name);
        assert(find_table(from, b.tables[i].name) is Some);
        let k = find_table(from, to[i].name).unwrap();
        lemma_equivalent_tables_need_no_step(from[k], to[i], features);
    }
    lemma_concat_prefix_empty(|i: int| foreign_key_drops_of(from[i], to, features), from.len());
    lemma_concat_prefix_empty(|i: int| index_drops_of(from[i], to, features), from.len());
    lemma_concat_prefix_empty(
        |i: int|
            if find_table(to, from[i].name) is None {
                seq![DiffStepView::DropTable { table: from[i].name }]
            } else {
                Seq::empty()
            },
        from.len(),
    );
    lemma_concat_prefix_empty(
        |i: int|
            if find_table(from, to[i].name) is None {
                seq![DiffStepView::CreateTable { table: created_table(to[i], features) }]
            } else {
                Seq::empty()
            },
        to.len(),
    );
    lemma_concat_prefix_empty(|i: int| column_changes_of(from, to[i], features), to.len());
    lemma_concat_prefix_empty(|i: int| key_rebuild_of(from[i], to, features), from.len());
    lemma_concat_prefix_empty(|i: int| index_creations_of(from, to[i], features), to.len());
    lemma_concat_prefix_empty(|i: int| foreign_key_additions_of(from, to[i], features), to.len());
    assert(table_changes(from, to, features) =~= Seq::<DiffStepView>::empty());
    assert(spec_diff(a, b, features) =~= Seq::<DiffStepView>::empty());
}

/// A well-formed table is equivalent to itself.
proof fn lemma_table_equivalent_to_itself(t: TableView, features: MigrationFeatures)
    requires
        t.wf(),
    ensures
        tables_equivalent(t, t, features),
{
    assert forall|j: int| 0 <= j < t.columns.len() implies !column_altered(
        t.columns,
        #[trigger] t.columns[j],
        features,
    ) by {
        lemma_find_column_at(t.columns, j);
    }
}

/// Between a well-formed schema and itself the differ finds nothing to do.
pub proof fn lemma_diff_of_schema_with_itself_is_empty(
    schema: SqlSchemaView,
    features: MigrationFeatures,
)
    requires
        schema.wf(),
    ensures
        spec_diff(schema, schema, features) == Seq::<DiffStepView>::empty(),
{
    assert forall|i: int| 0 <= i < schema.tables.len() implies match find_table(
        schema.tables,
        (#[trigger] schema.tables[i]).name,
    ) {
        Some(k) => k == i && tables_equivalent(schema.tables[i], schema.tables[i], features),
        None => false,
    } by {
        lemma_find_table_at(schema.tables, i);
        lemma_table_equivalent_to_itself(schema.tables[i], features);
    }
    lemma_equivalent_schemas_diff_empty(schema, schema, features);
}

/// Whether a table of a database is one that the differ cannot tell from the definition
/// `wanted`: the same primary key, indexes and foreign keys, and under each column name of the
/// definition, and under no other, a column that matches the definition's.
pub open spec fn model_matches(
    table: TableModel,
    wanted: TableView,
    features: MigrationFeatures,
) -> bool {
    &&& table.primary_key == wanted.primary_key
    &&& forall|k: Name|
        table.columns.contains_key(k) <==> column_names(wanted.columns).contains(k)
    &&& forall|j: int|
        0 <= j < wanted.columns.len() ==> columns_match(
            table.columns[(#[trigger] wanted.columns[j]).name],
            wanted.columns[j],
            features,
        )
    &&& table.indexes == indexes_model(wanted.indexes)
    &&& table.foreign_keys == wanted.foreign_keys.to_set()
}

/// The table that the steps for a table changed in place leave behind.
pub open spec fn changed_in_place(
    previous: TableView,
    next: TableView,
    features: MigrationFeatures,
) -> TableModel {
    let m0 = table_model(previous);
    let m1 = after_foreign_key_drops(
        m0,
        previous.foreign_keys,
        next.foreign_keys,
        previous.foreign_keys.len() as int,
    );
    let m2 = after_index_drops(m1, previous.indexes, next.indexes, previous.indexes.len() as int);
    let m3 = after_column_drops(m2, previous.columns, next.columns, previous.columns.len() as int);
    let m4 = after_column_changes(
        m3,
        previous.columns,
        next.columns,
        features,
        next.columns.len() as int,
    );
    let m5 = after_index_creations(m4, next.indexes, previous.indexes, next.indexes.len() as int);
    after_foreign_key_additions(
        m5,
        next.foreign_keys,
        previous.foreign_keys,
        next.foreign_keys.len() as int,
    )
}

/// To be among all the elements of a sequence is to be in it.
proof fn lemma_among_all<A>(s: Seq<A>, x: A)
    ensures
        among(s, s.len() as int, x) == s.contains(x),
{
    if among(s, s.len() as int, x) {
        let y = choose|y: int| 0 <= y < s.len() && y < s.len() && s[y] == x;
        assert(s[y] == x);
    }
    if s.contains(x) {
        let y = choose|y: int| 0 <= y < s.len() && s[y] == x;
        assert(s[y] == x);
    }
}

/// A table changed in place matches its new definition.
proof fn lemma_changed_in_place_matches(
    previous: TableView,
    next: TableView,
    features: MigrationFeatures,
)
    requires
        previous.wf(),
        next.wf(),
        !needs_redefine(previous, next, features),
    ensures
        model_matches(changed_in_place(previous, next, features), next, features),
{
    let m = changed_in_place(previous, next, features);
    // Foreign keys.
    assert(m.foreign_keys =~= next.foreign_keys.to_set()) by {
        assert forall|x: ForeignKeyView|
            m.foreign_keys.contains(x) == next.foreign_keys.contains(x) by {
            lemma_among_all(previous.foreign_keys, x);
            lemma_among_all(next.foreign_keys, x);
        }
    }
    // Indexes.
    let i1 = after_index_drops(
        table_model(previous),
        previous.indexes,
        next.indexes,
        previous.indexes.len() as int,
    );
    let i2 = after_index_creations(i1, next.indexes, previous.indexes, next.indexes.len() as int);
    let m0 = table_model(previous);
    let m1 = after_foreign_key_drops(
        m0,
        previous.foreign_keys,
        next.foreign_keys,
        previous.foreign_keys.len() as int,
    );
    let m2 = after_index_drops(m1, previous.indexes, next.indexes, previous.indexes.len() as int);
    let m3 = after_column_drops(m2, previous.columns, next.columns, previous.columns.len() as int);
    let m4 = after_column_changes(
        m3,
        previous.columns,
        next.columns,
        features,
        next.columns.len() as int,
    );
    assert(m2.indexes =~= i1.indexes);
    assert(m.indexes =~= i2.indexes);
    assert forall|k: Name| #[trigger]
        i2.indexes.contains_key(k) == indexes_model(next.indexes).contains_key(k) by {
        lemma_index_state(previous, next, k);
    }
    assert forall|k: Name| #[trigger] i2.indexes.contains_key(k) implies i2.indexes[k]
        == indexes_model(next.indexes)[k] by {
        lemma_index_state(previous, next, k);
    }
    assert(i2.indexes =~= indexes_model(next.indexes));
    // Columns.
    let c1 = after_column_drops(
        table_model(previous),
        previous.columns,
        next.columns,
        previous.columns.len() as int,
    );
    let c2 = after_column_changes(
        c1,
        previous.columns,
        next.columns,
        features,
        next.columns.len() as int,
    );
    assert(m3.columns =~= c1.columns);
    assert(m.columns =~= c2.columns);
    assert forall|k: Name|
        m.columns.contains_key(k) <==> column_names(next.columns).contains(k) by {
        lemma_column_state(previous, next, features, k);
    }
    assert forall|j: int| 0 <= j < next.columns.len() implies columns_match(
        m.columns[(#[trigger] next.columns[j]).name],
        next.columns[j],
        features,
    ) by {
        lemma_column_state(previous, next, features, next.columns[j].name);
        lemma_find_column_at(next.columns, j);
        assert(column_names(next.columns)[j] == next.columns[j].name);
    }
}

/// What a table changed in place holds under an index name.
proof fn lemma_index_state(previous: TableView, next: TableView, k: Name)
    requires
        previous.wf(),
        next.wf(),
    ensures
        ({
            let m1 = after_index_drops(
                table_model(previous),
                previous.indexes,
                next.indexes,
                previous.indexes.len() as int,
            );
            let m2 = after_index_creations(
                m1,
                next.indexes,
                previous.indexes,
                next.indexes.len() as int,
            );
            &&& m2.indexes.contains_key(k) == index_names(next.indexes).contains(k)
            &&& m2.indexes.contains_key(k) ==> m2.indexes[k] == indexes_model(next.indexes)[k]
        }),
{
    let old_indexes = previous.indexes;
    let new_indexes = next.indexes;
    let m1 = after_index_drops(
        table_model(previous),
        old_indexes,
        new_indexes,
        old_indexes.len() as int,
    );
    let m2 = after_index_creations(m1, new_indexes, old_indexes, new_indexes.len() as int);
    let created = index_created(new_indexes, old_indexes, new_indexes.len() as int, k);
    let dropped = index_dropped(old_indexes, new_indexes, old_indexes.len() as int, k);
    index_names(new_indexes).index_of_first_ensures(k);
    index_names(old_indexes).index_of_first_ensures(k);
    if index_names(new_indexes).contains(k) {
        let j = find_index(new_indexes, k).unwrap();
        assert(index_names(new_indexes)[j] == new_indexes[j].name);
        if old_indexes.contains(new_indexes[j]) {
            // The old table has the very index: it is neither dropped nor created.
            let x = choose|x: int| 0 <= x < old_indexes.len() && old_indexes[x] == new_indexes[j];
            lemma_find_index_at(old_indexes, x);
            assert(index_names(old_indexes)[x] == k);
            if dropped {
                let y = choose|y: int|
                    0 <= y < old_indexes.len() && y < old_indexes.len() && (
                    #[trigger] old_indexes[y]).name == k && !new_indexes.contains(old_indexes[y]);
                lemma_find_index_at(old_indexes, y);
                assert(new_indexes[j] == old_indexes[y]);
            }
            if created {
                let y = choose|y: int|
                    0 <= y < new_indexes.len() && y < new_indexes.len() && (
                    #[trigger] new_indexes[y]).name == k && !old_indexes.contains(new_indexes[y]);
                lemma_find_index_at(new_indexes, y);
            }
        } else {
            assert(new_indexes[j].name == k);
            assert(created);
        }
    } else {
        if created {
            let y = choose|y: int|
                0 <= y < new_indexes.len() && y < new_indexes.len() && (
                #[trigger] new_indexes[y]).name == k && !old_indexes.contains(new_indexes[y]);
            assert(index_names(new_indexes)[y] == k);
        }
        if index_names(old_indexes).contains(k) {
            let x = find_index(old_indexes, k).unwrap();
            assert(index_names(old_indexes)[x] == old_indexes[x].name);
            if new_indexes.contains(old_indexes[x]) {
                let y = choose|y: int|
                    0 <= y < new_indexes.len() && new_indexes[y] == old_indexes[x];
                assert(index_names(new_indexes)[y] == k);
            }
            assert(old_indexes[x].name == k);
            assert(dropped);
        }
    }
}

/// What a table changed in place holds under a column name.
proof fn lemma_column_state(
    previous: TableView,
    next: TableView,
    features: MigrationFeatures,
    k: Name,
)
    requires
        previous.wf(),
        next.wf(),
    ensures
        ({
            let m1 = after_column_drops(
                table_model(previous),
                previous.columns,
                next.columns,
                previous.columns.len() as int,
            );
            let m2 = after_column_changes(
                m1,
                previous.columns,
                next.columns,
                features,
                next.columns.len() as int,
            );
            &&& m2.columns.contains_key(k) == column_names(next.columns).contains(k)
            &&& column_names(next.columns).contains(k) ==> columns_match(
                m2.columns[k],
                next.columns[find_column(next.columns, k).unwrap()],
                features,
            )
        }),
{
    let old_columns = previous.columns;
    let new_columns = next.columns;
    let changed = column_changed(old_columns, new_columns, features, new_columns.len() as int, k);
    lemma_find_column(new_columns, k);
    lemma_find_column(old_columns, k);
    lemma_among_all(column_names(old_columns), k);
    column_names(new_columns).index_of_first_ensures(k);
    column_names(old_columns).index_of_first_ensures(k);
    if column_names(new_columns).contains(k) {
        let j = find_column(new_columns, k).unwrap();
        if changed {
        } else {
            assert(new_columns[j].name == k);
            assert(column_kept(old_columns, new_columns[j], features));
        }
    } else {
        if changed {
            let y = choose|y: int|
                0 <= y < new_columns.len() && y < new_columns.len() && (
                #[trigger] new_columns[y]).name == k && !column_kept(
                    old_columns,
                    new_columns[y],
                    features,
                );
            assert(column_names(new_columns)[y] == k);
        }
    }
}

/// A step that acts on the table called `name`.
pub open spec fn targets(name: Name) -> spec_fn(DiffStepView) -> bool {
    |step: DiffStepView| target(step) == name
}

/// Where the part for each table acts on that table alone and no two tables share a name, a
/// pass acts on the table called `name` as the part for it does.
proof fn lemma_own_table_part(
    tables: Seq<TableView>,
    part: spec_fn(int) -> Seq<DiffStepView>,
    entry: Option<TableModel>,
    name: Name,
)
    requires
        table_names(tables).no_duplicates(),
        forall|i: int|
            0 <= i < tables.len() ==> all_meet(#[trigger] part(i), targets(tables[i].name)),
    ensures
        entry_after(entry, concat_prefix(part, tables.len()), name) == match find_table(
            tables,
            name,
        ) {
            Some(k) => entry_after(entry, part(k), name),
            None => entry,
        },
{
    lemma_find_table(tables, name);
    let own = match find_table(tables, name) {
        Some(k) => k,
        None => -1,
    };
    assert forall|i: int| 0 <= i < tables.len() && i != own implies leaves_alone(
        #[trigger] part(i),
        name,
    ) by {
        assert(all_meet(part(i), targets(tables[i].name)));
        if tables[i].name == name {
            lemma_find_table_at(tables, i);
        }
        assert forall|x: int| 0 <= x < part(i).len() implies target(#[trigger] part(i)[x])
            != name by {
            assert(targets(tables[i].name)(part(i)[x]));
        }
    }
    lemma_entry_after_own_part(entry, part, tables.len(), own, name);
}

proof fn lemma_foreign_key_drops_target(
    name: Name,
    dropped: Seq<ForeignKeyView>,
    kept: Seq<ForeignKeyView>,
)
    ensures
        all_meet(foreign_key_drops_in(name, dropped, kept, dropped.len()), targets(name)),
{
    let part = |j: int|
        if kept.contains(dropped[j]) {
            Seq::empty()
        } else {
            seq![DiffStepView::DropForeignKey { table: name, foreign_key: dropped[j] }]
        };
    assert forall|j: int| 0 <= j < dropped.len() implies all_meet(
        #[trigger] part(j),
        targets(name),
    ) by {}
    lemma_concat_prefix_all(part, dropped.len(), targets(name));
}

proof fn lemma_foreign_key_additions_target(
    name: Name,
    added: Seq<ForeignKeyView>,
    existing: Seq<ForeignKeyView>,
)
    ensures
        all_meet(foreign_key_additions_in(name, added, existing, added.len()), targets(name)),
{
    let part = |j: int|
        if existing.contains(added[j]) {
            Seq::empty()
        } else {
            seq![DiffStepView::AddForeignKey { table: name, foreign_key: added[j] }]
        };
    assert forall|j: int| 0 <= j < added.len() implies all_meet(
        #[trigger] part(j),
        targets(name),
    ) by {}
    lemma_concat_prefix_all(part, added.len(), targets(name));
}

proof fn lemma_index_drops_target(name: Name, dropped: Seq<IndexView>, kept: Seq<IndexView>)
    ensures
        all_meet(index_drops_in(name, dropped, kept, dropped.len()), targets(name)),
{
    let part = |j: int|
        if kept.contains(dropped[j]) {
            Seq::empty()
        } else {
            seq![DiffStepView::DropIndex { table: name, index: dropped[j].name }]
        };
    assert forall|j: int| 0 <= j < dropped.len() implies all_meet(
        #[trigger] part(j),
        targets(name),
    ) by {}
    lemma_concat_prefix_all(part, dropped.len(), targets(name));
}

proof fn lemma_index_creations_target(
    name: Name,
    created: Seq<IndexView>,
    existing: Seq<IndexView>,
)
    ensures
        all_meet(index_creations_in(name, created, existing, created.len()), targets(name)),
{
    let part = |j: int|
        if existing.contains(created[j]) {
            Seq::empty()
        } else {
            seq![DiffStepView::CreateIndex { table: name, index: created[j] }]
        };
    assert forall|j: int| 0 <= j < created.len() implies all_meet(
        #[trigger] part(j),
        targets(name),
    ) by {}
    lemma_concat_prefix_all(part, created.len(), targets(name));
}

proof fn lemma_column_steps_target(
    name: Name,
    previous: Seq<ColumnView>,
    next: Seq<ColumnView>,
    features: MigrationFeatures,
)
    ensures
        all_meet(column_drops_in(name, previous, next, previous.len()), targets(name)),
        all_meet(column_changes_in(name, previous, next, features, next.len()), targets(name)),
        all_meet(
            column_drops_in(name, previous, next, previous.len()) + column_changes_in(
                name,
                previous,
                next,
                features,
                next.len(),
            ),
            targets(name),
        ),
{
    let drop_part = |j: int|
        if column_names(next).contains(previous[j].name) {
            Seq::empty()
        } else {
            seq![DiffStepView::DropColumn { table: name, column: previous[j].name }]
        };
    assert forall|j: int| 0 <= j < previous.len() implies all_meet(
        #[trigger] drop_part(j),
        targets(name),
    ) by {}
    lemma_concat_prefix_all(drop_part, previous.len(), targets(name));
    let change_part = |j: int| column_change(name, previous, next[j], features);
    assert forall|j: int| 0 <= j < next.len() implies all_meet(
        #[trigger] change_part(j),
        targets(name),
    ) by {}
    lemma_concat_prefix_all(change_part, next.len(), targets(name));
    let drops = column_drops_in(name, previous, next, previous.len());
    let changes = column_changes_in(name, previous, next, features, next.len());
    assert forall|x: int| 0 <= x < (drops + changes).len() implies targets(name)(
        #[trigger] (drops + changes)[x],
    ) by {
        if x < drops.len() {
            assert((drops + changes)[x] == drops[x]);
        } else {
            assert((drops + changes)[x] == changes[x - drops.len()]);
        }
    }
}

/// Each pass's part for a table acts on that table alone.
proof fn lemma_parts_target_their_table(
    from: Seq<TableView>,
    to: Seq<TableView>,
    features: MigrationFeatures,
)
    ensures
        forall|i: int|
            0 <= i < from.len() ==> all_meet(
                #[trigger] foreign_key_drops_of(from[i], to, features),
                targets(from[i].name),
            ),
        forall|i: int|
            0 <= i < from.len() ==> all_meet(
                #[trigger] index_drops_of(from[i], to, features),
                targets(from[i].name),
            ),
        forall|i: int|
            0 <= i < to.len() ==> all_meet(
                #[trigger] column_changes_of(from, to[i], features),
                targets(to[i].name),
            ),
        forall|i: int|
            0 <= i < from.len() ==> all_meet(
                #[trigger] key_rebuild_of(from[i], to, features),
                targets(from[i].name),
            ),
        forall|i: int|
            0 <= i < to.len() ==> all_meet(
                #[trigger] index_creations_of(from, to[i], features),
                targets(to[i].name),
            ),
        forall|i: int|
            0 <= i < to.len() ==> all_meet(
                #[trigger] foreign_key_additions_of(from, to[i], features),
                targets(to[i].name),
            ),
{
    assert forall|i: int| 0 <= i < from.len() implies all_meet(
        #[trigger] foreign_key_drops_of(from[i], to, features),
        targets(from[i].name),
    ) by {
        lemma_find_table(to, from[i].name);
        match find_table(to, from[i].name) {
            Some(k) => lemma_foreign_key_drops_target(
                from[i].name,
                from[i].foreign_keys,
                to[k].foreign_keys,
            ),
            None => lemma_foreign_key_drops_target(
                from[i].name,
                from[i].foreign_keys,
                Seq::empty(),
            ),
        }
    }
    assert forall|i: int| 0 <= i < from.len() implies all_meet(
        #[trigger] index_drops_of(from[i], to, features),
        targets(from[i].name),
    ) by {
        match find_table(to, from[i].name) {
            Some(k) => lemma_index_drops_target(from[i].name, from[i].indexes, to[k].indexes),
            None => {},
        }
    }
    assert forall|i: int| 0 <= i < to.len() implies all_meet(
        #[trigger] column_changes_of(from, to[i], features),
        targets(to[i].name),
    ) by {
        match find_table(from, to[i].name) {
            Some(k) => lemma_column_steps_target(
                to[i].name,
                from[k].columns,
                to[i].columns,
                features,
            ),
            None => {},
        }
    }
    assert forall|i: int| 0 <= i < to.len() implies all_meet(
        #[trigger] index_creations_of(from, to[i], features),
        targets(to[i].name),
    ) by {
        match find_table(from, to[i].name) {
            Some(k) => lemma_index_creations_target(to[i].name, to[i].indexes, from[k].indexes),
            None => lemma_index_creations_target(to[i].name, to[i].indexes, Seq::empty()),
        }
    }
    assert forall|i: int| 0 <= i < to.len() implies all_meet(
        #[trigger] foreign_key_additions_of(from, to[i], features),
        targets(to[i].name),
    ) by {
        match find_table(from, to[i].name) {
            Some(k) => lemma_foreign_key_additions_target(
                to[i].name,
                to[i].foreign_keys,
                from[k].foreign_keys,
            ),
            None => lemma_foreign_key_additions_target(
                to[i].name,
                to[i].foreign_keys,
                Seq::empty(),
            ),
        }
    }
}

/// The table that the steps for a new table leave behind.
pub open spec fn created_in_steps(next: TableView, features: MigrationFeatures) -> TableModel {
    let m0 = table_model(created_table(next, features));
    let m1 = after_index_creations(m0, next.indexes, Seq::empty(), next.indexes.len() as int);
    if features.foreign_key_alter {
        after_foreign_key_additions(
            m1,
            next.foreign_keys,
            Seq::empty(),
            next.foreign_keys.len() as int,
        )
    } else {
        m1
    }
}

/// The steps for a new table leave behind the table that its definition describes.
proof fn lemma_created_in_steps(next: TableView, features: MigrationFeatures)
    ensures
        created_in_steps(next, features) == table_model(next),
{
    let m = created_in_steps(next, features);
    let wanted = table_model(next);
    let none_i = Seq::<IndexView>::empty();
    let none_k = Seq::<ForeignKeyView>::empty();
    assert forall|k: Name| #[trigger]
        m.indexes.contains_key(k) == wanted.indexes.contains_key(k) by {
        if index_created(next.indexes, none_i, next.indexes.len() as int, k) {
            let y = choose|y: int|
                0 <= y < next.indexes.len() && y < next.indexes.len() && (
                #[trigger] next.indexes[y]).name == k && !none_i.contains(next.indexes[y]);
            assert(index_names(next.indexes)[y] == k);
        }
        if index_names(next.indexes).contains(k) {
            let y = choose|y: int|
                0 <= y < index_names(next.indexes).len() && index_names(next.indexes)[y] == k;
            assert(next.indexes[y].name == k);
        }
    }
    assert forall|k: Name| #[trigger] m.indexes.contains_key(k) implies m.indexes[k]
        == wanted.indexes[k] by {
        assert(wanted.indexes.contains_key(k));
        if index_names(next.indexes).contains(k) {
            let y = choose|y: int|
                0 <= y < index_names(next.indexes).len() && index_names(next.indexes)[y] == k;
            assert(next.indexes[y].name == k);
        }
    }
    assert(m.indexes =~= wanted.indexes);
    assert forall|x: ForeignKeyView|
        m.foreign_keys.contains(x) == wanted.foreign_keys.contains(x) by {
        lemma_among_all(next.foreign_keys, x);
    }
    assert(m.foreign_keys =~= wanted.foreign_keys);
}

/// What a plan makes of the table called `name`: nothing where the new schema has no such
/// table; the table that its new definition describes where it is new or rebuilt; the table
/// changed in place otherwise.
pub open spec fn expected_entry(
    a: SqlSchemaView,
    b: SqlSchemaView,
    features: MigrationFeatures,
    name: Name,
) -> Option<TableModel> {
    match find_table(b.tables, name) {
        None => None,
        Some(i) => Some(
            match find_table(a.tables, name) {
                None => table_model(b.tables[i]),
                Some(k) => if needs_redefine(a.tables[k], b.tables[i], features) {
                    table_model(b.tables[i])
                } else {
                    changed_in_place(a.tables[k], b.tables[i], features)
                },
            },
        ),
    }
}

/// A plan makes of each table what `expected_entry` says.
pub proof fn lemma_entry_after_plan(
    a: SqlSchemaView,
    b: SqlSchemaView,
    features: MigrationFeatures,
    name: Name,
)
    requires
        a.wf(),
        b.wf(),
    ensures
        entry_after(lookup(schema_model(a), name), spec_diff(a, b, features), name)
            == expected_entry(a, b, features, name),
{
    let from = a.tables;
    let to = b.tables;
    let seg0 = foreign_key_drops(from, to, features, from.len());
    let seg1 = index_drops(from, to, features, from.len());
    let seg2 = table_creations(from, to, features, to.len());
    let seg3a = column_changes(from, to, features, to.len());
    let seg3b = key_rebuilds(from, to, features, from.len());
    let seg4 = table_drops(from, to, from.len());
    let seg5 = index_creations(from, to, features, to.len());
    let seg6 = foreign_key_additions(from, to, features, to.len());
    let e0 = lookup(schema_model(a), name);
    let e1 = entry_after(e0, seg0, name);
    let e2 = entry_after(e1, seg1, name);
    let e3 = entry_after(e2, seg2, name);
    let e3a = entry_after(e3, seg3a, name);
    let e4 = entry_after(e3a, seg3b, name);
    let e5 = entry_after(e4, seg4, name);
    let e6 = entry_after(e5, seg5, name);
    let e7 = entry_after(e6, seg6, name);
    lemma_entry_after_concat(e0, seg0, seg1, name);
    lemma_entry_after_concat(e0, seg0 + seg1, seg2, name);
    lemma_entry_after_concat(e3, seg3a, seg3b, name);
    lemma_entry_after_concat(e0, seg0 + seg1 + seg2, seg3a + seg3b, name);
    lemma_entry_after_concat(e0, seg0 + seg1 + seg2 + (seg3a + seg3b), seg4, name);
    lemma_entry_after_concat(e0, seg0 + seg1 + seg2 + (seg3a + seg3b) + seg4, seg5, name);
    lemma_entry_after_concat(e0, seg0 + seg1 + seg2 + (seg3a + seg3b) + seg4 + seg5, seg6, name);
    assert(entry_after(e0, spec_diff(a, b, features), name) == e7);
    lemma_parts_target_their_table(from, to, features);
    let drop_part = |i: int|
        if find_table(to, from[i].name) is None {
            seq![DiffStepView::DropTable { table: from[i].name }]
        } else {
            Seq::empty()
        };
    let create_part = |i: int|
        if find_table(from, to[i].name) is None {
            seq![DiffStepView::CreateTable { table: created_table(to[i], features) }]
        } else {
            Seq::empty()
        };
    assert forall|i: int| 0 <= i < from.len() implies all_meet(
        #[trigger] drop_part(i),
        targets(from[i].name),
    ) by {}
    assert forall|i: int| 0 <= i < to.len() implies all_meet(
        #[trigger] create_part(i),
        targets(to[i].name),
    ) by {}
    lemma_own_table_part(from, |i: int| foreign_key_drops_of(from[i], to, features), e0, name);
    lemma_own_table_part(from, |i: int| index_drops_of(from[i], to, features), e1, name);
    lemma_own_table_part(to, create_part, e2, name);
    lemma_own_table_part(to, |i: int| column_changes_of(from, to[i], features), e3, name);
    lemma_own_table_part(from, |i: int| key_rebuild_of(from[i], to, features), e3a, name);
    lemma_own_table_part(from, drop_part, e4, name);
    lemma_own_table_part(to, |i: int| index_creations_of(from, to[i], features), e5, name);
    lemma_own_table_part(to, |i: int| foreign_key_additions_of(from, to[i], features), e6, name);
    lemma_find_table(from, name);
    lemma_find_table(to, name);
    table_names(from).index_of_first_ensures(name);
    table_names(to).index_of_first_ensures(name);
    let drop = DiffStepView::DropTable { table: name };
    match find_table(to, name) {
        None => {
            match find_table(from, name) {
                None => {},
                Some(k) => {
                    lemma_entry_after_one(e4, drop, name);
                    assert(drop_part(k) == seq![drop]);
                    assert(e5 is None);
                },
            }
            assert(e7 is None);
        },
        Some(i) => {
            let q = to[i];
            match find_table(from, name) {
                None => {
                    assert(e2 is None);
                    let create = DiffStepView::CreateTable { table: created_table(q, features) };
                    lemma_entry_after_one(e2, create, name);
                    assert(create_part(i) == seq![create]);
                    let m4 = table_model(created_table(q, features));
                    assert(e3 == Some(m4));
                    assert(e3a == e3);
                    assert(e4 == e3);
                    assert(e5 == e3);
                    lemma_index_creations_effect(m4, name, q.indexes, Seq::empty());
                    let m5 = after_index_creations(
                        m4,
                        q.indexes,
                        Seq::empty(),
                        q.indexes.len() as int,
                    );
                    assert(e6 == Some(m5));
                    lemma_foreign_key_additions_effect(m5, name, q.foreign_keys, Seq::empty());
                    assert(e7 == Some(created_in_steps(q, features)));
                    lemma_created_in_steps(q, features);
                },
                Some(k) => {
                    let p = from[k];
                    let m0 = table_model(p);
                    assert(e0 == Some(m0));
                    lemma_foreign_key_drops_effect(m0, name, p.foreign_keys, q.foreign_keys);
                    let m1 = after_foreign_key_drops(
                        m0,
                        p.foreign_keys,
                        q.foreign_keys,
                        p.foreign_keys.len() as int,
                    );
                    if needs_redefine(p, q, features) {
                        assert(e1 is Some);
                        assert(e2 == e1);
                        assert(e3 == e1);
                        let rebuild = DiffStepView::RedefineTable { previous: p, next: q };
                        lemma_entry_after_one(e3, rebuild, name);
                        assert(e3a == Some(table_model(q)));
                        assert(e4 == e3a);
                        assert(e5 == e3a);
                        assert(e6 == e3a);
                        assert(e7 == e3a);
                    } else {
                        assert(e1 == Some(m1));
                        lemma_index_drops_effect(m1, name, p.indexes, q.indexes);
                        let m2 = after_index_drops(
                            m1,
                            p.indexes,
                            q.indexes,
                            p.indexes.len() as int,
                        );
                        assert(e2 == Some(m2));
                        assert(e3 == e2);
                        lemma_column_drops_effect(m2, name, p.columns, q.columns);
                        let m3 = after_column_drops(
                            m2,
                            p.columns,
                            q.columns,
                            p.columns.len() as int,
                        );
                        lemma_column_changes_effect(m3, name, p.columns, q.columns, features);
                        let m4 = after_column_changes(
                            m3,
                            p.columns,
                            q.columns,
                            features,
                            q.columns.len() as int,
                        );
                        lemma_entry_after_concat(
                            e3,
                            column_drops_in(name, p.columns, q.columns, p.columns.len()),
                            column_changes_in(
                                name,
                                p.columns,
                                q.columns,
                                features,
                                q.columns.len(),
                            ),
                            name,
                        );
                        assert(e3a == Some(m4));
                        assert(e4 == e3a);
                        assert(e5 == e3a);
                        lemma_index_creations_effect(m4, name, q.indexes, p.indexes);
                        let m5 = after_index_creations(
                            m4,
                            q.indexes,
                            p.indexes,
                            q.indexes.len() as int,
                        );
                        assert(e6 == Some(m5));
                        lemma_foreign_key_additions_effect(
                            m5,
                            name,
                            q.foreign_keys,
                            p.foreign_keys,
                        );
                        assert(e7 == Some(changed_in_place(p, q, features)));
                    }
                },
            }
        },
    }
}

/// The table that a well-formed definition describes matches the definition.
proof fn lemma_model_matches_itself(table: TableView, features: MigrationFeatures)
    requires
        table.wf(),
    ensures
        model_matches(table_model(table), table, features),
{
    assert forall|j: int| 0 <= j < table.columns.len() implies columns_match(
        table_model(table).columns[(#[trigger] table.columns[j]).name],
        table.columns[j],
        features,
    ) by {
        lemma_find_column_at(table.columns, j);
        assert(column_names(table.columns)[j] == table.columns[j].name);
    }
}

/// What a plan leaves of a table of the new schema matches the table's definition.
proof fn lemma_expected_entry_matches(
    a: SqlSchemaView,
    b: SqlSchemaView,
    features: MigrationFeatures,
    i: int,
)
    requires
        a.wf(),
        b.wf(),
        0 <= i < b.tables.len(),
    ensures
        find_table(b.tables, b.tables[i].name) == Some(i),
        expected_entry(a, b, features, b.tables[i].name) is Some,
        model_matches(
            expected_entry(a, b, features, b.tables[i].name).unwrap(),
            b.tables[i],
            features,
        ),
{
    let name = b.tables[i].name;
    lemma_find_table_at(b.tables, i);
    lemma_find_table(a.tables, name);
    lemma_model_matches_itself(b.tables[i], features);
    match find_table(a.tables, name) {
        None => {},
        Some(k) => {
            if !needs_redefine(a.tables[k], b.tables[i], features) {
                lemma_changed_in_place_matches(a.tables[k], b.tables[i], features);
            }
        },
    }
}

/// A definition whose table matches another definition is equivalent to that definition.
proof fn lemma_matching_definitions_equivalent(
    read: TableView,
    wanted: TableView,
    features: MigrationFeatures,
)
    requires
        read.wf(),
        wanted.wf(),
        read.name == wanted.name,
        model_matches(table_model(read), wanted, features),
    ensures
        tables_equivalent(read, wanted, features),
{
    let m = table_model(read);
    assert forall|j: int| 0 <= j < column_names(read.columns).len() implies column_names(
        wanted.columns,
    ).contains(#[trigger] column_names(read.columns)[j]) by {
        assert(m.columns.contains_key(column_names(read.columns)[j]));
    }
    assert forall|j: int| 0 <= j < column_names(wanted.columns).len() implies column_names(
        read.columns,
    ).contains(#[trigger] column_names(wanted.columns)[j]) by {
        assert(column_names(wanted.columns).contains(column_names(wanted.columns)[j]));
        assert(m.columns.contains_key(column_names(wanted.columns)[j]));
    }
    assert forall|j: int| 0 <= j < wanted.columns.len() implies !column_altered(
        read.columns,
        #[trigger] wanted.columns[j],
        features,
    ) by {
        let k = wanted.columns[j].name;
        assert(column_names(wanted.columns)[j] == k);
        assert(m.columns.contains_key(k));
        lemma_find_column(read.columns, k);
        column_names(read.columns).index_of_first_ensures(k);
    }
    assert forall|j: int| 0 <= j < read.indexes.len() implies wanted.indexes.contains(
        #[trigger] read.indexes[j],
    ) by {
        let k = read.indexes[j].name;
        lemma_find_index_at(read.indexes, j);
        assert(index_names(read.indexes)[j] == k);
        assert(m.indexes.contains_key(k));
        assert(indexes_model(wanted.indexes).contains_key(k));
        index_names(wanted.indexes).index_of_first_ensures(k);
        let x = find_index(wanted.indexes, k).unwrap();
        assert(m.indexes[k] == read.indexes[j]);
        assert(indexes_model(wanted.indexes)[k] == wanted.indexes[x]);
    }
    assert forall|j: int| 0 <= j < wanted.indexes.len() implies read.indexes.contains(
        #[trigger] wanted.indexes[j],
    ) by {
        let k = wanted.indexes[j].name;
        lemma_find_index_at(wanted.indexes, j);
        assert(index_names(wanted.indexes)[j] == k);
        assert(indexes_model(wanted.indexes).contains_key(k));
        assert(m.indexes.contains_key(k));
        index_names(read.indexes).index_of_first_ensures(k);
        let x = find_index(read.indexes, k).unwrap();
        assert(m.indexes[k] == read.indexes[x]);
        assert(indexes_model(wanted.indexes)[k] == wanted.indexes[j]);
    }
    assert forall|j: int| 0 <= j < read.foreign_keys.len() implies wanted.foreign_keys.contains(
        #[trigger] read.foreign_keys[j],
    ) by {
        assert(read.foreign_keys.contains(read.foreign_keys[j]));
        assert(read.foreign_keys.to_set().contains(read.foreign_keys[j]));
        assert(wanted.foreign_keys.to_set().contains(read.foreign_keys[j]));
    }
    assert forall|j: int| 0 <= j < wanted.foreign_keys.len() implies read.foreign_keys.contains(
        #[trigger] wanted.foreign_keys[j],
    ) by {
        assert(wanted.foreign_keys.contains(wanted.foreign_keys[j]));
        assert(wanted.foreign_keys.to_set().contains(wanted.foreign_keys[j]));
        assert(read.foreign_keys.to_set().contains(wanted.foreign_keys[j]));
    }
}

/// A plan converges. Let the plan from `a` to `b` be applied to a database in state `a`, and
/// let `read` be a well-formed snapshot of the database it leaves. Then the differ finds
/// nothing to do between `read` and `b`.
pub proof fn lemma_plan_converges(
    a: SqlSchemaView,
    b: SqlSchemaView,
    read: SqlSchemaView,
    features: MigrationFeatures,
)
    requires
        a.wf(),
        b.wf(),
        read.wf(),
        schema_model(read) == apply_steps(schema_model(a), spec_diff(a, b, features)),
    ensures
        spec_diff(read, b, features) == Seq::<DiffStepView>::empty(),
{
    let plan = spec_diff(a, b, features);
    assert forall|i: int| 0 <= i < read.tables.len() implies match find_table(
        b.tables,
        (#[trigger] read.tables[i]).name,
    ) {
        Some(k) => tables_equivalent(read.tables[i], b.tables[k], features),
        None => false,
    } by {
        let name = read.tables[i].name;
        lemma_lookup_after(schema_model(a), plan, name);
        lemma_entry_after_plan(a, b, features, name);
        lemma_find_table_at(read.tables, i);
        assert(table_names(read.tables)[i] == name);
        assert(lookup(schema_model(read), name) == Some(table_model(read.tables[i])));
        lemma_find_table(b.tables, name);
        let k = find_table(b.tables, name).unwrap();
        lemma_expected_entry_matches(a, b, features, k);
        lemma_matching_definitions_equivalent(read.tables[i], b.tables[k], features);
    }
    assert forall|i: int| 0 <= i < b.tables.len() implies match find_table(
        read.tables,
        (#[trigger] b.tables[i]).name,
    ) {
        Some(k) => tables_equivalent(read.tables[k], b.tables[i], features),
        None => false,
    } by {
        let name = b.tables[i].name;
        lemma_lookup_after(schema_model(a), plan, name);
        lemma_entry_after_plan(a, b, features, name);
        lemma_expected_entry_matches(a, b, features, i);
        assert(schema_model(read).contains_key(name));
        lemma_find_table(read.tables, name);
        table_names(read.tables).index_of_first_ensures(name);
        let k = find_table(read.tables, name).unwrap();
        lemma_matching_definitions_equivalent(read.tables[k], b.tables[i], features);
    }
    lemma_equivalent_schemas_diff_empty(read, b, features);
}

} // verus!
