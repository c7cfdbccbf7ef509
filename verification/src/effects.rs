//! What each pass of a plan makes of one table.
use crate::differ::{
    column_change, column_changes_in, column_drops_in, columns_match, find_column,
    foreign_key_additions_in, foreign_key_drops_in, index_creations_in, index_drops_in,
    DiffStepView,
};
use crate::features::MigrationFeatures;
use crate::model::{
    entry_after, find_index, lemma_entry_after_stepwise, step_on_table, target, TableModel,
};
use crate::schema::{column_names, index_names, ColumnView, ForeignKeyView, IndexView, Name};
use vstd::prelude::*;

verus! {

/// Whether `x` is among the first `n` elements of `s`.
pub open spec fn among<A>(s: Seq<A>, n: int, x: A) -> bool {
    exists|y: int| 0 <= y < n && y < s.len() && #[trigger] s[y] == x
}

/// One step acts on the table it names, and on no other.
pub proof fn lemma_entry_after_one(entry: Option<TableModel>, step: DiffStepView, name: Name)
    ensures
        entry_after(entry, seq![step], name) == if target(step) == name {
            step_on_table(entry, step)
        } else {
            entry
        },
{
    assert(seq![step].drop_last() =~= Seq::<DiffStepView>::empty());
    assert(seq![step].last() == step);
    assert(entry_after(entry, Seq::<DiffStepView>::empty(), name) == entry);
}

/// The table once the foreign keys among the first `n` of `dropped` that `kept` lacks are gone.
pub open spec fn after_foreign_key_drops(
    table: TableModel,
    dropped: Seq<ForeignKeyView>,
    kept: Seq<ForeignKeyView>,
    n: int,
) -> TableModel {
    TableModel {
        foreign_keys: Set::new(
            |x: ForeignKeyView|
                table.foreign_keys.contains(x) && !(among(dropped, n, x) && !kept.contains(x)),
        ),
        ..table
    }
}

/// The foreign-key drops of a table take it to `after_foreign_key_drops`.
pub proof fn lemma_foreign_key_drops_effect(
    table: TableModel,
    name: Name,
    dropped: Seq<ForeignKeyView>,
    kept: Seq<ForeignKeyView>,
)
    ensures
        entry_after(
            Some(table),
            foreign_key_drops_in(name, dropped, kept, dropped.len()),
            name,
        ) == Some(after_foreign_key_drops(table, dropped, kept, dropped.len() as int)),
{
    let state = |j: int| Some(after_foreign_key_drops(table, dropped, kept, j));
    let part = |j: int|
        if kept.contains(dropped[j]) {
            Seq::empty()
        } else {
            seq![DiffStepView::DropForeignKey { table: name, foreign_key: dropped[j] }]
        };
    assert forall|j: int| 0 <= j < dropped.len() implies entry_after(
        state(j),
        #[trigger] part(j),
        name,
    ) == state(j + 1) by {
        let step = DiffStepView::DropForeignKey { table: name, foreign_key: dropped[j] };
        lemma_entry_after_one(state(j), step, name);
        let now = after_foreign_key_drops(table, dropped, kept, j);
        let next = after_foreign_key_drops(table, dropped, kept, j + 1);
        assert forall|x: ForeignKeyView| among(dropped, j + 1, x) == (among(dropped, j, x) || x
            == dropped[j]) by {
            lemma_among_next(dropped, j, x);
        }
        if kept.contains(dropped[j]) {
            assert(next.foreign_keys =~= now.foreign_keys);
        } else {
            assert(next.foreign_keys =~= now.foreign_keys.remove(dropped[j]));
        }
    }
    lemma_entry_after_stepwise(state, part, dropped.len(), name);
    assert(after_foreign_key_drops(table, dropped, kept, 0).foreign_keys =~= table.foreign_keys);
}

/// One more element is among the first `j + 1` than among the first `j`: the one at `j`.
pub proof fn lemma_among_next<A>(s: Seq<A>, j: int, x: A)
    requires
        0 <= j < s.len(),
    ensures
        among(s, j + 1, x) == (among(s, j, x) || x == s[j]),
{
    if among(s, j + 1, x) {
        let y = choose|y: int| 0 <= y < j + 1 && y < s.len() && s[y] == x;
        if y < j {
            assert(s[y] == x);
        }
    }
    if among(s, j, x) {
        let y = choose|y: int| 0 <= y < j && y < s.len() && s[y] == x;
        assert(s[y] == x);
    }
    if x == s[j] {
        assert(s[j] == x);
    }
}

/// The table once the foreign keys among the first `n` of `added` that `existing` lacks have
/// joined.
pub open spec fn after_foreign_key_additions(
    table: TableModel,
    added: Seq<ForeignKeyView>,
    existing: Seq<ForeignKeyView>,
    n: int,
) -> TableModel {
    TableModel {
        foreign_keys: Set::new(
            |x: ForeignKeyView|
                table.foreign_keys.contains(x) || (among(added, n, x) && !existing.contains(x)),
        ),
        ..table
    }
}

/// The foreign-key additions of a table take it to `after_foreign_key_additions`.
pub proof fn lemma_foreign_key_additions_effect(
    table: TableModel,
    name: Name,
    added: Seq<ForeignKeyView>,
    existing: Seq<ForeignKeyView>,
)
    ensures
        entry_after(
            Some(table),
            foreign_key_additions_in(name, added, existing, added.len()),
            name,
        ) == Some(after_foreign_key_additions(table, added, existing, added.len() as int)),
{
    let state = |j: int| Some(after_foreign_key_additions(table, added, existing, j));
    let part = |j: int|
        if existing.contains(added[j]) {
            Seq::empty()
        } else {
            seq![DiffStepView::AddForeignKey { table: name, foreign_key: added[j] }]
        };
    assert forall|j: int| 0 <= j < added.len() implies entry_after(
        state(j),
        #[trigger] part(j),
        name,
    ) == state(j + 1) by {
        let step = DiffStepView::AddForeignKey { table: name, foreign_key: added[j] };
        lemma_entry_after_one(state(j), step, name);
        let now = after_foreign_key_additions(table, added, existing, j);
        let next = after_foreign_key_additions(table, added, existing, j + 1);
        assert forall|x: ForeignKeyView| among(added, j + 1, x) == (among(added, j, x) || x
            == added[j]) by {
            lemma_among_next(added, j, x);
        }
        if existing.contains(added[j]) {
            assert(next.foreign_keys =~= now.foreign_keys);
        } else {
            assert(next.foreign_keys =~= now.foreign_keys.insert(added[j]));
        }
    }
    lemma_entry_after_stepwise(state, part, added.len(), name);
    assert(after_foreign_key_additions(table, added, existing, 0).foreign_keys
        =~= table.foreign_keys);
}

/// Whether one of the first `n` of `dropped` is called `name` and is not in `kept`.
pub open spec fn index_dropped(
    dropped: Seq<IndexView>,
    kept: Seq<IndexView>,
    n: int,
    name: Name,
) -> bool {
    exists|y: int|
        0 <= y < n && y < dropped.len() && (#[trigger] dropped[y]).name == name && !kept.contains(
            dropped[y],
        )
}

/// The table once the indexes among the first `n` of `dropped` that `kept` lacks are gone.
pub open spec fn after_index_drops(
    table: TableModel,
    dropped: Seq<IndexView>,
    kept: Seq<IndexView>,
    n: int,
) -> TableModel {
    TableModel {
        indexes: Map::new(
            |k: Name| table.indexes.contains_key(k) && !index_dropped(dropped, kept, n, k),
            |k: Name| table.indexes[k],
        ),
        ..table
    }
}

/// The index drops of a table take it to `after_index_drops`.
pub proof fn lemma_index_drops_effect(
    table: TableModel,
    name: Name,
    dropped: Seq<IndexView>,
    kept: Seq<IndexView>,
)
    ensures
        entry_after(Some(table), index_drops_in(name, dropped, kept, dropped.len()), name)
            == Some(after_index_drops(table, dropped, kept, dropped.len() as int)),
{
    let state = |j: int| Some(after_index_drops(table, dropped, kept, j));
    let part = |j: int|
        if kept.contains(dropped[j]) {
            Seq::empty()
        } else {
            seq![DiffStepView::DropIndex { table: name, index: dropped[j].name }]
        };
    assert forall|j: int| 0 <= j < dropped.len() implies entry_after(
        state(j),
        #[trigger] part(j),
        name,
    ) == state(j + 1) by {
        let step = DiffStepView::DropIndex { table: name, index: dropped[j].name };
        lemma_entry_after_one(state(j), step, name);
        let now = after_index_drops(table, dropped, kept, j);
        let next = after_index_drops(table, dropped, kept, j + 1);
        assert forall|k: Name| index_dropped(dropped, kept, j + 1, k) == (index_dropped(
            dropped,
            kept,
            j,
            k,
        ) || (dropped[j].name == k && !kept.contains(dropped[j]))) by {
            if index_dropped(dropped, kept, j + 1, k) {
                let y = choose|y: int|
                    0 <= y < j + 1 && y < dropped.len() && (#[trigger] dropped[y]).name == k
                        && !kept.contains(dropped[y]);
                if y < j {
                    assert(dropped[y].name == k);
                }
            }
            if index_dropped(dropped, kept, j, k) {
                let y = choose|y: int|
                    0 <= y < j && y < dropped.len() && (#[trigger] dropped[y]).name == k
                        && !kept.contains(dropped[y]);
                assert(dropped[y].name == k);
            }
            if dropped[j].name == k && !kept.contains(dropped[j]) {
                assert(dropped[j].name == k);
            }
        }
        if kept.contains(dropped[j]) {
            assert(next.indexes =~= now.indexes);
        } else {
            assert(next.indexes =~= now.indexes.remove(dropped[j].name));
        }
    }
    lemma_entry_after_stepwise(state, part, dropped.len(), name);
    assert(after_index_drops(table, dropped, kept, 0).indexes =~= table.indexes);
}

/// Whether one of the first `n` of `created` is called `name` and is not in `existing`.
pub open spec fn index_created(
    created: Seq<IndexView>,
    existing: Seq<IndexView>,
    n: int,
    name: Name,
) -> bool {
    exists|y: int|
        0 <= y < n && y < created.len() && (#[trigger] created[y]).name == name
            && !existing.contains(created[y])
}

/// The table once the indexes among the first `n` of `created` that `existing` lacks are there.
pub open spec fn after_index_creations(
    table: TableModel,
    created: Seq<IndexView>,
    existing: Seq<IndexView>,
    n: int,
) -> TableModel {
    TableModel {
        indexes: Map::new(
            |k: Name| table.indexes.contains_key(k) || index_created(created, existing, n, k),
            |k: Name|
                if index_created(created, existing, n, k) {
                    created[find_index(created, k).unwrap()]
                } else {
                    table.indexes[k]
                },
        ),
        ..table
    }
}

/// Where the names of `indexes` are distinct, each index is found at its own position.
pub proof fn lemma_find_index_at(indexes: Seq<IndexView>, i: int)
    requires
        index_names(indexes).no_duplicates(),
        0 <= i < indexes.len(),
    ensures
        find_index(indexes, indexes[i].name) == Some(i),
{
    let names = index_names(indexes);
    names.index_of_first_ensures(indexes[i].name);
    assert(names[i] == indexes[i].name);
    match find_index(indexes, indexes[i].name) {
        Some(k) => {
            assert(names[k] == names[i]);
        },
        None => {},
    }
}

/// The index creations of a table take it to `after_index_creations`.
pub proof fn lemma_index_creations_effect(
    table: TableModel,
    name: Name,
    created: Seq<IndexView>,
    existing: Seq<IndexView>,
)
    requires
        index_names(created).no_duplicates(),
    ensures
        entry_after(
            Some(table),
            index_creations_in(name, created, existing, created.len()),
            name,
        ) == Some(after_index_creations(table, created, existing, created.len() as int)),
{
    let state = |j: int| Some(after_index_creations(table, created, existing, j));
    let part = |j: int|
        if existing.contains(created[j]) {
            Seq::empty()
        } else {
            seq![DiffStepView::CreateIndex { table: name, index: created[j] }]
        };
    assert forall|j: int| 0 <= j < created.len() implies entry_after(
        state(j),
        #[trigger] part(j),
        name,
    ) == state(j + 1) by {
        let step = DiffStepView::CreateIndex { table: name, index: created[j] };
        lemma_entry_after_one(state(j), step, name);
        let now = after_index_creations(table, created, existing, j);
        let next = after_index_creations(table, created, existing, j + 1);
        assert forall|k: Name| index_created(created, existing, j + 1, k) == (index_created(
            created,
            existing,
            j,
            k,
        ) || (created[j].name == k && !existing.contains(created[j]))) by {
            if index_created(created, existing, j + 1, k) {
                let y = choose|y: int|
                    0 <= y < j + 1 && y < created.len() && (#[trigger] created[y]).name == k
                        && !existing.contains(created[y]);
                if y < j {
                    assert(created[y].name == k);
                }
            }
            if index_created(created, existing, j, k) {
                let y = choose|y: int|
                    0 <= y < j && y < created.len() && (#[trigger] created[y]).name == k
                        && !existing.contains(created[y]);
                assert(created[y].name == k);
            }
            if created[j].name == k && !existing.contains(created[j]) {
                assert(created[j].name == k);
            }
        }
        lemma_find_index_at(created, j);
        if existing.contains(created[j]) {
            assert(next.indexes =~= now.indexes);
        } else {
            assert(next.indexes =~= now.indexes.insert(created[j].name, created[j]));
        }
    }
    lemma_entry_after_stepwise(state, part, created.len(), name);
    assert(after_index_creations(table, created, existing, 0).indexes =~= table.indexes);
}

/// The table once the columns among the first `n` of `previous` whose name no column of `next`
/// bears are gone.
pub open spec fn after_column_drops(
    table: TableModel,
    previous: Seq<ColumnView>,
    next: Seq<ColumnView>,
    n: int,
) -> TableModel {
    TableModel {
        columns: Map::new(
            |k: Name|
                table.columns.contains_key(k) && !(among(column_names(previous), n, k)
                    && !column_names(next).contains(k)),
            |k: Name| table.columns[k],
        ),
        ..table
    }
}

/// The column drops of a table take it to `after_column_drops`.
pub proof fn lemma_column_drops_effect(
    table: TableModel,
    name: Name,
    previous: Seq<ColumnView>,
    next: Seq<ColumnView>,
)
    ensures
        entry_after(Some(table), column_drops_in(name, previous, next, previous.len()), name)
            == Some(after_column_drops(table, previous, next, previous.len() as int)),
{
    let state = |j: int| Some(after_column_drops(table, previous, next, j));
    let part = |j: int|
        if column_names(next).contains(previous[j].name) {
            Seq::empty()
        } else {
            seq![DiffStepView::DropColumn { table: name, column: previous[j].name }]
        };
    assert forall|j: int| 0 <= j < previous.len() implies entry_after(
        state(j),
        #[trigger] part(j),
        name,
    ) == state(j + 1) by {
        let step = DiffStepView::DropColumn { table: name, column: previous[j].name };
        lemma_entry_after_one(state(j), step, name);
        let now = after_column_drops(table, previous, next, j);
        let after = after_column_drops(table, previous, next, j + 1);
        assert forall|k: Name| among(column_names(previous), j + 1, k) == (among(
            column_names(previous),
            j,
            k,
        ) || k == previous[j].name) by {
            lemma_among_next(column_names(previous), j, k);
        }
        if column_names(next).contains(previous[j].name) {
            assert(after.columns =~= now.columns);
        } else {
            assert(after.columns =~= now.columns.remove(previous[j].name));
        }
    }
    lemma_entry_after_stepwise(state, part, previous.len(), name);
    assert(after_column_drops(table, previous, next, 0).columns =~= table.columns);
}

/// Whether one of the first `n` columns of `next` is called `name` and is added or altered.
pub open spec fn column_changed(
    previous: Seq<ColumnView>,
    next: Seq<ColumnView>,
    features: MigrationFeatures,
    n: int,
    name: Name,
) -> bool {
    exists|y: int|
        0 <= y < n && y < next.len() && (#[trigger] next[y]).name == name && !column_kept(
            previous,
            next[y],
            features,
        )
}

/// Whether `column` has a namesake in `previous` that matches it.
pub open spec fn column_kept(
    previous: Seq<ColumnView>,
    column: ColumnView,
    features: MigrationFeatures,
) -> bool {
    match find_column(previous, column.name) {
        None => false,
        Some(k) => columns_match(previous[k], column, features),
    }
}

/// The table once the first `n` columns of `next` are added or altered where they have to be.
pub open spec fn after_column_changes(
    table: TableModel,
    previous: Seq<ColumnView>,
    next: Seq<ColumnView>,
    features: MigrationFeatures,
    n: int,
) -> TableModel {
    TableModel {
        columns: Map::new(
            |k: Name|
                table.columns.contains_key(k) || column_changed(previous, next, features, n, k),
            |k: Name|
                if column_changed(previous, next, features, n, k) {
                    next[find_column(next, k).unwrap()]
                } else {
                    table.columns[k]
                },
        ),
        ..table
    }
}

/// The column additions and alterations of a table take it to `after_column_changes`.
pub proof fn lemma_column_changes_effect(
    table: TableModel,
    name: Name,
    previous: Seq<ColumnView>,
    next: Seq<ColumnView>,
    features: MigrationFeatures,
)
    requires
        column_names(next).no_duplicates(),
    ensures
        entry_after(
            Some(table),
            column_changes_in(name, previous, next, features, next.len()),
            name,
        ) == Some(after_column_changes(table, previous, next, features, next.len() as int)),
{
    let state = |j: int| Some(after_column_changes(table, previous, next, features, j));
    let part = |j: int| column_change(name, previous, next[j], features);
    assert forall|j: int| 0 <= j < next.len() implies entry_after(
        state(j),
        #[trigger] part(j),
        name,
    ) == state(j + 1) by {
        let now = after_column_changes(table, previous, next, features, j);
        let after = after_column_changes(table, previous, next, features, j + 1);
        assert forall|k: Name| column_changed(previous, next, features, j + 1, k) == (
        column_changed(previous, next, features, j, k) || (next[j].name == k && !column_kept(
            previous,
            next[j],
            features,
        ))) by {
            if column_changed(previous, next, features, j + 1, k) {
                let y = choose|y: int|
                    0 <= y < j + 1 && y < next.len() && (#[trigger] next[y]).name == k
                        && !column_kept(previous, next[y], features);
                if y < j {
                    assert(next[y].name == k);
                }
            }
            if column_changed(previous, next, features, j, k) {
                let y = choose|y: int|
                    0 <= y < j && y < next.len() && (#[trigger] next[y]).name == k && !column_kept(
                        previous,
                        next[y],
                        features,
                    );
                assert(next[y].name == k);
            }
            if next[j].name == k && !column_kept(previous, next[j], features) {
                assert(next[j].name == k);
            }
        }
        crate::convergence::lemma_find_column_at(next, j);
        match find_column(previous, next[j].name) {
            None => {
                let step = DiffStepView::AddColumn { table: name, column: next[j] };
                lemma_entry_after_one(state(j), step, name);
                assert(after.columns =~= now.columns.insert(next[j].name, next[j]));
            },
            Some(k) => {
                if columns_match(previous[k], next[j], features) {
                    assert(after.columns =~= now.columns);
                } else {
                    let step = DiffStepView::AlterColumn {
                        table: name,
                        previous: previous[k],
                        next: next[j],
                    };
                    lemma_entry_after_one(state(j), step, name);
                    assert(after.columns =~= now.columns.insert(next[j].name, next[j]));
                }
            },
        }
    }
    lemma_entry_after_stepwise(state, part, next.len(), name);
    assert(after_column_changes(table, previous, next, features, 0).columns =~= table.columns);
}

} // verus!
