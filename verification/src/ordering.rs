//! The order of the steps of a plan.
use crate::differ::{
    column_change, column_changes, column_changes_in, column_changes_of, column_drops_in,
    concat_prefix, created_table, drops_column, find_table, foreign_key_additions,
    foreign_key_additions_in, foreign_key_additions_of, foreign_key_drops, foreign_key_drops_in,
    foreign_key_drops_of, index_creations, index_creations_in, index_creations_of, index_drops,
    index_drops_in, index_drops_of, needs_redefine, spec_diff, table_creations, table_drops,
    DiffStepView,
};
use crate::differ::{
    all_in, alters_column, column_altered, foreign_keys_differ, key_rebuild_of, key_rebuilds,
    references_dropped, table_changes, without_foreign_keys,
};
use crate::features::MigrationFeatures;
use crate::schema::{column_names, ColumnView, ForeignKeyView, IndexView, Name, SqlSchemaView, TableView};
use vstd::prelude::*;

verus! {

/// The pass of a plan that a step belongs to.
pub open spec fn pass_of(step: DiffStepView) -> int {
    match step {
        DiffStepView::DropForeignKey { .. } => 0,
        DiffStepView::DropIndex { .. } => 1,
        DiffStepView::CreateTable { .. } => 2,
        DiffStepView::AddColumn { .. } => 3,
        DiffStepView::DropColumn { .. } => 3,
        DiffStepView::AlterColumn { .. } => 3,
        DiffStepView::RedefineTable { .. } => 3,
        DiffStepView::DropTable { .. } => 4,
        DiffStepView::CreateIndex { .. } => 5,
        DiffStepView::AddForeignKey { .. } => 6,
    }
}

/// Whether every element of `s` meets `pred`.
pub open spec fn all_meet<A>(s: Seq<A>, pred: spec_fn(A) -> bool) -> bool {
    forall|k: int| 0 <= k < s.len() ==> pred(#[trigger] s[k])
}

/// What holds of every element of every part holds of every element of the concatenation.
pub proof fn lemma_concat_prefix_all<A>(
    part: spec_fn(int) -> Seq<A>,
    n: nat,
    pred: spec_fn(A) -> bool,
)
    requires
        forall|i: int| 0 <= i < n ==> all_meet(#[trigger] part(i), pred),
    ensures
        all_meet(concat_prefix(part, n), pred),
    decreases n,
{
    if n > 0 {
        lemma_concat_prefix_all(part, (n - 1) as nat, pred);
        assert(all_meet(part(n - 1), pred));
    }
}

/// A step whose pass is `pass`.
pub open spec fn in_pass(pass: int) -> spec_fn(DiffStepView) -> bool {
    |step: DiffStepView| pass_of(step) == pass
}

proof fn lemma_foreign_key_drops_in_pass(
    table: Name,
    dropped: Seq<ForeignKeyView>,
    kept: Seq<ForeignKeyView>,
)
    ensures
        all_meet(foreign_key_drops_in(table, dropped, kept, dropped.len()), in_pass(0)),
{
    let part = |j: int|
        if kept.contains(dropped[j]) {
            Seq::empty()
        } else {
            seq![DiffStepView::DropForeignKey { table, foreign_key: dropped[j] }]
        };
    assert forall|j: int| 0 <= j < dropped.len() implies all_meet(
        #[trigger] part(j),
        in_pass(0),
    ) by {}
    lemma_concat_prefix_all(part, dropped.len(), in_pass(0));
}

proof fn lemma_foreign_key_drops_pass(
    from: Seq<TableView>,
    to: Seq<TableView>,
    features: MigrationFeatures,
    n: nat,
)
    ensures
        all_meet(foreign_key_drops(from, to, features, n), in_pass(0)),
{
    let part = |i: int| foreign_key_drops_of(from[i], to, features);
    assert forall|i: int| 0 <= i < n implies all_meet(#[trigger] part(i), in_pass(0)) by {
        match find_table(to, from[i].name) {
            Some(k) => lemma_foreign_key_drops_in_pass(
                from[i].name,
                from[i].foreign_keys,
                to[k].foreign_keys,
            ),
            None => lemma_foreign_key_drops_in_pass(
                from[i].name,
                from[i].foreign_keys,
                Seq::empty(),
            ),
        }
    }
    lemma_concat_prefix_all(part, n, in_pass(0));
}

proof fn lemma_index_drops_in_pass(table: Name, dropped: Seq<IndexView>, kept: Seq<IndexView>)
    ensures
        all_meet(index_drops_in(table, dropped, kept, dropped.len()), in_pass(1)),
{
    let part = |j: int|
        if kept.contains(dropped[j]) {
            Seq::empty()
        } else {
            seq![DiffStepView::DropIndex { table, index: dropped[j].name }]
        };
    assert forall|j: int| 0 <= j < dropped.len() implies all_meet(
        #[trigger] part(j),
        in_pass(1),
    ) by {}
    lemma_concat_prefix_all(part, dropped.len(), in_pass(1));
}

proof fn lemma_index_drops_pass(
    from: Seq<TableView>,
    to: Seq<TableView>,
    features: MigrationFeatures,
    n: nat,
)
    ensures
        all_meet(index_drops(from, to, features, n), in_pass(1)),
{
    let part = |i: int| index_drops_of(from[i], to, features);
    assert forall|i: int| 0 <= i < n implies all_meet(#[trigger] part(i), in_pass(1)) by {
        match find_table(to, from[i].name) {
            Some(k) => lemma_index_drops_in_pass(from[i].name, from[i].indexes, to[k].indexes),
            None => {},
        }
    }
    lemma_concat_prefix_all(part, n, in_pass(1));
}

proof fn lemma_table_drops_pass(from: Seq<TableView>, to: Seq<TableView>, n: nat)
    ensures
        all_meet(table_drops(from, to, n), in_pass(4)),
{
    let part = |i: int|
        if find_table(to, from[i].name) is None {
            seq![DiffStepView::DropTable { table: from[i].name }]
        } else {
            Seq::empty()
        };
    assert forall|i: int| 0 <= i < n implies all_meet(#[trigger] part(i), in_pass(4)) by {}
    lemma_concat_prefix_all(part, n, in_pass(4));
}

proof fn lemma_table_creations_pass(
    from: Seq<TableView>,
    to: Seq<TableView>,
    features: MigrationFeatures,
    n: nat,
)
    ensures
        all_meet(table_creations(from, to, features, n), in_pass(2)),
{
    let part = |i: int|
        if find_table(from, to[i].name) is None {
            seq![DiffStepView::CreateTable { table: created_table(to[i], features) }]
        } else {
            Seq::empty()
        };
    assert forall|i: int| 0 <= i < n implies all_meet(#[trigger] part(i), in_pass(2)) by {}
    lemma_concat_prefix_all(part, n, in_pass(2));
}

proof fn lemma_column_drops_in_meet(
    table: Name,
    previous: Seq<ColumnView>,
    next: Seq<ColumnView>,
    pred: spec_fn(DiffStepView) -> bool,
)
    requires
        forall|j: int|
            0 <= j < previous.len() && !column_names(next).contains(
                #[trigger] previous[j].name,
            ) ==> pred(DiffStepView::DropColumn { table, column: previous[j].name }),
    ensures
        all_meet(column_drops_in(table, previous, next, previous.len()), pred),
{
    let part = |j: int|
        if column_names(next).contains(previous[j].name) {
            Seq::empty()
        } else {
            seq![DiffStepView::DropColumn { table, column: previous[j].name }]
        };
    assert forall|j: int| 0 <= j < previous.len() implies all_meet(#[trigger] part(j), pred) by {
        if !column_names(next).contains(previous[j].name) {
            assert(pred(DiffStepView::DropColumn { table, column: previous[j].name }));
        }
    }
    lemma_concat_prefix_all(part, previous.len(), pred);
}

proof fn lemma_column_changes_in_meet(
    table: Name,
    previous: Seq<ColumnView>,
    next: Seq<ColumnView>,
    features: MigrationFeatures,
    pred: spec_fn(DiffStepView) -> bool,
)
    requires
        forall|step: DiffStepView| step is AddColumn ==> #[trigger] pred(step),
        forall|j: int|
            0 <= j < next.len() && column_altered(previous, #[trigger] next[j], features)
                ==> forall|step: DiffStepView| step is AlterColumn ==> #[trigger] pred(step),
    ensures
        all_meet(column_changes_in(table, previous, next, features, next.len()), pred),
{
    let part = |j: int| column_change(table, previous, next[j], features);
    assert forall|j: int| 0 <= j < next.len() implies all_meet(#[trigger] part(j), pred) by {
        if column_altered(previous, next[j], features) {
            assert(forall|step: DiffStepView| step is AlterColumn ==> #[trigger] pred(step));
        }
    }
    lemma_concat_prefix_all(part, next.len(), pred);
}

/// What holds of the steps that a backend supports holds of the whole column pass: of every
/// addition and every rebuild, of every alteration where the backend can alter columns, and
/// of every column drop where the backend can drop columns.
proof fn lemma_column_changes_meet(
    from: Seq<TableView>,
    to: Seq<TableView>,
    features: MigrationFeatures,
    n: nat,
    pred: spec_fn(DiffStepView) -> bool,
)
    requires
        forall|step: DiffStepView|
            (step is AddColumn || step is RedefineTable) ==> #[trigger] pred(step),
        features.column_alter ==> forall|step: DiffStepView|
            step is AlterColumn ==> #[trigger] pred(step),
        features.column_drop ==> forall|step: DiffStepView|
            step is DropColumn ==> #[trigger] pred(step),
    ensures
        all_meet(column_changes(from, to, features, n), pred),
{
    let part = |i: int| column_changes_of(from, to[i], features);
    assert forall|i: int| 0 <= i < n implies all_meet(#[trigger] part(i), pred) by {
        match find_table(from, to[i].name) {
            None => {},
            Some(k) => {
                if !needs_redefine(from[k], to[i], features) {
                    let drops = column_drops_in(
                        to[i].name,
                        from[k].columns,
                        to[i].columns,
                        from[k].columns.len(),
                    );
                    let changes = column_changes_in(
                        to[i].name,
                        from[k].columns,
                        to[i].columns,
                        features,
                        to[i].columns.len(),
                    );
                    assert forall|j: int|
                        0 <= j < from[k].columns.len() && !column_names(to[i].columns).contains(
                            #[trigger] from[k].columns[j].name,
                        ) implies pred(
                        DiffStepView::DropColumn {
                            table: to[i].name,
                            column: from[k].columns[j].name,
                        },
                    ) by {
                        assert(drops_column(from[k], to[i]));
                    }
                    lemma_column_drops_in_meet(to[i].name, from[k].columns, to[i].columns, pred);
                    assert forall|j: int|
                        0 <= j < to[i].columns.len() && column_altered(
                            from[k].columns,
                            #[trigger] to[i].columns[j],
                            features,
                        ) implies forall|step: DiffStepView|
                        step is AlterColumn ==> #[trigger] pred(step) by {
                        assert(alters_column(from[k], to[i], features));
                    }
                    lemma_column_changes_in_meet(
                        to[i].name,
                        from[k].columns,
                        to[i].columns,
                        features,
                        pred,
                    );
                    assert(all_meet(drops + changes, pred)) by {
                        assert forall|x: int| 0 <= x < (drops + changes).len() implies pred(
                            #[trigger] (drops + changes)[x],
                        ) by {
                            if x < drops.len() {
                                assert((drops + changes)[x] == drops[x]);
                            } else {
                                assert((drops + changes)[x] == changes[x - drops.len()]);
                            }
                        }
                    }
                }
            },
        }
    }
    lemma_concat_prefix_all(part, n, pred);
}

/// What holds of the steps that a backend supports holds of every step that changes a table.
proof fn lemma_table_changes_meet(
    from: Seq<TableView>,
    to: Seq<TableView>,
    features: MigrationFeatures,
    pred: spec_fn(DiffStepView) -> bool,
)
    requires
        forall|step: DiffStepView|
            (step is AddColumn || step is RedefineTable) ==> #[trigger] pred(step),
        features.column_alter ==> forall|step: DiffStepView|
            step is AlterColumn ==> #[trigger] pred(step),
        features.column_drop ==> forall|step: DiffStepView|
            step is DropColumn ==> #[trigger] pred(step),
    ensures
        all_meet(table_changes(from, to, features), pred),
{
    lemma_column_changes_meet(from, to, features, to.len(), pred);
    let part = |i: int| key_rebuild_of(from[i], to, features);
    assert forall|i: int| 0 <= i < from.len() implies all_meet(#[trigger] part(i), pred) by {}
    lemma_concat_prefix_all(part, from.len(), pred);
    let columns = column_changes(from, to, features, to.len());
    let rebuilds = key_rebuilds(from, to, features, from.len());
    assert forall|x: int| 0 <= x < (columns + rebuilds).len() implies pred(
        #[trigger] (columns + rebuilds)[x],
    ) by {
        if x < columns.len() {
            assert((columns + rebuilds)[x] == columns[x]);
        } else {
            assert((columns + rebuilds)[x] == rebuilds[x - columns.len()]);
        }
    }
}

proof fn lemma_index_creations_in_pass(
    table: Name,
    created: Seq<IndexView>,
    existing: Seq<IndexView>,
)
    ensures
        all_meet(index_creations_in(table, created, existing, created.len()), in_pass(5)),
{
    let part = |j: int|
        if existing.contains(created[j]) {
            Seq::empty()
        } else {
            seq![DiffStepView::CreateIndex { table, index: created[j] }]
        };
    assert forall|j: int| 0 <= j < created.len() implies all_meet(
        #[trigger] part(j),
        in_pass(5),
    ) by {}
    lemma_concat_prefix_all(part, created.len(), in_pass(5));
}

proof fn lemma_index_creations_pass(
    from: Seq<TableView>,
    to: Seq<TableView>,
    features: MigrationFeatures,
    n: nat,
)
    ensures
        all_meet(index_creations(from, to, features, n), in_pass(5)),
{
    let part = |i: int| index_creations_of(from, to[i], features);
    assert forall|i: int| 0 <= i < n implies all_meet(#[trigger] part(i), in_pass(5)) by {
        match find_table(from, to[i].name) {
            Some(k) => lemma_index_creations_in_pass(to[i].name, to[i].indexes, from[k].indexes),
            None => lemma_index_creations_in_pass(to[i].name, to[i].indexes, Seq::empty()),
        }
    }
    lemma_concat_prefix_all(part, n, in_pass(5));
}

proof fn lemma_foreign_key_additions_in_pass(
    table: Name,
    added: Seq<ForeignKeyView>,
    existing: Seq<ForeignKeyView>,
)
    ensures
        all_meet(foreign_key_additions_in(table, added, existing, added.len()), in_pass(6)),
{
    let part = |j: int|
        if existing.contains(added[j]) {
            Seq::empty()
        } else {
            seq![DiffStepView::AddForeignKey { table, foreign_key: added[j] }]
        };
    assert forall|j: int| 0 <= j < added.len() implies all_meet(
        #[trigger] part(j),
        in_pass(6),
    ) by {}
    lemma_concat_prefix_all(part, added.len(), in_pass(6));
}

proof fn lemma_foreign_key_additions_pass(
    from: Seq<TableView>,
    to: Seq<TableView>,
    features: MigrationFeatures,
    n: nat,
)
    ensures
        all_meet(foreign_key_additions(from, to, features, n), in_pass(6)),
{
    let part = |i: int| foreign_key_additions_of(from, to[i], features);
    assert forall|i: int| 0 <= i < n implies all_meet(#[trigger] part(i), in_pass(6)) by {
        match find_table(from, to[i].name) {
            Some(k) => lemma_foreign_key_additions_in_pass(
                to[i].name,
                to[i].foreign_keys,
                from[k].foreign_keys,
            ),
            None => lemma_foreign_key_additions_in_pass(
                to[i].name,
                to[i].foreign_keys,
                Seq::empty(),
            ),
        }
    }
    lemma_concat_prefix_all(part, n, in_pass(6));
}

/// The steps of a plan come pass by pass: a step never precedes one of an earlier pass.
pub proof fn lemma_plan_is_ordered(
    from: SqlSchemaView,
    to: SqlSchemaView,
    features: MigrationFeatures,
    i: int,
    j: int,
)
    requires
        0 <= i <= j < spec_diff(from, to, features).len(),
    ensures
        pass_of(spec_diff(from, to, features)[i]) <= pass_of(spec_diff(from, to, features)[j]),
{
    lemma_foreign_key_drops_pass(from.tables, to.tables, features, from.tables.len());
    lemma_index_drops_pass(from.tables, to.tables, features, from.tables.len());
    lemma_table_drops_pass(from.tables, to.tables, from.tables.len());
    lemma_table_creations_pass(from.tables, to.tables, features, to.tables.len());
    lemma_table_changes_meet(from.tables, to.tables, features, in_pass(3));
    lemma_index_creations_pass(from.tables, to.tables, features, to.tables.len());
    lemma_foreign_key_additions_pass(from.tables, to.tables, features, to.tables.len());
    let seg0 = foreign_key_drops(from.tables, to.tables, features, from.tables.len());
    let seg1 = index_drops(from.tables, to.tables, features, from.tables.len());
    let seg2 = table_creations(from.tables, to.tables, features, to.tables.len());
    let seg3 = table_changes(from.tables, to.tables, features);
    let seg4 = table_drops(from.tables, to.tables, from.tables.len());
    let seg5 = index_creations(from.tables, to.tables, features, to.tables.len());
    let seg6 = foreign_key_additions(from.tables, to.tables, features, to.tables.len());
    let d = spec_diff(from, to, features);
    assert(d == seg0 + seg1 + seg2 + seg3 + seg4 + seg5 + seg6);
    lemma_pass_at(seg0, seg1, seg2, seg3, seg4, seg5, seg6, i);
    lemma_pass_at(seg0, seg1, seg2, seg3, seg4, seg5, seg6, j);
}

/// Where each of seven sequences holds the steps of one pass, the pass of the step at `x` of
/// their concatenation tells which of them `x` falls into.
proof fn lemma_pass_at(
    seg0: Seq<DiffStepView>,
    seg1: Seq<DiffStepView>,
    seg2: Seq<DiffStepView>,
    seg3: Seq<DiffStepView>,
    seg4: Seq<DiffStepView>,
    seg5: Seq<DiffStepView>,
    seg6: Seq<DiffStepView>,
    x: int,
)
    requires
        all_meet(seg0, in_pass(0)),
        all_meet(seg1, in_pass(1)),
        all_meet(seg2, in_pass(2)),
        all_meet(seg3, in_pass(3)),
        all_meet(seg4, in_pass(4)),
        all_meet(seg5, in_pass(5)),
        all_meet(seg6, in_pass(6)),
        0 <= x < (seg0 + seg1 + seg2 + seg3 + seg4 + seg5 + seg6).len(),
    ensures
        ({
            let d = seg0 + seg1 + seg2 + seg3 + seg4 + seg5 + seg6;
            let l0 = seg0.len();
            let l1 = l0 + seg1.len();
            let l2 = l1 + seg2.len();
            let l3 = l2 + seg3.len();
            let l4 = l3 + seg4.len();
            let l5 = l4 + seg5.len();
            &&& x < l0 ==> pass_of(d[x]) == 0
            &&& l0 <= x < l1 ==> pass_of(d[x]) == 1
            &&& l1 <= x < l2 ==> pass_of(d[x]) == 2
            &&& l2 <= x < l3 ==> pass_of(d[x]) == 3
            &&& l3 <= x < l4 ==> pass_of(d[x]) == 4
            &&& l4 <= x < l5 ==> pass_of(d[x]) == 5
            &&& l5 <= x ==> pass_of(d[x]) == 6
        }),
{
    let d = seg0 + seg1 + seg2 + seg3 + seg4 + seg5 + seg6;
    let l0 = seg0.len();
    let l1 = l0 + seg1.len();
    let l2 = l1 + seg2.len();
    let l3 = l2 + seg3.len();
    let l4 = l3 + seg4.len();
    let l5 = l4 + seg5.len();
    if x < l0 {
        assert(d[x] == seg0[x]);
    } else if x < l1 {
        assert(d[x] == seg1[x - l0]);
    } else if x < l2 {
        assert(d[x] == seg2[x - l1]);
    } else if x < l3 {
        assert(d[x] == seg3[x - l2]);
    } else if x < l4 {
        assert(d[x] == seg4[x - l3]);
    } else if x < l5 {
        assert(d[x] == seg5[x - l4]);
    } else {
        assert(d[x] == seg6[x - l5]);
    }
}

/// Every table is created, and every column added, before any foreign key is added: a foreign
/// key never refers to a table or column that a later step brings.
pub proof fn lemma_creations_precede_foreign_keys(
    from: SqlSchemaView,
    to: SqlSchemaView,
    features: MigrationFeatures,
    creation: int,
    addition: int,
)
    requires
        0 <= creation < spec_diff(from, to, features).len(),
        0 <= addition < spec_diff(from, to, features).len(),
        spec_diff(from, to, features)[creation] is CreateTable || spec_diff(
            from,
            to,
            features,
        )[creation] is AddColumn || spec_diff(from, to, features)[creation] is RedefineTable,
        spec_diff(from, to, features)[addition] is AddForeignKey,
    ensures
        creation < addition,
{
    if addition <= creation {
        lemma_plan_is_ordered(from, to, features, addition, creation);
    }
}

/// Every foreign key is dropped before any table or column is dropped or rebuilt: no drop
/// meets a foreign key that an earlier step should have removed.
pub proof fn lemma_foreign_key_drops_precede_drops(
    from: SqlSchemaView,
    to: SqlSchemaView,
    features: MigrationFeatures,
    key_drop: int,
    drop: int,
)
    requires
        0 <= key_drop < spec_diff(from, to, features).len(),
        0 <= drop < spec_diff(from, to, features).len(),
        spec_diff(from, to, features)[key_drop] is DropForeignKey,
        spec_diff(from, to, features)[drop] is DropTable || spec_diff(
            from,
            to,
            features,
        )[drop] is DropColumn || spec_diff(from, to, features)[drop] is RedefineTable,
    ensures
        key_drop < drop,
{
    if drop <= key_drop {
        lemma_plan_is_ordered(from, to, features, drop, key_drop);
    }
}

/// On a backend that cannot drop columns, no step of a plan drops a column.
pub proof fn lemma_no_column_drop_without_support(
    from: SqlSchemaView,
    to: SqlSchemaView,
    features: MigrationFeatures,
    k: int,
)
    requires
        !features.column_drop,
        0 <= k < spec_diff(from, to, features).len(),
    ensures
        !(spec_diff(from, to, features)[k] is DropColumn),
{
    lemma_plan_is_supported(from, to, features, k);
}

/// What one part holds, the concatenation holds.
pub proof fn lemma_concat_prefix_member<A>(part: spec_fn(int) -> Seq<A>, n: nat, i: int, x: A)
    requires
        0 <= i < n,
        part(i).contains(x),
    ensures
        concat_prefix(part, n).contains(x),
    decreases n,
{
    let before = concat_prefix(part, (n - 1) as nat);
    if i == n - 1 {
        let last = part(i);
        let m = choose|m: int| 0 <= m < last.len() && last[m] == x;
        assert(concat_prefix(part, n)[before.len() + m] == x);
    } else {
        lemma_concat_prefix_member(part, (n - 1) as nat, i, x);
        let k = choose|k: int| 0 <= k < before.len() && before[k] == x;
        assert(concat_prefix(part, n)[k] == x);
    }
}

/// What one of seven sequences holds, their concatenation holds.
proof fn lemma_pass_member(
    seg0: Seq<DiffStepView>,
    seg1: Seq<DiffStepView>,
    seg2: Seq<DiffStepView>,
    seg3: Seq<DiffStepView>,
    seg4: Seq<DiffStepView>,
    seg5: Seq<DiffStepView>,
    seg6: Seq<DiffStepView>,
    x: DiffStepView,
)
    requires
        seg0.contains(x) || seg1.contains(x) || seg2.contains(x) || seg3.contains(x) || seg4.contains(x)
            || seg5.contains(x) || seg6.contains(x),
    ensures
        (seg0 + seg1 + seg2 + seg3 + seg4 + seg5 + seg6).contains(x),
{
    let d = seg0 + seg1 + seg2 + seg3 + seg4 + seg5 + seg6;
    let l0 = seg0.len();
    let l1 = l0 + seg1.len();
    let l2 = l1 + seg2.len();
    let l3 = l2 + seg3.len();
    let l4 = l3 + seg4.len();
    let l5 = l4 + seg5.len();
    if seg0.contains(x) {
        let m = choose|m: int| 0 <= m < seg0.len() && seg0[m] == x;
        assert(d[m] == x);
    } else if seg1.contains(x) {
        let m = choose|m: int| 0 <= m < seg1.len() && seg1[m] == x;
        assert(d[l0 + m] == x);
    } else if seg2.contains(x) {
        let m = choose|m: int| 0 <= m < seg2.len() && seg2[m] == x;
        assert(d[l1 + m] == x);
    } else if seg3.contains(x) {
        let m = choose|m: int| 0 <= m < seg3.len() && seg3[m] == x;
        assert(d[l2 + m] == x);
    } else if seg4.contains(x) {
        let m = choose|m: int| 0 <= m < seg4.len() && seg4[m] == x;
        assert(d[l3 + m] == x);
    } else if seg5.contains(x) {
        let m = choose|m: int| 0 <= m < seg5.len() && seg5[m] == x;
        assert(d[l4 + m] == x);
    } else {
        let m = choose|m: int| 0 <= m < seg6.len() && seg6[m] == x;
        assert(d[l5 + m] == x);
    }
}

/// What the column steps or the key-freeing rebuilds hold, the steps that change tables hold.
proof fn lemma_table_changes_member(
    from: Seq<TableView>,
    to: Seq<TableView>,
    features: MigrationFeatures,
    step: DiffStepView,
)
    requires
        column_changes(from, to, features, to.len()).contains(step) || key_rebuilds(
            from,
            to,
            features,
            from.len(),
        ).contains(step),
    ensures
        table_changes(from, to, features).contains(step),
{
    let columns = column_changes(from, to, features, to.len());
    let rebuilds = key_rebuilds(from, to, features, from.len());
    if columns.contains(step) {
        let m = choose|m: int| 0 <= m < columns.len() && columns[m] == step;
        assert((columns + rebuilds)[m] == step);
    } else {
        let m = choose|m: int| 0 <= m < rebuilds.len() && rebuilds[m] == step;
        assert((columns + rebuilds)[columns.len() + m] == step);
    }
}

/// On a backend that cannot drop columns, a table that stays and loses a column is rebuilt: the
/// plan holds the step that redefines it.
pub proof fn lemma_dropped_column_rebuilds_table(
    from: SqlSchemaView,
    to: SqlSchemaView,
    features: MigrationFeatures,
    i: int,
    k: int,
)
    requires
        !features.column_drop,
        0 <= i < to.tables.len(),
        find_table(from.tables, to.tables[i].name) == Some(k),
        drops_column(from.tables[k], to.tables[i]),
    ensures
        spec_diff(from, to, features).contains(
            DiffStepView::RedefineTable { previous: from.tables[k], next: to.tables[i] },
        ),
{
    let step = DiffStepView::RedefineTable { previous: from.tables[k], next: to.tables[i] };
    let part = |x: int| column_changes_of(from.tables, to.tables[x], features);
    assert(part(i) == seq![step]);
    assert(part(i)[0] == step);
    lemma_concat_prefix_member(part, to.tables.len(), i, step);
    lemma_table_changes_member(from.tables, to.tables, features, step);
    lemma_pass_member(
        foreign_key_drops(from.tables, to.tables, features, from.tables.len()),
        index_drops(from.tables, to.tables, features, from.tables.len()),
        table_creations(from.tables, to.tables, features, to.tables.len()),
        table_changes(from.tables, to.tables, features),
        table_drops(from.tables, to.tables, from.tables.len()),
        index_creations(from.tables, to.tables, features, to.tables.len()),
        foreign_key_additions(from.tables, to.tables, features, to.tables.len()),
        step,
    );
}

/// A table that only the new schema has is created by a step of the plan.
pub proof fn lemma_new_table_is_created(
    from: SqlSchemaView,
    to: SqlSchemaView,
    features: MigrationFeatures,
    i: int,
)
    requires
        0 <= i < to.tables.len(),
        find_table(from.tables, to.tables[i].name) is None,
    ensures
        spec_diff(from, to, features).contains(
            DiffStepView::CreateTable { table: created_table(to.tables[i], features) },
        ),
{
    let step = DiffStepView::CreateTable { table: created_table(to.tables[i], features) };
    let part = |x: int|
        if find_table(from.tables, to.tables[x].name) is None {
            seq![DiffStepView::CreateTable { table: created_table(to.tables[x], features) }]
        } else {
            Seq::empty()
        };
    assert(part(i)[0] == step);
    lemma_concat_prefix_member(part, to.tables.len(), i, step);
    lemma_pass_member(
        foreign_key_drops(from.tables, to.tables, features, from.tables.len()),
        index_drops(from.tables, to.tables, features, from.tables.len()),
        table_creations(from.tables, to.tables, features, to.tables.len()),
        table_changes(from.tables, to.tables, features),
        table_drops(from.tables, to.tables, from.tables.len()),
        index_creations(from.tables, to.tables, features, to.tables.len()),
        foreign_key_additions(from.tables, to.tables, features, to.tables.len()),
        step,
    );
}

/// Where the backend can add foreign keys to an existing table, each foreign key of a table
/// that only the new schema has is added by a step of the plan.
pub proof fn lemma_new_foreign_key_is_added(
    from: SqlSchemaView,
    to: SqlSchemaView,
    features: MigrationFeatures,
    i: int,
    j: int,
)
    requires
        features.foreign_key_alter,
        0 <= i < to.tables.len(),
        find_table(from.tables, to.tables[i].name) is None,
        0 <= j < to.tables[i].foreign_keys.len(),
    ensures
        spec_diff(from, to, features).contains(
            DiffStepView::AddForeignKey {
                table: to.tables[i].name,
                foreign_key: to.tables[i].foreign_keys[j],
            },
        ),
{
    let next = to.tables[i];
    let step = DiffStepView::AddForeignKey { table: next.name, foreign_key: next.foreign_keys[j] };
    let none = Seq::<ForeignKeyView>::empty();
    let inner = |y: int|
        if none.contains(next.foreign_keys[y]) {
            Seq::empty()
        } else {
            seq![DiffStepView::AddForeignKey { table: next.name, foreign_key: next.foreign_keys[y] }]
        };
    assert(inner(j)[0] == step);
    lemma_concat_prefix_member(inner, next.foreign_keys.len(), j, step);
    let part = |x: int| foreign_key_additions_of(from.tables, to.tables[x], features);
    assert(part(i) == foreign_key_additions_in(
        next.name,
        next.foreign_keys,
        none,
        next.foreign_keys.len(),
    ));
    lemma_concat_prefix_member(part, to.tables.len(), i, step);
    lemma_pass_member(
        foreign_key_drops(from.tables, to.tables, features, from.tables.len()),
        index_drops(from.tables, to.tables, features, from.tables.len()),
        table_creations(from.tables, to.tables, features, to.tables.len()),
        table_changes(from.tables, to.tables, features),
        table_drops(from.tables, to.tables, from.tables.len()),
        index_creations(from.tables, to.tables, features, to.tables.len()),
        foreign_key_additions(from.tables, to.tables, features, to.tables.len()),
        step,
    );
}

/// Whether the backend can carry out a step: it can unless the step drops a column, alters a
/// column, or adds or drops a foreign key, and the backend lacks that capability.
pub open spec fn is_supported(step: DiffStepView, features: MigrationFeatures) -> bool {
    match step {
        DiffStepView::DropColumn { .. } => features.column_drop,
        DiffStepView::AlterColumn { .. } => features.column_alter,
        DiffStepView::AddForeignKey { .. } => features.foreign_key_alter,
        DiffStepView::DropForeignKey { .. } => features.foreign_key_alter,
        _ => true,
    }
}

/// A step that a backend with `features` can carry out.
pub open spec fn supported_by(features: MigrationFeatures) -> spec_fn(DiffStepView) -> bool {
    |step: DiffStepView| is_supported(step, features)
}

/// What meets one predicate meets every predicate that follows from it.
proof fn lemma_all_meet_weaker<A>(s: Seq<A>, strong: spec_fn(A) -> bool, weak: spec_fn(A) -> bool)
    requires
        all_meet(s, strong),
        forall|x: A| #[trigger] strong(x) ==> weak(x),
    ensures
        all_meet(s, weak),
{
    assert forall|k: int| 0 <= k < s.len() implies weak(#[trigger] s[k]) by {
        assert(strong(s[k]));
    }
}

proof fn lemma_foreign_key_drops_supported(
    from: Seq<TableView>,
    to: Seq<TableView>,
    features: MigrationFeatures,
    n: nat,
)
    ensures
        all_meet(foreign_key_drops(from, to, features, n), supported_by(features)),
{
    let part = |i: int| foreign_key_drops_of(from[i], to, features);
    assert forall|i: int| 0 <= i < n implies all_meet(
        #[trigger] part(i),
        supported_by(features),
    ) by {
        match find_table(to, from[i].name) {
            Some(k) => {
                if features.foreign_key_alter {
                    lemma_foreign_key_drops_in_pass(
                        from[i].name,
                        from[i].foreign_keys,
                        to[k].foreign_keys,
                    );
                    lemma_all_meet_weaker(
                        foreign_key_drops_in(
                            from[i].name,
                            from[i].foreign_keys,
                            to[k].foreign_keys,
                            from[i].foreign_keys.len(),
                        ),
                        in_pass(0),
                        supported_by(features),
                    );
                } else if !needs_redefine(from[i], to[k], features) {
                    let dropped = from[i].foreign_keys;
                    let kept = to[k].foreign_keys;
                    let inner = |j: int|
                        if kept.contains(dropped[j]) {
                            Seq::empty()
                        } else {
                            seq![
                                DiffStepView::DropForeignKey {
                                    table: from[i].name,
                                    foreign_key: dropped[j],
                                },
                            ]
                        };
                    assert forall|j: int| 0 <= j < dropped.len() implies all_meet(
                        #[trigger] inner(j),
                        supported_by(features),
                    ) by {
                        if !kept.contains(dropped[j]) {
                            assert(!all_in(dropped, kept));
                            assert(foreign_keys_differ(from[i], to[k]));
                        }
                    }
                    lemma_concat_prefix_all(inner, dropped.len(), supported_by(features));
                }
            },
            None => {
                if features.foreign_key_alter {
                    lemma_foreign_key_drops_in_pass(
                        from[i].name,
                        from[i].foreign_keys,
                        Seq::empty(),
                    );
                    lemma_all_meet_weaker(
                        foreign_key_drops_in(
                            from[i].name,
                            from[i].foreign_keys,
                            Seq::empty(),
                            from[i].foreign_keys.len(),
                        ),
                        in_pass(0),
                        supported_by(features),
                    );
                }
            },
        }
    }
    lemma_concat_prefix_all(part, n, supported_by(features));
}

proof fn lemma_foreign_key_additions_supported(
    from: Seq<TableView>,
    to: Seq<TableView>,
    features: MigrationFeatures,
    n: nat,
)
    ensures
        all_meet(foreign_key_additions(from, to, features, n), supported_by(features)),
{
    let part = |i: int| foreign_key_additions_of(from, to[i], features);
    assert forall|i: int| 0 <= i < n implies all_meet(
        #[trigger] part(i),
        supported_by(features),
    ) by {
        match find_table(from, to[i].name) {
            Some(k) => {
                if !needs_redefine(from[k], to[i], features) {
                    let added = to[i].foreign_keys;
                    let existing = from[k].foreign_keys;
                    let inner = |j: int|
                        if existing.contains(added[j]) {
                            Seq::empty()
                        } else {
                            seq![
                                DiffStepView::AddForeignKey {
                                    table: to[i].name,
                                    foreign_key: added[j],
                                },
                            ]
                        };
                    assert forall|j: int| 0 <= j < added.len() implies all_meet(
                        #[trigger] inner(j),
                        supported_by(features),
                    ) by {
                        if !existing.contains(added[j]) {
                            assert(!all_in(added, existing));
                            assert(foreign_keys_differ(from[k], to[i]));
                        }
                    }
                    lemma_concat_prefix_all(inner, added.len(), supported_by(features));
                }
            },
            None => {
                if features.foreign_key_alter {
                    lemma_foreign_key_additions_in_pass(
                        to[i].name,
                        to[i].foreign_keys,
                        Seq::empty(),
                    );
                    lemma_all_meet_weaker(
                        foreign_key_additions_in(
                            to[i].name,
                            to[i].foreign_keys,
                            Seq::empty(),
                            to[i].foreign_keys.len(),
                        ),
                        in_pass(6),
                        supported_by(features),
                    );
                }
            },
        }
    }
    lemma_concat_prefix_all(part, n, supported_by(features));
}

/// A plan asks nothing of a backend that the backend cannot do: every step of the plan made
/// for a capability set is supported by that set. Where a capability is missing, the table
/// is rebuilt instead.
pub proof fn lemma_plan_is_supported(
    from: SqlSchemaView,
    to: SqlSchemaView,
    features: MigrationFeatures,
    k: int,
)
    requires
        0 <= k < spec_diff(from, to, features).len(),
    ensures
        is_supported(spec_diff(from, to, features)[k], features),
{
    let pred = supported_by(features);
    lemma_foreign_key_drops_supported(from.tables, to.tables, features, from.tables.len());
    lemma_index_drops_pass(from.tables, to.tables, features, from.tables.len());
    lemma_table_drops_pass(from.tables, to.tables, from.tables.len());
    lemma_table_creations_pass(from.tables, to.tables, features, to.tables.len());
    lemma_table_changes_meet(from.tables, to.tables, features, pred);
    lemma_index_creations_pass(from.tables, to.tables, features, to.tables.len());
    lemma_foreign_key_additions_supported(from.tables, to.tables, features, to.tables.len());
    let seg0 = foreign_key_drops(from.tables, to.tables, features, from.tables.len());
    let seg1 = index_drops(from.tables, to.tables, features, from.tables.len());
    let seg2 = table_creations(from.tables, to.tables, features, to.tables.len());
    let seg3 = table_changes(from.tables, to.tables, features);
    let seg4 = table_drops(from.tables, to.tables, from.tables.len());
    let seg5 = index_creations(from.tables, to.tables, features, to.tables.len());
    let seg6 = foreign_key_additions(from.tables, to.tables, features, to.tables.len());
    let d = spec_diff(from, to, features);
    assert(d == seg0 + seg1 + seg2 + seg3 + seg4 + seg5 + seg6);
    let l0 = seg0.len();
    let l1 = l0 + seg1.len();
    let l2 = l1 + seg2.len();
    let l3 = l2 + seg3.len();
    let l4 = l3 + seg4.len();
    let l5 = l4 + seg5.len();
    if k < l0 {
        assert(d[k] == seg0[k]);
        assert(pred(seg0[k]));
    } else if k < l1 {
        assert(d[k] == seg1[k - l0]);
        assert(in_pass(1)(seg1[k - l0]));
    } else if k < l2 {
        assert(d[k] == seg2[k - l1]);
        assert(in_pass(2)(seg2[k - l1]));
    } else if k < l3 {
        assert(d[k] == seg3[k - l2]);
        assert(pred(seg3[k - l2]));
    } else if k < l4 {
        assert(d[k] == seg4[k - l3]);
        assert(in_pass(4)(seg4[k - l3]));
    } else if k < l5 {
        assert(d[k] == seg5[k - l4]);
        assert(in_pass(5)(seg5[k - l4]));
    } else {
        assert(d[k] == seg6[k - l5]);
        assert(pred(seg6[k - l5]));
    }
}

/// What holds of every step of each of seven sequences holds of every step of their
/// concatenation.
proof fn lemma_segments_meet(
    seg0: Seq<DiffStepView>,
    seg1: Seq<DiffStepView>,
    seg2: Seq<DiffStepView>,
    seg3: Seq<DiffStepView>,
    seg4: Seq<DiffStepView>,
    seg5: Seq<DiffStepView>,
    seg6: Seq<DiffStepView>,
    pred: spec_fn(DiffStepView) -> bool,
)
    requires
        all_meet(seg0, pred),
        all_meet(seg1, pred),
        all_meet(seg2, pred),
        all_meet(seg3, pred),
        all_meet(seg4, pred),
        all_meet(seg5, pred),
        all_meet(seg6, pred),
    ensures
        all_meet(seg0 + seg1 + seg2 + seg3 + seg4 + seg5 + seg6, pred),
{
    let d = seg0 + seg1 + seg2 + seg3 + seg4 + seg5 + seg6;
    let l0 = seg0.len();
    let l1 = l0 + seg1.len();
    let l2 = l1 + seg2.len();
    let l3 = l2 + seg3.len();
    let l4 = l3 + seg4.len();
    let l5 = l4 + seg5.len();
    assert forall|k: int| 0 <= k < d.len() implies pred(#[trigger] d[k]) by {
        if k < l0 {
            assert(d[k] == seg0[k]);
        } else if k < l1 {
            assert(d[k] == seg1[k - l0]);
        } else if k < l2 {
            assert(d[k] == seg2[k - l1]);
        } else if k < l3 {
            assert(d[k] == seg3[k - l2]);
        } else if k < l4 {
            assert(d[k] == seg4[k - l3]);
        } else if k < l5 {
            assert(d[k] == seg5[k - l4]);
        } else {
            assert(d[k] == seg6[k - l5]);
        }
    }
}

/// A plan drops only tables that the new schema lacks.
pub proof fn lemma_dropped_table_is_gone(
    from: SqlSchemaView,
    to: SqlSchemaView,
    features: MigrationFeatures,
    drop: int,
    table: Name,
)
    requires
        0 <= drop < spec_diff(from, to, features).len(),
        spec_diff(from, to, features)[drop] == (DiffStepView::DropTable { table }),
    ensures
        find_table(to.tables, table) is None,
{
    let pred = |step: DiffStepView|
        match step {
            DiffStepView::DropTable { table } => find_table(to.tables, table) is None,
            _ => true,
        };
    let seg0 = foreign_key_drops(from.tables, to.tables, features, from.tables.len());
    let seg1 = index_drops(from.tables, to.tables, features, from.tables.len());
    let seg2 = table_creations(from.tables, to.tables, features, to.tables.len());
    let seg3 = table_changes(from.tables, to.tables, features);
    let seg4 = table_drops(from.tables, to.tables, from.tables.len());
    let seg5 = index_creations(from.tables, to.tables, features, to.tables.len());
    let seg6 = foreign_key_additions(from.tables, to.tables, features, to.tables.len());
    lemma_foreign_key_drops_pass(from.tables, to.tables, features, from.tables.len());
    lemma_index_drops_pass(from.tables, to.tables, features, from.tables.len());
    lemma_table_creations_pass(from.tables, to.tables, features, to.tables.len());
    lemma_table_changes_meet(from.tables, to.tables, features, in_pass(3));
    lemma_index_creations_pass(from.tables, to.tables, features, to.tables.len());
    lemma_foreign_key_additions_pass(from.tables, to.tables, features, to.tables.len());
    lemma_all_meet_weaker(seg0, in_pass(0), pred);
    lemma_all_meet_weaker(seg1, in_pass(1), pred);
    lemma_all_meet_weaker(seg2, in_pass(2), pred);
    lemma_all_meet_weaker(seg3, in_pass(3), pred);
    lemma_all_meet_weaker(seg5, in_pass(5), pred);
    lemma_all_meet_weaker(seg6, in_pass(6), pred);
    let part = |i: int|
        if find_table(to.tables, from.tables[i].name) is None {
            seq![DiffStepView::DropTable { table: from.tables[i].name }]
        } else {
            Seq::empty()
        };
    assert forall|i: int| 0 <= i < from.tables.len() implies all_meet(
        #[trigger] part(i),
        pred,
    ) by {}
    lemma_concat_prefix_all(part, from.tables.len(), pred);
    lemma_segments_meet(seg0, seg1, seg2, seg3, seg4, seg5, seg6, pred);
    assert(pred(spec_diff(from, to, features)[drop]));
}

/// Whether a step removes the foreign key `key` from the table called `table`: by dropping
/// the key, or by rebuilding the table under a definition that lacks it.
pub open spec fn removes_key(step: DiffStepView, table: Name, key: ForeignKeyView) -> bool {
    match step {
        DiffStepView::DropForeignKey { table: owner, foreign_key } => owner == table
            && foreign_key == key,
        DiffStepView::RedefineTable { previous, next } => previous.name == table
            && previous.foreign_keys.contains(key) && !next.foreign_keys.contains(key),
        _ => false,
    }
}

/// Once a table is dropped, no later step of the plan drops a foreign key or rebuilds a
/// table: whatever removes a key comes before every table drop.
pub proof fn lemma_nothing_removes_keys_after_a_table_drop(
    from: SqlSchemaView,
    to: SqlSchemaView,
    features: MigrationFeatures,
    drop: int,
    later: int,
)
    requires
        0 <= drop < later < spec_diff(from, to, features).len(),
        spec_diff(from, to, features)[drop] is DropTable,
    ensures
        !(spec_diff(from, to, features)[later] is DropForeignKey),
        !(spec_diff(from, to, features)[later] is RedefineTable),
        forall|table: Name, key: ForeignKeyView|
            !removes_key(spec_diff(from, to, features)[later], table, key),
{
    lemma_plan_is_ordered(from, to, features, drop, later);
}

/// No table is dropped while a foreign key to it stands that the plan does away with. Let a
/// table of the old schema hold a key to another table, let the plan drop that other table,
/// and let the new schema not keep the key (the table that holds it goes, or stays without
/// it). Then a step before the drop removes the key: the key is dropped where the backend
/// can drop foreign keys, and the table that holds it is rebuilt without it where the
/// backend cannot.
pub proof fn lemma_keys_go_before_their_tables(
    from: SqlSchemaView,
    to: SqlSchemaView,
    features: MigrationFeatures,
    holder: int,
    j: int,
    drop: int,
)
    requires
        from.wf(),
        0 <= holder < from.tables.len(),
        0 <= j < from.tables[holder].foreign_keys.len(),
        from.tables[holder].foreign_keys[j].referenced_table != from.tables[holder].name,
        0 <= drop < spec_diff(from, to, features).len(),
        spec_diff(from, to, features)[drop] == (DiffStepView::DropTable {
            table: from.tables[holder].foreign_keys[j].referenced_table,
        }),
        match find_table(to.tables, from.tables[holder].name) {
            Some(k) => !to.tables[k].foreign_keys.contains(from.tables[holder].foreign_keys[j]),
            None => true,
        },
    ensures
        exists|x: int|
            0 <= x < drop && removes_key(
                #[trigger] spec_diff(from, to, features)[x],
                from.tables[holder].name,
                from.tables[holder].foreign_keys[j],
            ),
{
    let plan = spec_diff(from, to, features);
    let table = from.tables[holder];
    let key = table.foreign_keys[j];
    let seg0 = foreign_key_drops(from.tables, to.tables, features, from.tables.len());
    let seg1 = index_drops(from.tables, to.tables, features, from.tables.len());
    let seg2 = table_creations(from.tables, to.tables, features, to.tables.len());
    let seg3 = table_changes(from.tables, to.tables, features);
    let seg4 = table_drops(from.tables, to.tables, from.tables.len());
    let seg5 = index_creations(from.tables, to.tables, features, to.tables.len());
    let seg6 = foreign_key_additions(from.tables, to.tables, features, to.tables.len());
    lemma_dropped_table_is_gone(from, to, features, drop, key.referenced_table);
    crate::convergence::lemma_find_table(to.tables, table.name);
    assert(table.foreign_keys.contains(key));
    let step = if features.foreign_key_alter {
        DiffStepView::DropForeignKey { table: table.name, foreign_key: key }
    } else {
        match find_table(to.tables, table.name) {
            Some(k) => DiffStepView::RedefineTable { previous: table, next: to.tables[k] },
            None => DiffStepView::RedefineTable {
                previous: table,
                next: without_foreign_keys(table),
            },
        }
    };
    if features.foreign_key_alter {
        let kept = match find_table(to.tables, table.name) {
            Some(k) => to.tables[k].foreign_keys,
            None => Seq::empty(),
        };
        let inner = |y: int|
            if kept.contains(table.foreign_keys[y]) {
                Seq::empty()
            } else {
                seq![
                    DiffStepView::DropForeignKey {
                        table: table.name,
                        foreign_key: table.foreign_keys[y],
                    },
                ]
            };
        assert(inner(j)[0] == step);
        lemma_concat_prefix_member(inner, table.foreign_keys.len(), j, step);
        let part = |i: int| foreign_key_drops_of(from.tables[i], to.tables, features);
        assert(part(holder) == foreign_key_drops_in(
            table.name,
            table.foreign_keys,
            kept,
            table.foreign_keys.len(),
        ));
        lemma_concat_prefix_member(part, from.tables.len(), holder, step);
    } else {
        match find_table(to.tables, table.name) {
            Some(k) => {
                crate::convergence::lemma_find_table_at(from.tables, holder);
                assert(!all_in(table.foreign_keys, to.tables[k].foreign_keys));
                assert(foreign_keys_differ(table, to.tables[k]));
                let part = |i: int| column_changes_of(from.tables, to.tables[i], features);
                assert(part(k)[0] == step);
                lemma_concat_prefix_member(part, to.tables.len(), k, step);
            },
            None => {
                assert(references_dropped(table, to.tables));
                let part = |i: int| key_rebuild_of(from.tables[i], to.tables, features);
                assert(part(holder)[0] == step);
                lemma_concat_prefix_member(part, from.tables.len(), holder, step);
                assert(without_foreign_keys(table).foreign_keys.len() == 0);
            },
        }
        lemma_table_changes_member(from.tables, to.tables, features, step);
    }
    lemma_pass_member(seg0, seg1, seg2, seg3, seg4, seg5, seg6, step);
    let x = choose|x: int| 0 <= x < plan.len() && plan[x] == step;
    assert(removes_key(plan[x], table.name, key));
    if drop <= x {
        lemma_plan_is_ordered(from, to, features, drop, x);
    }
}

/// Where the backend can drop foreign keys, every key that the plan does away with is
/// dropped before any table or column is dropped and before any table is rebuilt. Let a table
/// of the old schema hold a key that the new schema does not keep (the table goes, or stays
/// without the key). Then the plan drops the key, and does so before every step that drops a
/// table, drops a column or rebuilds a table.
pub proof fn lemma_removed_keys_are_dropped_first(
    from: SqlSchemaView,
    to: SqlSchemaView,
    features: MigrationFeatures,
    holder: int,
    j: int,
    later: int,
)
    requires
        features.foreign_key_alter,
        0 <= holder < from.tables.len(),
        0 <= j < from.tables[holder].foreign_keys.len(),
        match find_table(to.tables, from.tables[holder].name) {
            Some(k) => !to.tables[k].foreign_keys.contains(from.tables[holder].foreign_keys[j]),
            None => true,
        },
        0 <= later < spec_diff(from, to, features).len(),
        spec_diff(from, to, features)[later] is DropTable || spec_diff(
            from,
            to,
            features,
        )[later] is DropColumn || spec_diff(from, to, features)[later] is RedefineTable,
    ensures
        exists|x: int|
            0 <= x < later && #[trigger] spec_diff(from, to, features)[x]
                == (DiffStepView::DropForeignKey {
                table: from.tables[holder].name,
                foreign_key: from.tables[holder].foreign_keys[j],
            }),
{
    let plan = spec_diff(from, to, features);
    let table = from.tables[holder];
    let key = table.foreign_keys[j];
    let step = DiffStepView::DropForeignKey { table: table.name, foreign_key: key };
    let kept = match find_table(to.tables, table.name) {
        Some(k) => to.tables[k].foreign_keys,
        None => Seq::empty(),
    };
    let inner = |y: int|
        if kept.contains(table.foreign_keys[y]) {
            Seq::empty()
        } else {
            seq![
                DiffStepView::DropForeignKey {
                    table: table.name,
                    foreign_key: table.foreign_keys[y],
                },
            ]
        };
    assert(inner(j)[0] == step);
    lemma_concat_prefix_member(inner, table.foreign_keys.len(), j, step);
    let part = |i: int| foreign_key_drops_of(from.tables[i], to.tables, features);
    assert(part(holder) == foreign_key_drops_in(
        table.name,
        table.foreign_keys,
        kept,
        table.foreign_keys.len(),
    ));
    lemma_concat_prefix_member(part, from.tables.len(), holder, step);
    lemma_pass_member(
        foreign_key_drops(from.tables, to.tables, features, from.tables.len()),
        index_drops(from.tables, to.tables, features, from.tables.len()),
        table_creations(from.tables, to.tables, features, to.tables.len()),
        table_changes(from.tables, to.tables, features),
        table_drops(from.tables, to.tables, from.tables.len()),
        index_creations(from.tables, to.tables, features, to.tables.len()),
        foreign_key_additions(from.tables, to.tables, features, to.tables.len()),
        step,
    );
    let x = choose|x: int| 0 <= x < plan.len() && plan[x] == step;
    if later <= x {
        lemma_plan_is_ordered(from, to, features, later, x);
    }
}

} // verus!
