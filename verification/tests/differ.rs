use sql_migration_connector::checker::{classify, may_apply, Reason, Severity, TableRowCount};
use sql_migration_connector::differ::{diff, DiffStep};
use sql_migration_connector::features::MigrationFeatures;
use sql_migration_connector::flavour::SqlFamily;
use sql_migration_connector::schema::{
    Column, ColumnType, ColumnTypeFamily, DefaultValue, ForeignKey, ForeignKeyAction, Index,
    SqlSchema, Table,
};

fn postgres() -> MigrationFeatures {
    SqlFamily::Postgres.native_features()
}

fn sqlite() -> MigrationFeatures {
    SqlFamily::Sqlite.native_features()
}

fn column(name: &str, family: ColumnTypeFamily, size: Option<u32>, nullable: bool) -> Column {
    Column { name: name.to_string(), tpe: ColumnType { family, size }, nullable, default: None }
}

fn table(name: &str, columns: Vec<Column>) -> Table {
    Table {
        name: name.to_string(),
        columns,
        primary_key: vec!["id".to_string()],
        indexes: vec![],
        foreign_keys: vec![],
    }
}

fn users(with_email: bool) -> Table {
    let mut columns = vec![
        column("id", ColumnTypeFamily::Int, None, false),
        column("name", ColumnTypeFamily::Varchar, Some(255), true),
    ];
    if with_email {
        let mut email = column("email", ColumnTypeFamily::Varchar, Some(255), false);
        email.default = Some(DefaultValue::Text(String::new()));
        columns.push(email);
    }
    table("users", columns)
}

fn key(column: &str, to: &str) -> ForeignKey {
    ForeignKey {
        columns: vec![column.to_string()],
        referenced_table: to.to_string(),
        referenced_columns: vec!["id".to_string()],
        on_delete: ForeignKeyAction::Cascade,
        on_update: ForeignKeyAction::NoAction,
    }
}

fn schema(tables: Vec<Table>) -> SqlSchema {
    SqlSchema { tables, enums: vec![], sequences: vec![] }
}

/// Applies a plan to a schema the way a database would.
fn apply(start: &SqlSchema, steps: &[DiffStep]) -> SqlSchema {
    let mut tables: Vec<Table> = start.tables.clone();
    for step in steps {
        match step {
            DiffStep::CreateTable { table } => tables.push(table.clone()),
            DiffStep::DropTable { table } => tables.retain(|t| &t.name != table),
            DiffStep::RedefineTable { next, .. } => {
                let at = tables.iter().position(|t| t.name == next.name).unwrap();
                tables[at] = next.clone();
            }
            DiffStep::AddColumn { table, column } => {
                let t = tables.iter_mut().find(|t| &t.name == table).unwrap();
                t.columns.push(column.clone());
            }
            DiffStep::DropColumn { table, column } => {
                let t = tables.iter_mut().find(|t| &t.name == table).unwrap();
                t.columns.retain(|c| &c.name != column);
            }
            DiffStep::AlterColumn { table, next, .. } => {
                let t = tables.iter_mut().find(|t| &t.name == table).unwrap();
                let c = t.columns.iter_mut().find(|c| c.name == next.name).unwrap();
                *c = next.clone();
            }
            DiffStep::AddForeignKey { table, foreign_key } => {
                let t = tables.iter_mut().find(|t| &t.name == table).unwrap();
                t.foreign_keys.push(foreign_key.clone());
            }
            DiffStep::DropForeignKey { table, foreign_key } => {
                let t = tables.iter_mut().find(|t| &t.name == table).unwrap();
                t.foreign_keys.retain(|k| k != foreign_key);
            }
            DiffStep::CreateIndex { table, index } => {
                let t = tables.iter_mut().find(|t| &t.name == table).unwrap();
                t.indexes.push(index.clone());
            }
            DiffStep::DropIndex { table, index } => {
                let t = tables.iter_mut().find(|t| &t.name == table).unwrap();
                t.indexes.retain(|i| &i.name != index);
            }
        }
    }
    schema(tables)
}

fn blog(version: u8) -> SqlSchema {
    let mut users = users(version > 0);
    let mut posts = table(
        "posts",
        vec![
            column("id", ColumnTypeFamily::Int, None, false),
            column("author", ColumnTypeFamily::Int, None, false),
            column("title", ColumnTypeFamily::Varchar, Some(if version > 0 { 100 } else { 200 }), false),
        ],
    );
    posts.foreign_keys.push(key("author", "users"));
    posts.indexes.push(Index {
        name: "posts_title".to_string(),
        columns: vec!["title".to_string()],
        unique: version > 0,
    });
    if version == 0 {
        users.columns.push(column("legacy", ColumnTypeFamily::Text, None, true));
        let mut drafts = table("drafts", vec![column("id", ColumnTypeFamily::Int, None, false)]);
        drafts.foreign_keys.push(key("id", "posts"));
        schema(vec![users, posts, drafts])
    } else {
        let mut tags = table(
            "tags",
            vec![
                column("id", ColumnTypeFamily::Int, None, false),
                column("post", ColumnTypeFamily::Int, None, true),
            ],
        );
        tags.foreign_keys.push(key("post", "posts"));
        tags.indexes.push(Index {
            name: "tags_post".to_string(),
            columns: vec!["post".to_string()],
            unique: false,
        });
        posts.foreign_keys.push(key("id", "tags"));
        schema(vec![tags, posts, users])
    }
}

#[test]
fn diff_of_a_schema_with_itself_is_empty() {
    let s = schema(vec![users(true)]);
    assert_eq!(diff(&s, &s, postgres()), vec![]);
    assert_eq!(diff(&s, &s, MigrationFeatures::empty()), vec![]);
    assert_eq!(diff(&blog(0), &blog(0), sqlite()), vec![]);
    assert_eq!(diff(&blog(1), &blog(1), postgres()), vec![]);
}

#[test]
fn added_column_with_default_is_one_step_and_no_finding() {
    let from = schema(vec![users(false)]);
    let to = schema(vec![users(true)]);
    let steps = diff(&from, &to, postgres());
    let mut email = column("email", ColumnTypeFamily::Varchar, Some(255), false);
    email.default = Some(DefaultValue::Text(String::new()));
    assert_eq!(steps, vec![DiffStep::AddColumn { table: "users".to_string(), column: email }]);
    let hints = vec![TableRowCount { table: "users".to_string(), rows: 3 }];
    assert_eq!(classify(&steps, &hints), vec![]);
}

#[test]
fn dropped_table_with_rows_is_unexecutable() {
    let from = schema(vec![users(false)]);
    let to = schema(vec![]);
    let steps = diff(&from, &to, postgres());
    assert_eq!(steps, vec![DiffStep::DropTable { table: "users".to_string() }]);
    let hints = vec![TableRowCount { table: "users".to_string(), rows: 10 }];
    let findings = classify(&steps, &hints);
    assert_eq!(findings.len(), 1);
    assert_eq!(findings[0].step, 0);
    assert_eq!(findings[0].severity, Severity::Unexecutable);
    assert_eq!(findings[0].reason, Reason::TableDropped);
    assert!(!may_apply(&findings, false));
    assert!(may_apply(&findings, true));
}

#[test]
fn plan_passes_come_in_order() {
    let steps = diff(&blog(0), &blog(1), postgres());
    let mut email = column("email", ColumnTypeFamily::Varchar, Some(255), false);
    email.default = Some(DefaultValue::Text(String::new()));
    let tags = table(
        "tags",
        vec![
            column("id", ColumnTypeFamily::Int, None, false),
            column("post", ColumnTypeFamily::Int, None, true),
        ],
    );
    let expected = vec![
        DiffStep::DropForeignKey { table: "drafts".to_string(), foreign_key: key("id", "posts") },
        DiffStep::DropIndex { table: "posts".to_string(), index: "posts_title".to_string() },
        DiffStep::CreateTable { table: tags },
        DiffStep::AlterColumn {
            table: "posts".to_string(),
            previous: column("title", ColumnTypeFamily::Varchar, Some(200), false),
            next: column("title", ColumnTypeFamily::Varchar, Some(100), false),
        },
        DiffStep::DropColumn { table: "users".to_string(), column: "legacy".to_string() },
        DiffStep::AddColumn { table: "users".to_string(), column: email },
        DiffStep::DropTable { table: "drafts".to_string() },
        DiffStep::CreateIndex {
            table: "tags".to_string(),
            index: Index {
                name: "tags_post".to_string(),
                columns: vec!["post".to_string()],
                unique: false,
            },
        },
        DiffStep::CreateIndex {
            table: "posts".to_string(),
            index: Index {
                name: "posts_title".to_string(),
                columns: vec!["title".to_string()],
                unique: true,
            },
        },
        DiffStep::AddForeignKey { table: "tags".to_string(), foreign_key: key("post", "posts") },
        DiffStep::AddForeignKey { table: "posts".to_string(), foreign_key: key("id", "tags") },
    ];
    assert_eq!(steps, expected);
}

#[test]
fn applying_a_plan_leaves_nothing_to_do() {
    for features in [postgres(), sqlite(), SqlFamily::Mysql.native_features(), MigrationFeatures::empty()] {
        for (a, b) in [(blog(0), blog(1)), (blog(1), blog(0)), (schema(vec![]), blog(1)), (blog(0), schema(vec![]))] {
            let steps = diff(&a, &b, features);
            let reached = apply(&a, &steps);
            assert!(reached.is_well_formed());
            assert_eq!(diff(&reached, &b, features), vec![]);
        }
    }
}

#[test]
fn new_tables_are_created_before_their_foreign_keys() {
    let mut t1 = table("t1", vec![column("id", ColumnTypeFamily::Int, None, false)]);
    let mut t2 = table("t2", vec![column("id", ColumnTypeFamily::Int, None, false)]);
    t2.foreign_keys.push(key("id", "t1"));
    t1.foreign_keys.push(key("id", "t2"));
    let to = schema(vec![t2, t1]);
    let steps = diff(&schema(vec![]), &to, postgres());
    let created = |name: &str| {
        steps
            .iter()
            .position(|s| matches!(s, DiffStep::CreateTable { table } if table.name == name))
            .unwrap()
    };
    let added = |name: &str| {
        steps
            .iter()
            .position(|s| matches!(s, DiffStep::AddForeignKey { table, .. } if table == name))
            .unwrap()
    };
    assert!(created("t1") < added("t2"));
    assert!(created("t2") < added("t1"));
    assert_eq!(steps.len(), 4);
    for step in &steps[..2] {
        match step {
            DiffStep::CreateTable { table } => assert!(table.foreign_keys.is_empty()),
            other => panic!("unexpected step {:?}", other),
        }
    }
}

#[test]
fn new_table_carries_its_foreign_keys_where_they_cannot_be_added() {
    let t1 = table("t1", vec![column("id", ColumnTypeFamily::Int, None, false)]);
    let mut t2 = table("t2", vec![column("id", ColumnTypeFamily::Int, None, false)]);
    t2.foreign_keys.push(key("id", "t1"));
    let steps = diff(&schema(vec![]), &schema(vec![t1.clone(), t2.clone()]), sqlite());
    assert_eq!(steps, vec![DiffStep::CreateTable { table: t1 }, DiffStep::CreateTable { table: t2 }]);
}

#[test]
fn dropped_column_rebuilds_the_table_where_columns_cannot_be_dropped() {
    let mut before = users(false);
    before.columns.push(column("legacy", ColumnTypeFamily::Text, None, true));
    let after = users(false);
    let from = schema(vec![before.clone()]);
    let to = schema(vec![after.clone()]);
    let steps = diff(&from, &to, sqlite());
    assert_eq!(steps, vec![DiffStep::RedefineTable { previous: before, next: after }]);
    assert!(!steps.iter().any(|s| matches!(s, DiffStep::DropColumn { .. })));
    let raw = diff(&from, &to, postgres());
    assert_eq!(
        raw,
        vec![DiffStep::DropColumn { table: "users".to_string(), column: "legacy".to_string() }]
    );
    let forced = diff(&from, &to, sqlite().with(sql_migration_connector::features::MigrationFeature::ColumnDrop));
    assert_eq!(forced, raw);
}

#[test]
fn changed_primary_key_rebuilds_the_table() {
    let before = users(false);
    let mut after = users(false);
    after.primary_key = vec!["id".to_string(), "name".to_string()];
    let steps = diff(&schema(vec![before.clone()]), &schema(vec![after.clone()]), postgres());
    assert_eq!(steps, vec![DiffStep::RedefineTable { previous: before, next: after }]);
}

#[test]
fn columns_are_compared_as_the_backend_stores_them() {
    let mut flag = column("flag", ColumnTypeFamily::Boolean, None, false);
    flag.default = Some(DefaultValue::Bool(true));
    let mut stored = column("flag", ColumnTypeFamily::SmallInt, Some(1), false);
    stored.default = Some(DefaultValue::Int(1));
    let from = schema(vec![table("t", vec![stored.clone()])]);
    let to = schema(vec![table("t", vec![flag.clone()])]);
    assert_eq!(diff(&from, &to, SqlFamily::Mysql.native_features()), vec![]);
    assert_eq!(
        diff(&from, &to, postgres()),
        vec![DiffStep::AlterColumn { table: "t".to_string(), previous: stored, next: flag }]
    );
    let wide = schema(vec![table("t", vec![column("c", ColumnTypeFamily::Varchar, Some(10), true)])]);
    let narrow = schema(vec![table("t", vec![column("c", ColumnTypeFamily::Varchar, Some(5), true)])]);
    assert_eq!(diff(&wide, &narrow, sqlite()), vec![]);
    assert_eq!(diff(&wide, &narrow, postgres()).len(), 1);
}

#[test]
fn changed_index_is_dropped_and_created() {
    let mut before = users(false);
    before.indexes.push(Index { name: "by_name".to_string(), columns: vec!["name".to_string()], unique: false });
    let mut after = users(false);
    after.indexes.push(Index { name: "by_name".to_string(), columns: vec!["name".to_string()], unique: true });
    let steps = diff(&schema(vec![before]), &schema(vec![after.clone()]), sqlite());
    assert_eq!(
        steps,
        vec![
            DiffStep::DropIndex { table: "users".to_string(), index: "by_name".to_string() },
            DiffStep::CreateIndex { table: "users".to_string(), index: after.indexes[0].clone() },
        ]
    );
}

#[test]
fn table_order_does_not_matter() {
    let a = schema(vec![users(true), table("t", vec![])]);
    let b = schema(vec![table("t", vec![]), users(true)]);
    assert_eq!(diff(&a, &b, postgres()), vec![]);
}

#[test]
fn keys_of_a_rebuilt_table_go_before_the_table_they_refer_to() {
    let team = table("team", vec![column("id", ColumnTypeFamily::Int, None, false)]);
    let mut before = users(false);
    before.foreign_keys.push(key("id", "team"));
    let mut after = users(false);
    after.primary_key = vec![];
    let from = schema(vec![team, before.clone()]);
    let to = schema(vec![after.clone()]);
    assert_eq!(
        diff(&from, &to, postgres()),
        vec![
            DiffStep::DropForeignKey { table: "users".to_string(), foreign_key: key("id", "team") },
            DiffStep::RedefineTable { previous: before.clone(), next: after.clone() },
            DiffStep::DropTable { table: "team".to_string() },
        ]
    );
    assert_eq!(
        diff(&from, &to, sqlite()),
        vec![
            DiffStep::RedefineTable { previous: before, next: after },
            DiffStep::DropTable { table: "team".to_string() },
        ]
    );
}

#[test]
fn tables_that_go_are_freed_of_their_keys_first() {
    let mut a = table("a", vec![column("id", ColumnTypeFamily::Int, None, false)]);
    let mut b = table("b", vec![column("id", ColumnTypeFamily::Int, None, false)]);
    let mut c = table("c", vec![column("id", ColumnTypeFamily::Int, None, false)]);
    a.foreign_keys.push(key("id", "b"));
    b.foreign_keys.push(key("id", "a"));
    c.foreign_keys.push(key("id", "c"));
    c.foreign_keys.push(key("id", "kept"));
    let kept = table("kept", vec![column("id", ColumnTypeFamily::Int, None, false)]);
    let from = schema(vec![a.clone(), b.clone(), c.clone(), kept.clone()]);
    let to = schema(vec![kept]);
    let drops = vec![
        DiffStep::DropTable { table: "a".to_string() },
        DiffStep::DropTable { table: "b".to_string() },
        DiffStep::DropTable { table: "c".to_string() },
    ];
    let mut expected = vec![
        DiffStep::DropForeignKey { table: "a".to_string(), foreign_key: key("id", "b") },
        DiffStep::DropForeignKey { table: "b".to_string(), foreign_key: key("id", "a") },
        DiffStep::DropForeignKey { table: "c".to_string(), foreign_key: key("id", "c") },
        DiffStep::DropForeignKey { table: "c".to_string(), foreign_key: key("id", "kept") },
    ];
    expected.extend(drops.clone());
    assert_eq!(diff(&from, &to, postgres()), expected);
    let bare = |t: &Table| Table { foreign_keys: vec![], ..t.clone() };
    let mut expected = vec![
        DiffStep::RedefineTable { previous: a.clone(), next: bare(&a) },
        DiffStep::RedefineTable { previous: b.clone(), next: bare(&b) },
    ];
    expected.extend(drops);
    assert_eq!(diff(&from, &to, sqlite()), expected);
}
