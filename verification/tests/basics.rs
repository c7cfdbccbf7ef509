use sql_migration_connector::features::{MigrationFeature, MigrationFeatures};
use sql_migration_connector::flavour::{
    from_connection_info, try_from_connection_info, ConnectionInfo, DatabaseUrl, SqlFamily,
    SqlFlavour, MYSQL_IDENTIFIER_SIZE_LIMIT,
};
use sql_migration_connector::history::{
    check_history, checksum, has_schema_drift, in_order, precedes, MigrationDirectory,
    MigrationRecord,
};
use sql_migration_connector::identifier::{hash, hex, shorten, shorten_for};
use sql_migration_connector::schema::{
    foreign_keys_distinct, names_clone, names_distinct, names_eq, Column, ColumnType,
    ColumnTypeFamily, DefaultValue, Enum, ForeignKey, ForeignKeyAction, Index, SqlSchema, Table,
};
use sql_migration_connector::statements::split_statements;

const ALL: [MigrationFeature; 6] = [
    MigrationFeature::ColumnDrop,
    MigrationFeature::ColumnAlter,
    MigrationFeature::ForeignKeyAlter,
    MigrationFeature::TransactionalDdl,
    MigrationFeature::SizedTypes,
    MigrationFeature::NativeBoolean,
];

fn url(database: &str) -> DatabaseUrl {
    DatabaseUrl {
        host: "localhost".to_string(),
        port: 5432,
        database: database.to_string(),
        user: "admin".to_string(),
        password: Some("SECRET-REDACTED".to_string()),
    }
}

#[test]
fn feature_sets_hold_what_was_put_in() {
    let none = MigrationFeatures::empty();
    for feature in ALL {
        assert!(!none.contains(feature));
        let one = none.with(feature);
        for other in ALL {
            assert_eq!(one.contains(other), other == feature);
        }
        assert_eq!(one.with(feature), one);
    }
    let a = none.with(MigrationFeature::ColumnDrop).with(MigrationFeature::SizedTypes);
    let b = none.with(MigrationFeature::SizedTypes).with(MigrationFeature::NativeBoolean);
    let both = a.union(b);
    for feature in ALL {
        assert_eq!(both.contains(feature), a.contains(feature) || b.contains(feature));
    }
    assert_eq!(a.union(none), a);
}

#[test]
fn backends_differ_in_what_they_can_do() {
    let sqlite = SqlFamily::Sqlite.native_features();
    assert!(!sqlite.contains(MigrationFeature::ColumnDrop));
    assert!(!sqlite.contains(MigrationFeature::ColumnAlter));
    assert!(!sqlite.contains(MigrationFeature::ForeignKeyAlter));
    assert!(sqlite.contains(MigrationFeature::TransactionalDdl));
    assert!(!sqlite.contains(MigrationFeature::SizedTypes));
    let mysql = SqlFamily::Mysql.native_features();
    assert!(mysql.contains(MigrationFeature::ColumnDrop));
    assert!(!mysql.contains(MigrationFeature::TransactionalDdl));
    assert!(!mysql.contains(MigrationFeature::NativeBoolean));
    let postgres = SqlFamily::Postgres.native_features();
    for feature in ALL {
        assert!(postgres.contains(feature));
    }
    let mssql = SqlFamily::Mssql.native_features();
    assert!(mssql.contains(MigrationFeature::TransactionalDdl));
    assert!(!mssql.contains(MigrationFeature::NativeBoolean));
}

#[test]
fn identifier_limits_are_those_of_the_backend() {
    assert_eq!(MYSQL_IDENTIFIER_SIZE_LIMIT, 64);
    assert_eq!(SqlFamily::Mysql.max_identifier_length(), Some(64));
    assert_eq!(SqlFamily::Postgres.max_identifier_length(), Some(63));
    assert_eq!(SqlFamily::Mssql.max_identifier_length(), Some(128));
    assert_eq!(SqlFamily::Sqlite.max_identifier_length(), None);
}

#[test]
fn flavour_is_chosen_by_the_connection_target() {
    let none = MigrationFeatures::empty();
    let flavour = from_connection_info(&ConnectionInfo::Mysql(url("shop")), none);
    assert_eq!(flavour.family(), SqlFamily::Mysql);
    assert_eq!(flavour.features(), none);
    assert_eq!(flavour.capabilities(), SqlFamily::Mysql.native_features());
    match &flavour {
        SqlFlavour::Mysql(f) => assert_eq!(f.url, url("shop")),
        other => panic!("unexpected flavour {:?}", other),
    }
    let flavour = from_connection_info(&ConnectionInfo::Postgres(url("shop")), none);
    assert_eq!(flavour.family(), SqlFamily::Postgres);
    let flavour = from_connection_info(&ConnectionInfo::Mssql(url("shop")), none);
    assert_eq!(flavour.family(), SqlFamily::Mssql);
    let target = ConnectionInfo::Sqlite { file_path: "/tmp/dev.db".to_string(), db_name: "main".to_string() };
    let flavour = from_connection_info(&target, none.with(MigrationFeature::ColumnDrop));
    assert_eq!(flavour.family(), SqlFamily::Sqlite);
    assert_eq!(flavour.features(), none.with(MigrationFeature::ColumnDrop));
    assert_eq!(flavour.capabilities(), SqlFamily::Sqlite.native_features());
    assert!(!flavour.capabilities().contains(MigrationFeature::ColumnDrop));
    let mut before = table("t");
    before.columns.push(column("legacy"));
    let from = SqlSchema { tables: vec![before], enums: vec![], sequences: vec![] };
    let to = SqlSchema { tables: vec![table("t")], enums: vec![], sequences: vec![] };
    let plan = sql_migration_connector::differ::diff(&from, &to, flavour.capabilities());
    assert_eq!(plan.len(), 1);
    assert!(matches!(plan[0], sql_migration_connector::differ::DiffStep::RedefineTable { .. }));
    match &flavour {
        SqlFlavour::Sqlite(f) => {
            assert_eq!(f.file_path, "/tmp/dev.db");
            assert_eq!(f.attached_name, "main");
        }
        other => panic!("unexpected flavour {:?}", other),
    }
    assert_eq!(flavour.migrations_table_name(), "_prisma_migrations");
    let table = flavour.migrations_table();
    assert_eq!(table.name, "_prisma_migrations");
    assert_eq!(table.database, None);
    let target_schema = SqlSchema { tables: vec![], enums: vec![], sequences: vec![] };
    assert_eq!(flavour.check_database_version_compatibility(&target_schema), None);
    flavour.scan_migration_script("DROP TABLE users;");
}

#[test]
fn in_memory_sqlite_has_no_flavour() {
    let none = MigrationFeatures::empty();
    let target = ConnectionInfo::InMemorySqlite { db_name: "main".to_string() };
    assert_eq!(try_from_connection_info(&target, none), None);
    let flavour = try_from_connection_info(&ConnectionInfo::Postgres(url("shop")), none).unwrap();
    assert_eq!(flavour, from_connection_info(&ConnectionInfo::Postgres(url("shop")), none));
}

#[test]
fn hash_is_fnv1a() {
    assert_eq!(hash(b""), 0x811c9dc5);
    assert_eq!(hash(b"a"), 0xe40c292c);
    assert_eq!(hash(b"foobar"), 0xbf9cf968);
    assert_eq!(hex(0xbf9cf968), "bf9cf968");
    assert_eq!(hex(0), "00000000");
    assert_eq!(hex(0x0123abcd), "0123abcd");
    assert_eq!(hex(u32::MAX), "ffffffff");
}

#[test]
fn short_names_stay_as_they_are() {
    assert_eq!(shorten("users_email_fkey", 63).unwrap(), "users_email_fkey");
    assert_eq!(shorten("123456789", 9).unwrap(), "123456789");
    assert_eq!(shorten("", 9).unwrap(), "");
    assert_eq!(shorten("", 0).unwrap(), "");
    assert_eq!(shorten("abc", 3).unwrap(), "abc");
}

#[test]
fn long_names_are_cut_and_get_the_hash() {
    let name = "a_very_long_table_name_with_a_very_long_column_name_and_some_more_fkey";
    assert_eq!(name.len(), 70);
    let fitted = shorten(name, 64).unwrap();
    assert_eq!(fitted.len(), 64);
    assert_eq!(fitted, format!("{}_{}", &name[..55], hex(hash(name.as_bytes()))));
    assert_eq!(fitted, "a_very_long_table_name_with_a_very_long_column_name_and_15e47d0a");
    assert_eq!(shorten(name, 64).unwrap(), fitted);
    assert_eq!(shorten(name, 8), None);
    assert_eq!(shorten("abcd", 3), None);
    assert_eq!(shorten_for(SqlFamily::Mysql, name), fitted);
    assert_eq!(shorten_for(SqlFamily::Sqlite, name), name);
    assert_eq!(shorten_for(SqlFamily::Postgres, name).len(), 63);
    assert_eq!(shorten_for(SqlFamily::Mssql, name), name);
    let other = "a_very_long_table_name_with_a_very_long_column_name_and_some_other_key";
    assert_ne!(shorten(other, 64).unwrap(), fitted);
    assert_eq!(shorten("0123456789", 9).unwrap(), format!("_{}", hex(hash(b"0123456789"))));
}

#[test]
fn names_are_cut_between_characters() {
    let name = "ä".repeat(47);
    assert_eq!(name.len(), 94);
    let fitted = shorten(&name, 20).unwrap();
    assert_eq!(fitted.len(), 19);
    assert_eq!(fitted, format!("äääää_{}", hex(hash(name.as_bytes()))));
    let fitted = shorten(&name, 19).unwrap();
    assert_eq!(fitted.len(), 19);
    let mixed = format!("x{}", name);
    assert_eq!(shorten(&mixed, 19).unwrap().len(), 18);
    assert_eq!(shorten(&mixed, 20).unwrap().len(), 20);
}

#[test]
fn checksum_is_fnv1a_64() {
    assert_eq!(checksum(""), 0xcbf29ce484222325);
    assert_eq!(checksum("a"), 0xaf63dc4c8601ec8c);
    assert_eq!(checksum("foobar"), 0x85944171f73967e8);
    let directory = MigrationDirectory::new("0001_init".to_string(), "foobar".to_string());
    assert_eq!(directory.checksum, 0x85944171f73967e8);
    assert_eq!(directory.name, "0001_init");
    assert_eq!(directory.script, "foobar");
    assert!(directory.is_intact());
    let edited = MigrationDirectory { script: "foobaz".to_string(), ..directory };
    assert!(!edited.is_intact());
}

#[test]
fn closed_records_do_not_change() {
    let directory = MigrationDirectory::new("0001_init".to_string(), "SELECT 1".to_string());
    let mut record = MigrationRecord::start("id-1".to_string(), &directory, 10);
    assert_eq!(record.id, "id-1");
    assert_eq!(record.checksum, directory.checksum);
    assert_eq!(record.started_at, 10);
    assert_eq!(record.finished_at, None);
    assert_eq!(record.migration_name, "0001_init");
    assert_eq!(record.applied_steps_count, 0);
    assert_eq!(record.rolled_back_at, None);
    assert!(!record.is_applied());
    assert!(record.finish(20, 3));
    assert!(record.is_applied());
    assert_eq!(record.finished_at, Some(20));
    assert_eq!(record.applied_steps_count, 3);
    assert!(!record.finish(30, 4));
    assert!(!record.roll_back(30));
    assert_eq!(record.finished_at, Some(20));
    assert_eq!(record.applied_steps_count, 3);
    assert_eq!(record.rolled_back_at, None);
    let mut failed = MigrationRecord::start("id-2".to_string(), &directory, 10);
    assert!(failed.roll_back(15));
    assert_eq!(failed.rolled_back_at, Some(15));
    assert!(!failed.finish(20, 1));
    assert!(!failed.roll_back(25));
    assert_eq!(failed.finished_at, None);
    assert_eq!(failed.rolled_back_at, Some(15));
    assert!(!failed.is_applied());
}

#[test]
fn only_applied_records_count_for_drift() {
    let directory = MigrationDirectory::new("0001_init".to_string(), "SELECT 1".to_string());
    let edited = MigrationDirectory::new("0001_init".to_string(), "SELECT 2".to_string());
    let mut open = MigrationRecord::start("a".to_string(), &directory, 1);
    assert_eq!(check_history(&vec![MigrationDirectory::new("0001_init".to_string(), "SELECT 2".to_string())], &vec![]), Ok(()));
    let records = vec![MigrationRecord::start("a".to_string(), &directory, 1)];
    assert_eq!(check_history(&vec![MigrationDirectory::new("0001_init".to_string(), "SELECT 2".to_string())], &records), Ok(()));
    open.roll_back(2);
    assert_eq!(check_history(&vec![MigrationDirectory::new("0001_init".to_string(), "SELECT 2".to_string())], &vec![open]), Ok(()));
    let mut applied = MigrationRecord::start("b".to_string(), &directory, 3);
    applied.finish(4, 1);
    let records = vec![applied];
    assert_eq!(check_history(&vec![directory], &records), Ok(()));
    assert_eq!(
        check_history(&vec![edited], &records),
        Err(sql_migration_connector::error::ConnectorError::HistoryDrift { directory: 0 })
    );
}

#[test]
fn scripts_are_cut_at_semicolons_outside_quotes() {
    let statements = |script: &str| -> Vec<String> {
        split_statements(script.as_bytes()).into_iter().map(|s| String::from_utf8(s).unwrap()).collect()
    };
    assert_eq!(statements(""), Vec::<String>::new());
    assert_eq!(statements(" \n\t"), Vec::<String>::new());
    assert_eq!(statements(";;  ;"), Vec::<String>::new());
    assert_eq!(statements("SELECT 1"), vec!["SELECT 1"]);
    assert_eq!(statements("SELECT 1;"), vec!["SELECT 1"]);
    assert_eq!(statements("a;b;\n"), vec!["a", "b"]);
    assert_eq!(statements("a; b ;c"), vec!["a", " b ", "c"]);
    assert_eq!(
        statements("INSERT INTO t VALUES ('x;y'); DELETE FROM t"),
        vec!["INSERT INTO t VALUES ('x;y')", " DELETE FROM t"]
    );
    assert_eq!(statements("SELECT 'it''s; fine'; x"), vec!["SELECT 'it''s; fine'", " x"]);
    assert_eq!(statements("SELECT 'open; never closed"), vec!["SELECT 'open; never closed"]);
    assert_eq!(statements("SELECT 'é;'; SELECT 'ü'"), vec!["SELECT 'é;'", " SELECT 'ü'"]);
}

fn key(column: &str) -> ForeignKey {
    ForeignKey {
        columns: vec![column.to_string()],
        referenced_table: "t".to_string(),
        referenced_columns: vec!["id".to_string()],
        on_delete: ForeignKeyAction::Restrict,
        on_update: ForeignKeyAction::SetNull,
    }
}

fn column(name: &str) -> Column {
    Column {
        name: name.to_string(),
        tpe: ColumnType { family: ColumnTypeFamily::Int, size: None },
        nullable: false,
        default: Some(DefaultValue::Autoincrement),
    }
}

fn table(name: &str) -> Table {
    Table {
        name: name.to_string(),
        columns: vec![column("id"), column("other")],
        primary_key: vec!["id".to_string()],
        indexes: vec![Index { name: "i".to_string(), columns: vec!["id".to_string()], unique: true }],
        foreign_keys: vec![key("id"), key("other")],
    }
}

#[test]
fn names_are_compared_and_copied_one_by_one() {
    let names = vec!["a".to_string(), "b".to_string()];
    assert!(names_eq(&names, &names_clone(&names)));
    assert_eq!(names_clone(&names), names);
    assert!(!names_eq(&names, &vec!["a".to_string()]));
    assert!(!names_eq(&names, &vec!["b".to_string(), "a".to_string()]));
    assert!(names_eq(&vec![], &vec![]));
    assert!(names_distinct(&names));
    assert!(names_distinct(&vec![]));
    assert!(!names_distinct(&vec!["a".to_string(), "b".to_string(), "a".to_string()]));
    assert!(foreign_keys_distinct(&vec![key("a"), key("b")]));
    assert!(!foreign_keys_distinct(&vec![key("a"), key("b"), key("b")]));
}

#[test]
fn copies_are_equal_to_what_they_copy() {
    let t = table("t");
    assert_eq!(t.clone(), t);
    assert_eq!(t.columns[0].clone(), t.columns[0]);
    assert_eq!(t.indexes[0].clone(), t.indexes[0]);
    assert_eq!(t.foreign_keys[1].clone(), t.foreign_keys[1]);
    assert!(t.indexes[0].same_as(&t.indexes[0].clone()));
    assert!(t.foreign_keys[0].same_as(&key("id")));
    assert!(!t.foreign_keys[0].same_as(&key("other")));
    assert!(t.columns[0].tpe.same_as(&ColumnType { family: ColumnTypeFamily::Int, size: None }));
    assert!(!t.columns[0].tpe.same_as(&ColumnType { family: ColumnTypeFamily::Int, size: Some(4) }));
    let e = Enum { name: "color".to_string(), values: vec!["red".to_string()] };
    assert_eq!(e.clone(), e);
    assert_eq!(t.column_names(), vec!["id", "other"]);
    assert_eq!(t.index_names(), vec!["i"]);
}

#[test]
fn names_must_be_unique_within_their_namespace() {
    let good = SqlSchema {
        tables: vec![table("a"), table("b")],
        enums: vec![Enum { name: "color".to_string(), values: vec![] }],
        sequences: vec!["s".to_string()],
    };
    assert!(good.is_well_formed());
    assert_eq!(good.table_names(), vec!["a", "b"]);
    assert_eq!(good.enum_names(), vec!["color"]);
    let twice = SqlSchema { tables: vec![table("a"), table("a")], enums: vec![], sequences: vec![] };
    assert!(!twice.is_well_formed());
    let mut t = table("a");
    t.columns.push(column("id"));
    assert!(!t.is_well_formed());
    assert!(!SqlSchema { tables: vec![table("b"), t], enums: vec![], sequences: vec![] }.is_well_formed());
    let mut t = table("a");
    t.foreign_keys.push(key("id"));
    assert!(!t.is_well_formed());
    let mut t = table("a");
    t.indexes.push(Index { name: "i".to_string(), columns: vec![], unique: false });
    assert!(!t.is_well_formed());
    let enums = vec![
        Enum { name: "color".to_string(), values: vec![] },
        Enum { name: "color".to_string(), values: vec!["red".to_string()] },
    ];
    assert!(!SqlSchema { tables: vec![], enums, sequences: vec![] }.is_well_formed());
    let sequences = vec!["s".to_string(), "s".to_string()];
    assert!(!SqlSchema { tables: vec![], enums: vec![], sequences }.is_well_formed());
    assert!(SqlSchema { tables: vec![], enums: vec![], sequences: vec![] }.is_well_formed());
}

#[test]
fn names_order_the_history() {
    assert!(precedes("0001_init", "0002_more"));
    assert!(!precedes("0002_more", "0001_init"));
    assert!(!precedes("0001_init", "0001_init"));
    assert!(precedes("0001", "0001_init"));
    assert!(!precedes("0001_init", "0001"));
    assert!(precedes("", "a"));
    assert!(!precedes("", ""));
    assert!(!precedes("a", ""));
    assert!(precedes("20200101_z", "20200102_a"));
    assert!(precedes("a", "ä"));
    let directory = |name: &str| MigrationDirectory::new(name.to_string(), String::new());
    assert!(in_order(&vec![]));
    assert!(in_order(&vec![directory("b")]));
    assert!(in_order(&vec![directory("0001_a"), directory("0002_a"), directory("0003_a")]));
    assert!(!in_order(&vec![directory("0001_a"), directory("0003_a"), directory("0002_a")]));
    assert!(!in_order(&vec![directory("0001_a"), directory("0001_a")]));
    assert!(!in_order(&vec![directory("0002_a"), directory("0001_a"), directory("0003_a")]));
}

#[test]
fn schema_drift_is_what_the_differ_finds() {
    let expected = SqlSchema { tables: vec![table("a"), table("b")], enums: vec![], sequences: vec![] };
    let same = SqlSchema { tables: vec![table("b"), table("a")], enums: vec![], sequences: vec![] };
    let other = SqlSchema { tables: vec![table("a")], enums: vec![], sequences: vec![] };
    let features = SqlFamily::Postgres.native_features();
    assert!(!has_schema_drift(&expected, &expected, features));
    assert!(!has_schema_drift(&expected, &same, features));
    assert!(has_schema_drift(&expected, &other, features));
    assert!(has_schema_drift(&other, &expected, features));
}
