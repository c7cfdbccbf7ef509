use sql_migration_connector::differ::{diff, DiffStep};
use sql_migration_connector::error::ConnectorError;
use sql_migration_connector::features::{MigrationFeature, MigrationFeatures};
use sql_migration_connector::flavour::SqlFamily;
use sql_migration_connector::render::{
    column_text, create_index, create_table, foreign_key_name, literal, name_list, quote, render,
    render_plan, temporary_name, type_text,
};
use sql_migration_connector::schema::{
    Column, ColumnType, ColumnTypeFamily, DefaultValue, ForeignKey, ForeignKeyAction, Index,
    SqlSchema, Table,
};
use sql_migration_connector::text::{decimal, digit, join, signed_decimal};

const FAMILIES: [SqlFamily; 4] = [SqlFamily::Postgres, SqlFamily::Mysql, SqlFamily::Sqlite, SqlFamily::Mssql];

fn column(name: &str, family: ColumnTypeFamily, size: Option<u32>, nullable: bool) -> Column {
    Column { name: name.to_string(), tpe: ColumnType { family, size }, nullable, default: None }
}

fn email() -> Column {
    let mut email = column("email", ColumnTypeFamily::Varchar, Some(255), false);
    email.default = Some(DefaultValue::Text(String::new()));
    email
}

fn users(with_email: bool) -> Table {
    let mut columns = vec![
        column("id", ColumnTypeFamily::Int, None, false),
        column("name", ColumnTypeFamily::Varchar, Some(255), true),
    ];
    if with_email {
        columns.push(email());
    }
    Table {
        name: "users".to_string(),
        columns,
        primary_key: vec!["id".to_string()],
        indexes: vec![],
        foreign_keys: vec![],
    }
}

fn key() -> ForeignKey {
    ForeignKey {
        columns: vec!["author".to_string(), "tenant".to_string()],
        referenced_table: "users".to_string(),
        referenced_columns: vec!["id".to_string(), "tenant".to_string()],
        on_delete: ForeignKeyAction::Cascade,
        on_update: ForeignKeyAction::NoAction,
    }
}

fn schema(tables: Vec<Table>) -> SqlSchema {
    SqlSchema { tables, enums: vec![], sequences: vec![] }
}

fn one(step: &DiffStep, family: SqlFamily) -> String {
    let statements = render(step, family, family.native_features()).unwrap();
    assert_eq!(statements.len(), 1);
    statements[0].clone()
}

#[test]
fn numbers_are_written_in_decimal() {
    assert_eq!(digit(0), "0");
    assert_eq!(digit(9), "9");
    assert_eq!(digit(10), "0");
    assert_eq!(digit(1234), "4");
    assert_eq!(decimal(0), "0");
    assert_eq!(decimal(7), "7");
    assert_eq!(decimal(10), "10");
    assert_eq!(decimal(255), "255");
    assert_eq!(decimal(u64::MAX), "18446744073709551615");
    assert_eq!(signed_decimal(0), "0");
    assert_eq!(signed_decimal(-1), "-1");
    assert_eq!(signed_decimal(42), "42");
    assert_eq!(signed_decimal(i64::MAX), "9223372036854775807");
    assert_eq!(signed_decimal(i64::MIN), "-9223372036854775808");
    assert_eq!(signed_decimal(i64::MIN + 1), "-9223372036854775807");
}

#[test]
fn parts_are_joined_with_a_separator() {
    let parts = |p: &[&str]| p.iter().map(|s| s.to_string()).collect::<Vec<String>>();
    assert_eq!(join(&parts(&[]), ", "), "");
    assert_eq!(join(&parts(&["a"]), ", "), "a");
    assert_eq!(join(&parts(&["a", "b", "c"]), ", "), "a, b, c");
    assert_eq!(join(&parts(&["", ""]), "_"), "_");
}

#[test]
fn identifiers_are_quoted_as_the_backend_does() {
    assert_eq!(quote(SqlFamily::Postgres, "users"), "\"users\"");
    assert_eq!(quote(SqlFamily::Sqlite, "users"), "\"users\"");
    assert_eq!(quote(SqlFamily::Mysql, "users"), "`users`");
    assert_eq!(quote(SqlFamily::Mssql, "users"), "[users]");
    assert_eq!(quote(SqlFamily::Postgres, "a\"b"), "\"a\"\"b\"");
    assert_eq!(quote(SqlFamily::Sqlite, "\""), "\"\"\"\"");
    assert_eq!(quote(SqlFamily::Mysql, "a`b`"), "`a``b```");
    assert_eq!(quote(SqlFamily::Mysql, "a\"b"), "`a\"b`");
    assert_eq!(quote(SqlFamily::Mssql, "a]b[c"), "[a]]b[c]");
    assert_eq!(quote(SqlFamily::Postgres, "zäh\"ler"), "\"zäh\"\"ler\"");
    assert_eq!(quote(SqlFamily::Postgres, ""), "\"\"");
    assert_eq!(literal("it's"), "'it''s'");
    assert_eq!(literal(""), "''");
    assert_eq!(literal("'a"), format!("'{}'", "''a"));
    let names = vec!["a".to_string(), "b".to_string()];
    assert_eq!(name_list(SqlFamily::Mysql, &names), "`a`, `b`");
    assert_eq!(name_list(SqlFamily::Mssql, &vec![]), "");
}

#[test]
fn types_are_written_as_the_backend_does() {
    let sized = ColumnType { family: ColumnTypeFamily::Varchar, size: Some(255) };
    let int = ColumnType { family: ColumnTypeFamily::Int, size: None };
    let boolean = ColumnType { family: ColumnTypeFamily::Boolean, size: None };
    let native = |f: SqlFamily| f.native_features();
    assert_eq!(type_text(SqlFamily::Postgres, native(SqlFamily::Postgres), sized), "VARCHAR(255)");
    assert_eq!(type_text(SqlFamily::Mysql, native(SqlFamily::Mysql), sized), "VARCHAR(255)");
    assert_eq!(type_text(SqlFamily::Sqlite, native(SqlFamily::Sqlite), sized), "VARCHAR");
    assert_eq!(type_text(SqlFamily::Mssql, native(SqlFamily::Mssql), sized), "NVARCHAR(255)");
    assert_eq!(type_text(SqlFamily::Postgres, native(SqlFamily::Postgres), int), "INTEGER");
    assert_eq!(type_text(SqlFamily::Mysql, native(SqlFamily::Mysql), int), "INT");
    assert_eq!(type_text(SqlFamily::Mssql, native(SqlFamily::Mssql), boolean), "BIT");
    assert_eq!(type_text(SqlFamily::Postgres, native(SqlFamily::Postgres), boolean), "BOOLEAN");
    let blob = ColumnType { family: ColumnTypeFamily::Binary, size: None };
    assert_eq!(type_text(SqlFamily::Postgres, native(SqlFamily::Postgres), blob), "BYTEA");
    assert_eq!(type_text(SqlFamily::Sqlite, native(SqlFamily::Sqlite), blob), "BLOB");
}

#[test]
fn columns_are_defined_with_nullability_and_default() {
    let pg = SqlFamily::Postgres;
    assert_eq!(column_text(pg, pg.native_features(), &email()), "\"email\" VARCHAR(255) NOT NULL DEFAULT ''");
    let mut c = column("n", ColumnTypeFamily::BigInt, None, true);
    assert_eq!(column_text(pg, pg.native_features(), &c), "\"n\" BIGINT");
    c.default = Some(DefaultValue::Int(-5));
    assert_eq!(column_text(pg, pg.native_features(), &c), "\"n\" BIGINT DEFAULT -5");
    c.default = Some(DefaultValue::Now);
    assert_eq!(column_text(pg, pg.native_features(), &c), "\"n\" BIGINT DEFAULT CURRENT_TIMESTAMP");
    c.default = Some(DefaultValue::Text("O'Neil; DROP".to_string()));
    assert_eq!(column_text(pg, pg.native_features(), &c), "\"n\" BIGINT DEFAULT 'O''Neil; DROP'");
    c.default = Some(DefaultValue::Bool(true));
    assert_eq!(column_text(pg, pg.native_features(), &c), "\"n\" BIGINT DEFAULT TRUE");
    let my = SqlFamily::Mysql;
    assert_eq!(column_text(my, my.native_features(), &c), "`n` BIGINT DEFAULT 1");
    c.default = Some(DefaultValue::Bool(false));
    assert_eq!(column_text(my, my.native_features(), &c), "`n` BIGINT DEFAULT 0");
    assert_eq!(column_text(pg, pg.native_features(), &c), "\"n\" BIGINT DEFAULT FALSE");
    c.default = Some(DefaultValue::Autoincrement);
    c.nullable = false;
    assert_eq!(column_text(my, my.native_features(), &c), "`n` BIGINT NOT NULL AUTO_INCREMENT");
    assert_eq!(column_text(pg, pg.native_features(), &c), "\"n\" BIGINT NOT NULL GENERATED BY DEFAULT AS IDENTITY");
    assert_eq!(column_text(SqlFamily::Mssql, SqlFamily::Mssql.native_features(), &c), "[n] BIGINT NOT NULL IDENTITY(1,1)");
    assert_eq!(column_text(SqlFamily::Sqlite, SqlFamily::Sqlite.native_features(), &c), "\"n\" INTEGER NOT NULL");
}

#[test]
fn added_column_is_rendered_in_the_backends_syntax() {
    let from = schema(vec![users(false)]);
    let to = schema(vec![users(true)]);
    for family in FAMILIES {
        let steps = diff(&from, &to, family.native_features());
        assert_eq!(steps, vec![DiffStep::AddColumn { table: "users".to_string(), column: email() }]);
        let rendered = render_plan(&steps, family, family.native_features()).unwrap();
        let expected = match family {
            SqlFamily::Postgres => "ALTER TABLE \"users\" ADD COLUMN \"email\" VARCHAR(255) NOT NULL DEFAULT ''",
            SqlFamily::Mysql => "ALTER TABLE `users` ADD COLUMN `email` VARCHAR(255) NOT NULL DEFAULT ''",
            SqlFamily::Sqlite => "ALTER TABLE \"users\" ADD COLUMN \"email\" VARCHAR NOT NULL DEFAULT ''",
            SqlFamily::Mssql => "ALTER TABLE [users] ADD [email] NVARCHAR(255) NOT NULL DEFAULT ''",
        };
        assert_eq!(rendered, vec![vec![expected.to_string()]]);
    }
}

#[test]
fn tables_are_created_with_keys() {
    let mut posts = users(false);
    posts.name = "posts".to_string();
    posts.foreign_keys.push(key());
    assert_eq!(
        create_table(SqlFamily::Sqlite, SqlFamily::Sqlite.native_features(), &posts, "posts"),
        "CREATE TABLE \"posts\" (\"id\" INTEGER NOT NULL, \"name\" VARCHAR, PRIMARY KEY (\"id\"), \
         CONSTRAINT \"posts_author_tenant_fkey\" FOREIGN KEY (\"author\", \"tenant\") REFERENCES \"users\" (\"id\", \"tenant\") \
         ON DELETE CASCADE ON UPDATE NO ACTION)"
    );
    let mut bare = users(false);
    bare.primary_key = vec![];
    assert_eq!(
        one(&DiffStep::CreateTable { table: bare }, SqlFamily::Mysql),
        "CREATE TABLE `users` (`id` INT NOT NULL, `name` VARCHAR(255))"
    );
    assert_eq!(one(&DiffStep::DropTable { table: "users".to_string() }, SqlFamily::Mssql), "DROP TABLE [users]");
}

#[test]
fn foreign_keys_are_added_and_dropped_by_name() {
    let add = DiffStep::AddForeignKey { table: "posts".to_string(), foreign_key: key() };
    let drop = DiffStep::DropForeignKey { table: "posts".to_string(), foreign_key: key() };
    assert_eq!(
        one(&add, SqlFamily::Postgres),
        "ALTER TABLE \"posts\" ADD CONSTRAINT \"posts_author_tenant_fkey\" FOREIGN KEY (\"author\", \"tenant\") \
         REFERENCES \"users\" (\"id\", \"tenant\") ON DELETE CASCADE ON UPDATE NO ACTION"
    );
    assert_eq!(one(&drop, SqlFamily::Postgres), "ALTER TABLE \"posts\" DROP CONSTRAINT \"posts_author_tenant_fkey\"");
    assert_eq!(one(&drop, SqlFamily::Mysql), "ALTER TABLE `posts` DROP FOREIGN KEY `posts_author_tenant_fkey`");
    assert_eq!(one(&drop, SqlFamily::Mssql), "ALTER TABLE [posts] DROP CONSTRAINT [posts_author_tenant_fkey]");
    let sqlite = SqlFamily::Sqlite;
    assert_eq!(render(&add, sqlite, sqlite.native_features()), Err(ConnectorError::UnsupportedFeature));
    assert_eq!(render(&drop, sqlite, sqlite.native_features()), Err(ConnectorError::UnsupportedFeature));
    let long = "a_table_with_a_name_that_is_much_too_long_for_a_constraint_name";
    let name = foreign_key_name(SqlFamily::Postgres, long, &key());
    assert_eq!(name.len(), 63);
    assert_eq!(name, foreign_key_name(SqlFamily::Postgres, long, &key()));
    assert_eq!(name, "a_table_with_a_name_that_is_much_too_long_for_a_constr_4c909860");
    assert_eq!(
        foreign_key_name(SqlFamily::Sqlite, long, &key()),
        format!("{}_author_tenant_fkey", long)
    );
}

#[test]
fn indexes_are_created_and_dropped() {
    let index = Index { name: "by_name".to_string(), columns: vec!["name".to_string(), "id".to_string()], unique: true };
    assert_eq!(
        create_index(SqlFamily::Postgres, "users", &index),
        "CREATE UNIQUE INDEX \"by_name\" ON \"users\" (\"name\", \"id\")"
    );
    let plain = Index { unique: false, ..index.clone() };
    assert_eq!(
        one(&DiffStep::CreateIndex { table: "users".to_string(), index: plain }, SqlFamily::Mysql),
        "CREATE INDEX `by_name` ON `users` (`name`, `id`)"
    );
    let drop = DiffStep::DropIndex { table: "users".to_string(), index: "by_name".to_string() };
    assert_eq!(one(&drop, SqlFamily::Postgres), "DROP INDEX \"by_name\"");
    assert_eq!(one(&drop, SqlFamily::Sqlite), "DROP INDEX \"by_name\"");
    assert_eq!(one(&drop, SqlFamily::Mysql), "DROP INDEX `by_name` ON `users`");
    assert_eq!(one(&drop, SqlFamily::Mssql), "DROP INDEX [by_name] ON [users]");
}

#[test]
fn columns_are_dropped_and_altered() {
    let drop = DiffStep::DropColumn { table: "users".to_string(), column: "name".to_string() };
    assert_eq!(one(&drop, SqlFamily::Postgres), "ALTER TABLE \"users\" DROP COLUMN \"name\"");
    let sqlite = SqlFamily::Sqlite;
    assert_eq!(render(&drop, sqlite, sqlite.native_features()), Err(ConnectorError::UnsupportedFeature));
    assert_eq!(
        render(&drop, sqlite, sqlite.native_features().with(MigrationFeature::ColumnDrop)),
        Ok(vec!["ALTER TABLE \"users\" DROP COLUMN \"name\"".to_string()])
    );
    let alter = DiffStep::AlterColumn {
        table: "users".to_string(),
        previous: column("email", ColumnTypeFamily::Text, None, true),
        next: email(),
    };
    assert_eq!(
        render(&alter, SqlFamily::Postgres, SqlFamily::Postgres.native_features()),
        Ok(vec![
            "ALTER TABLE \"users\" ALTER COLUMN \"email\" TYPE VARCHAR(255)".to_string(),
            "ALTER TABLE \"users\" ALTER COLUMN \"email\" SET NOT NULL".to_string(),
            "ALTER TABLE \"users\" ALTER COLUMN \"email\" SET DEFAULT ''".to_string(),
        ])
    );
    assert_eq!(one(&alter, SqlFamily::Mysql), "ALTER TABLE `users` MODIFY `email` VARCHAR(255) NOT NULL DEFAULT ''");
    assert_eq!(one(&alter, SqlFamily::Mssql), "ALTER TABLE [users] ALTER COLUMN [email] NVARCHAR(255) NOT NULL");
    assert_eq!(render(&alter, sqlite, sqlite.native_features()), Err(ConnectorError::UnsupportedFeature));
    let back = DiffStep::AlterColumn {
        table: "users".to_string(),
        previous: email(),
        next: column("email", ColumnTypeFamily::Text, None, true),
    };
    assert_eq!(
        render(&back, SqlFamily::Postgres, SqlFamily::Postgres.native_features()),
        Ok(vec![
            "ALTER TABLE \"users\" ALTER COLUMN \"email\" TYPE TEXT".to_string(),
            "ALTER TABLE \"users\" ALTER COLUMN \"email\" DROP NOT NULL".to_string(),
            "ALTER TABLE \"users\" ALTER COLUMN \"email\" DROP DEFAULT".to_string(),
        ])
    );
}

#[test]
fn tables_are_rebuilt_under_a_temporary_name() {
    let mut previous = users(false);
    previous.columns.push(column("legacy", ColumnTypeFamily::Text, None, true));
    let mut next = users(true);
    next.indexes.push(Index { name: "by_name".to_string(), columns: vec!["name".to_string()], unique: false });
    let step = DiffStep::RedefineTable { previous: previous.clone(), next: next.clone() };
    let sqlite = SqlFamily::Sqlite;
    assert_eq!(
        render(&step, sqlite, sqlite.native_features()),
        Ok(vec![
            "CREATE TABLE \"_new_users\" (\"id\" INTEGER NOT NULL, \"name\" VARCHAR, \"email\" VARCHAR NOT NULL DEFAULT '', PRIMARY KEY (\"id\"))".to_string(),
            "INSERT INTO \"_new_users\" (\"id\", \"name\") SELECT \"id\", \"name\" FROM \"users\"".to_string(),
            "DROP TABLE \"users\"".to_string(),
            "ALTER TABLE \"_new_users\" RENAME TO \"users\"".to_string(),
            "CREATE INDEX \"by_name\" ON \"users\" (\"name\")".to_string(),
        ])
    );
    assert_eq!(temporary_name(sqlite, "users"), "_new_users");
    let mssql = render(&step, SqlFamily::Mssql, SqlFamily::Mssql.native_features()).unwrap();
    assert_eq!(mssql[3], "EXEC sp_rename '_new_users', 'users'");
    let mut unrelated = users(false);
    unrelated.columns = vec![column("other", ColumnTypeFamily::Int, None, true)];
    let step = DiffStep::RedefineTable { previous: unrelated, next: users(false) };
    let statements = render(&step, sqlite, sqlite.native_features()).unwrap();
    assert_eq!(statements.len(), 3);
    assert!(statements[1].starts_with("DROP TABLE"));
}

#[test]
fn plan_is_rendered_whole_or_not_at_all() {
    let drop = DiffStep::DropColumn { table: "users".to_string(), column: "name".to_string() };
    let fine = DiffStep::DropTable { table: "old".to_string() };
    let sqlite = SqlFamily::Sqlite;
    assert_eq!(render_plan(&vec![], sqlite, sqlite.native_features()), Ok(vec![]));
    assert_eq!(
        render_plan(&vec![fine.clone(), drop.clone()], sqlite, sqlite.native_features()),
        Err(ConnectorError::UnsupportedFeature)
    );
    assert_eq!(
        render_plan(&vec![fine, drop], SqlFamily::Postgres, SqlFamily::Postgres.native_features()),
        Ok(vec![
            vec!["DROP TABLE \"old\"".to_string()],
            vec!["ALTER TABLE \"users\" DROP COLUMN \"name\"".to_string()],
        ])
    );
}

#[test]
fn plans_can_be_rendered_for_the_backend_they_were_made_for() {
    let mut before = users(false);
    before.columns.push(column("legacy", ColumnTypeFamily::Text, None, true));
    before.foreign_keys.push(key());
    let mut after = users(true);
    after.columns[1].tpe.size = Some(100);
    let mut posts = users(false);
    posts.name = "posts".to_string();
    posts.foreign_keys.push(key());
    let from = schema(vec![before]);
    let to = schema(vec![after, posts]);
    for family in FAMILIES {
        for features in [family.native_features(), MigrationFeatures::empty()] {
            let steps = diff(&from, &to, features);
            let rendered = render_plan(&steps, family, features).unwrap();
            assert_eq!(rendered.len(), steps.len());
            assert!(rendered.iter().all(|statements| !statements.is_empty()));
        }
    }
}
