//! SQL flavours hold what is specific to one SQL implementation (PostgreSQL, SQLite...), so
//! that the rest of the connector is free of conditionals on the backend.
use crate::features::MigrationFeatures;
use crate::differ::spec_diff;
use crate::ordering::lemma_no_column_drop_without_support;
use crate::schema::{Name, SqlSchema, SqlSchemaView};
use vstd::prelude::*;

verus! {

/// The maximum size of identifiers on MySQL, in bytes.
pub const MYSQL_IDENTIFIER_SIZE_LIMIT: usize = 64;

/// The maximum size of identifiers on PostgreSQL, in bytes.
pub const POSTGRES_IDENTIFIER_SIZE_LIMIT: usize = 63;

/// The maximum size of identifiers on SQL Server, in bytes.
pub const MSSQL_IDENTIFIER_SIZE_LIMIT: usize = 128;

/// The SQL implementations that the connector migrates.
#[derive(Clone, Copy, Debug, PartialEq, Eq, Structural)]
pub enum SqlFamily {
    Postgres,
    Mysql,
    Sqlite,
    Mssql,
}

impl SqlFamily {
    /// What the backend can do without help: PostgreSQL and SQL Server all of it but that SQL
    /// Server has no boolean type; MySQL all of it outside transactions and without a boolean
    /// type; SQLite changes no existing table but by adding a column, ignores declared sizes
    /// and has no boolean type.
    pub open spec fn spec_native_features(self) -> MigrationFeatures {
        match self {
            SqlFamily::Postgres => MigrationFeatures {
                column_drop: true,
                column_alter: true,
                foreign_key_alter: true,
                transactional_ddl: true,
                sized_types: true,
                native_boolean: true,
            },
            SqlFamily::Mysql => MigrationFeatures {
                column_drop: true,
                column_alter: true,
                foreign_key_alter: true,
                transactional_ddl: false,
                sized_types: true,
                native_boolean: false,
            },
            SqlFamily::Sqlite => MigrationFeatures {
                column_drop: false,
                column_alter: false,
                foreign_key_alter: false,
                transactional_ddl: true,
                sized_types: false,
                native_boolean: false,
            },
            SqlFamily::Mssql => MigrationFeatures {
                column_drop: true,
                column_alter: true,
                foreign_key_alter: true,
                transactional_ddl: true,
                sized_types: true,
                native_boolean: false,
            },
        }
    }

    /// The capabilities of the backend.
    pub fn native_features(self) -> (features: MigrationFeatures)
        ensures
            features == self.spec_native_features(),
    {
        match self {
            SqlFamily::Postgres => MigrationFeatures {
                column_drop: true,
                column_alter: true,
                foreign_key_alter: true,
                transactional_ddl: true,
                sized_types: true,
                native_boolean: true,
            },
            SqlFamily::Mysql => MigrationFeatures {
                column_drop: true,
                column_alter: true,
                foreign_key_alter: true,
                transactional_ddl: false,
                sized_types: true,
                native_boolean: false,
            },
            SqlFamily::Sqlite => MigrationFeatures {
                column_drop: false,
                column_alter: false,
                foreign_key_alter: false,
                transactional_ddl: true,
                sized_types: false,
                native_boolean: false,
            },
            SqlFamily::Mssql => MigrationFeatures {
                column_drop: true,
                column_alter: true,
                foreign_key_alter: true,
                transactional_ddl: true,
                sized_types: true,
                native_boolean: false,
            },
        }
    }

    /// The longest identifier that the backend takes, in bytes; none where it sets no limit.
    pub open spec fn spec_max_identifier_length(self) -> Option<usize> {
        match self {
            SqlFamily::Postgres => Some(POSTGRES_IDENTIFIER_SIZE_LIMIT),
            SqlFamily::Mysql => Some(MYSQL_IDENTIFIER_SIZE_LIMIT),
            SqlFamily::Sqlite => None,
            SqlFamily::Mssql => Some(MSSQL_IDENTIFIER_SIZE_LIMIT),
        }
    }

    /// The longest identifier that the backend takes, in bytes.
    pub fn max_identifier_length(self) -> (limit: Option<usize>)
        ensures
            limit == self.spec_max_identifier_length(),
    {
        match self {
            SqlFamily::Postgres => Some(POSTGRES_IDENTIFIER_SIZE_LIMIT),
            SqlFamily::Mysql => Some(MYSQL_IDENTIFIER_SIZE_LIMIT),
            SqlFamily::Sqlite => None,
            SqlFamily::Mssql => Some(MSSQL_IDENTIFIER_SIZE_LIMIT),
        }
    }
}

/// The parameters of a connection to a database server, already parsed.
#[derive(Debug, PartialEq, Eq)]
pub struct DatabaseUrl {
    pub host: String,
    pub port: u16,
    pub database: String,
    pub user: String,
    pub password: Option<String>,
}

/// Connection parameters as contracts speak of them.
pub struct DatabaseUrlView {
    pub host: Name,
    pub port: u16,
    pub database: Name,
    pub user: Name,
    pub password: Option<Name>,
}

impl View for DatabaseUrl {
    type V = DatabaseUrlView;

    open spec fn view(&self) -> DatabaseUrlView {
        DatabaseUrlView {
            host: self.host@,
            port: self.port,
            database: self.database@,
            user: self.user@,
            password: match self.password {
                Some(p) => Some(p@),
                None => None,
            },
        }
    }
}

impl Clone for DatabaseUrl {
    fn clone(&self) -> (copy: DatabaseUrl)
        ensures
            copy@ == self@,
    {
        let password = match &self.password {
            Some(p) => Some(p.clone()),
            None => None,
        };
        DatabaseUrl {
            host: self.host.clone(),
            port: self.port,
            database: self.database.clone(),
            user: self.user.clone(),
            password,
        }
    }
}

/// What a connection goes to.
#[derive(Debug, PartialEq, Eq)]
pub enum ConnectionInfo {
    Postgres(DatabaseUrl),
    Mysql(DatabaseUrl),
    Sqlite { file_path: String, db_name: String },
    Mssql(DatabaseUrl),
    InMemorySqlite { db_name: String },
}

/// A connection target as contracts speak of it.
pub enum ConnectionInfoView {
    Postgres(DatabaseUrlView),
    Mysql(DatabaseUrlView),
    Sqlite { file_path: Name, db_name: Name },
    Mssql(DatabaseUrlView),
    InMemorySqlite { db_name: Name },
}

impl View for ConnectionInfo {
    type V = ConnectionInfoView;

    open spec fn view(&self) -> ConnectionInfoView {
        match self {
            ConnectionInfo::Postgres(url) => ConnectionInfoView::Postgres(url@),
            ConnectionInfo::Mysql(url) => ConnectionInfoView::Mysql(url@),
            ConnectionInfo::Sqlite { file_path, db_name } => ConnectionInfoView::Sqlite {
                file_path: file_path@,
                db_name: db_name@,
            },
            ConnectionInfo::Mssql(url) => ConnectionInfoView::Mssql(url@),
            ConnectionInfo::InMemorySqlite { db_name } => ConnectionInfoView::InMemorySqlite {
                db_name: db_name@,
            },
        }
    }
}

/// The flavour for SQL Server.
#[derive(Debug, PartialEq, Eq)]
pub struct MssqlFlavour {
    pub url: DatabaseUrl,
    pub features: MigrationFeatures,
}

/// The flavour for MySQL.
#[derive(Debug, PartialEq, Eq)]
pub struct MysqlFlavour {
    pub url: DatabaseUrl,
    pub features: MigrationFeatures,
}

/// The flavour for PostgreSQL.
#[derive(Debug, PartialEq, Eq)]
pub struct PostgresFlavour {
    pub url: DatabaseUrl,
    pub features: MigrationFeatures,
}

/// The flavour for SQLite.
#[derive(Debug, PartialEq, Eq)]
pub struct SqliteFlavour {
    pub file_path: String,
    pub attached_name: String,
    pub features: MigrationFeatures,
}

impl MssqlFlavour {
    /// The flavour for the server at `url` with the capability set `features`.
    pub fn new(url: DatabaseUrl, features: MigrationFeatures) -> (flavour: MssqlFlavour)
        ensures
            flavour.url == url,
            flavour.features == features,
    {
        MssqlFlavour { url, features }
    }
}

impl MysqlFlavour {
    /// The flavour for the server at `url` with the capability set `features`.
    pub fn new(url: DatabaseUrl, features: MigrationFeatures) -> (flavour: MysqlFlavour)
        ensures
            flavour.url == url,
            flavour.features == features,
    {
        MysqlFlavour { url, features }
    }
}

impl PostgresFlavour {
    /// The flavour for the server at `url` with the capability set `features`.
    pub fn new(url: DatabaseUrl, features: MigrationFeatures) -> (flavour: PostgresFlavour)
        ensures
            flavour.url == url,
            flavour.features == features,
    {
        PostgresFlavour { url, features }
    }
}

/// The name of a table, with the database it lives in where one is named.
#[derive(Debug, PartialEq, Eq)]
pub struct TableReference {
    pub database: Option<String>,
    pub name: String,
}

/// A warning that the database's version cannot hold what the target schema asks for.
#[derive(Debug, PartialEq, Eq)]
pub struct DatabaseVersionIncompatibility {
    pub message: String,
}

/// The flavour of one backend. It is chosen once, from the connection target, and keeps
/// nothing but that target and the feature flags it was made with.
#[derive(Debug, PartialEq, Eq)]
pub enum SqlFlavour {
    Mssql(MssqlFlavour),
    Mysql(MysqlFlavour),
    Postgres(PostgresFlavour),
    Sqlite(SqliteFlavour),
}

impl SqlFlavour {
    /// The SQL implementation that the flavour stands for.
    pub open spec fn spec_family(&self) -> SqlFamily {
        match self {
            SqlFlavour::Mssql(_) => SqlFamily::Mssql,
            SqlFlavour::Mysql(_) => SqlFamily::Mysql,
            SqlFlavour::Postgres(_) => SqlFamily::Postgres,
            SqlFlavour::Sqlite(_) => SqlFamily::Sqlite,
        }
    }

    /// The feature flags that the flavour was made with.
    pub open spec fn spec_features(&self) -> MigrationFeatures {
        match self {
            SqlFlavour::Mssql(f) => f.features,
            SqlFlavour::Mysql(f) => f.features,
            SqlFlavour::Postgres(f) => f.features,
            SqlFlavour::Sqlite(f) => f.features,
        }
    }

    /// The connection target that the flavour was made for.
    pub open spec fn spec_target(&self) -> ConnectionInfoView {
        match self {
            SqlFlavour::Mssql(f) => ConnectionInfoView::Mssql(f.url@),
            SqlFlavour::Mysql(f) => ConnectionInfoView::Mysql(f.url@),
            SqlFlavour::Postgres(f) => ConnectionInfoView::Postgres(f.url@),
            SqlFlavour::Sqlite(f) => ConnectionInfoView::Sqlite {
                file_path: f.file_path@,
                db_name: f.attached_name@,
            },
        }
    }

    /// The SQL implementation that the flavour stands for.
    pub fn family(&self) -> (family: SqlFamily)
        ensures
            family == self.spec_family(),
    {
        match self {
            SqlFlavour::Mssql(_) => SqlFamily::Mssql,
            SqlFlavour::Mysql(_) => SqlFamily::Mysql,
            SqlFlavour::Postgres(_) => SqlFamily::Postgres,
            SqlFlavour::Sqlite(_) => SqlFamily::Sqlite,
        }
    }

    /// What the backend can do. The set is fixed by the flavour's family, whatever feature
    /// flags the flavour was made with, and it is the set that the differ and the renderer
    /// consult.
    pub open spec fn spec_capabilities(&self) -> MigrationFeatures {
        self.spec_family().spec_native_features()
    }

    /// What the backend can do: the capability set that the differ and the renderer consult.
    pub fn capabilities(&self) -> (capabilities: MigrationFeatures)
        ensures
            capabilities == self.spec_capabilities(),
    {
        self.family().native_features()
    }

    /// Feature flags for the flavour, as they were given when the flavour was made.
    pub fn features(&self) -> (features: MigrationFeatures)
        ensures
            features == self.spec_features(),
    {
        match self {
            SqlFlavour::Mssql(f) => f.features,
            SqlFlavour::Mysql(f) => f.features,
            SqlFlavour::Postgres(f) => f.features,
            SqlFlavour::Sqlite(f) => f.features,
        }
    }

    /// Checks the target schema against the database's version. The warning advises and
    /// never blocks; no flavour has one to give.
    pub fn check_database_version_compatibility(&self, _target: &SqlSchema) -> (warning: Option<
        DatabaseVersionIncompatibility,
    >)
        ensures
            warning is None,
    {
        None
    }

    /// Optionally scan a migration script that could have been altered by users and emit
    /// warnings. No flavour scans anything.
    pub fn scan_migration_script(&self, _script: &str) {
    }

    /// Table to store applied migrations, the name part.
    pub fn migrations_table_name(&self) -> (name: &'static str)
        ensures
            name@ == "_prisma_migrations"@,
    {
        "_prisma_migrations"
    }

    /// Table to store applied migrations.
    pub fn migrations_table(&self) -> (table: TableReference)
        ensures
            table.database is None,
            table.name@ == "_prisma_migrations"@,
    {
        TableReference { database: None, name: self.migrations_table_name().to_owned() }
    }
}

/// Whether a flavour exists for the target: one does for every target but a SQLite database
/// held in memory.
pub open spec fn has_flavour(connection_info: ConnectionInfoView) -> bool {
    !(connection_info is InMemorySqlite)
}

/// The flavour for a connection target. The flavour is chosen by the kind of the target
/// alone, and keeps the target and the feature flags as they came. What the backend can do
/// is fixed by its family: see [`SqlFlavour::capabilities`].
pub fn from_connection_info(connection_info: &ConnectionInfo, features: MigrationFeatures) -> (flavour:
    SqlFlavour)
    requires
        has_flavour(connection_info@),
    ensures
        flavour.spec_target() == connection_info@,
        flavour.spec_features() == features,
{
    match connection_info {
        ConnectionInfo::Mysql(url) => SqlFlavour::Mysql(MysqlFlavour::new(url.clone(), features)),
        ConnectionInfo::Postgres(url) => SqlFlavour::Postgres(
            PostgresFlavour::new(url.clone(), features),
        ),
        ConnectionInfo::Sqlite { file_path, db_name } => SqlFlavour::Sqlite(
            SqliteFlavour {
                file_path: file_path.clone(),
                attached_name: db_name.clone(),
                features,
            },
        ),
        ConnectionInfo::Mssql(url) => SqlFlavour::Mssql(MssqlFlavour::new(url.clone(), features)),
        ConnectionInfo::InMemorySqlite { .. } => vstd::pervasive::unreached(),
    }
}

/// The flavour for a connection target, or nothing where there is none for it.
pub fn try_from_connection_info(connection_info: &ConnectionInfo, features: MigrationFeatures) -> (flavour:
    Option<SqlFlavour>)
    ensures
        flavour is Some == has_flavour(connection_info@),
        flavour is Some ==> flavour.unwrap().spec_target() == connection_info@,
        flavour is Some ==> flavour.unwrap().spec_features() == features,
{
    match connection_info {
        ConnectionInfo::InMemorySqlite { .. } => None,
        _ => Some(from_connection_info(connection_info, features)),
    }
}

/// The plan made for a flavour whose backend cannot drop columns drops no column, whatever
/// feature flags the flavour was made with: the plan goes by the backend's capabilities.
pub proof fn lemma_plan_for_flavour_drops_no_column(
    flavour: SqlFlavour,
    from: SqlSchemaView,
    to: SqlSchemaView,
    k: int,
)
    requires
        !flavour.spec_family().spec_native_features().column_drop,
        0 <= k < spec_diff(from, to, flavour.spec_capabilities()).len(),
    ensures
        !(spec_diff(from, to, flavour.spec_capabilities())[k] is DropColumn),
{
    lemma_no_column_drop_without_support(from, to, flavour.spec_capabilities(), k);
}

} // verus!
