//! The renderer: the SQL statements that carry out a step on a backend.
use crate::differ::{find_column, find_column_index, lemma_seq_view_push, DiffStep, DiffStepView};
use crate::error::ConnectorError;
use crate::features::MigrationFeatures;
use crate::flavour::SqlFamily;
use crate::identifier::{shorten_for, spec_shorten};
use crate::ordering::is_supported;
use crate::schema::{
    seq_view, Column, ColumnType, ColumnTypeFamily, ColumnView, DefaultValue, DefaultValueView,
    ForeignKey, ForeignKeyAction, ForeignKeyView, Index, IndexView, Name, Table, TableView,
};
use crate::text::{decimal, join, signed_decimal, spec_decimal, spec_joined, spec_signed_decimal};
use vstd::prelude::*;
use vstd::string::StrSliceExecFns;
use vstd::string::StringExecFns;

verus! {

/// What opens a quoted identifier on a backend.
pub open spec fn spec_quote_open(family: SqlFamily) -> Seq<char> {
    match family {
        SqlFamily::Mysql => "`"@,
        SqlFamily::Mssql => "["@,
        _ => "\""@,
    }
}

/// What closes a quoted identifier on a backend.
pub open spec fn spec_quote_close(family: SqlFamily) -> Seq<char> {
    match family {
        SqlFamily::Mysql => "`"@,
        SqlFamily::Mssql => "]"@,
        _ => "\""@,
    }
}

/// The character that ends a quoted identifier on a backend, and so has to be doubled where
/// a name holds it.
pub open spec fn spec_quote_mark(family: SqlFamily) -> char {
    match family {
        SqlFamily::Mysql => '`',
        SqlFamily::Mssql => ']',
        _ => '"',
    }
}

/// The first `n` characters of `text`, with each `mark` among them doubled.
pub open spec fn spec_doubled(text: Seq<char>, mark: char, n: nat) -> Seq<char>
    decreases n,
{
    if n == 0 {
        Seq::empty()
    } else if text[n - 1] == mark {
        spec_doubled(text, mark, (n - 1) as nat).push(mark).push(mark)
    } else {
        spec_doubled(text, mark, (n - 1) as nat).push(text[n - 1])
    }
}

/// A text as it stands between single quotes in a statement: with each single quote in it
/// doubled.
pub open spec fn spec_literal(text: Seq<char>) -> Seq<char> {
    "'"@ + spec_doubled(text, '\'', text.len()) + "'"@
}

/// A name as an identifier of the backend: between the backend's quotes, with each closing
/// quote in it doubled.
pub open spec fn spec_quote(family: SqlFamily, name: Name) -> Seq<char> {
    spec_quote_open(family) + spec_doubled(name, spec_quote_mark(family), name.len())
        + spec_quote_close(family)
}

fn doubled(text: &str, mark: char, twice: &str) -> (out: String)
    requires
        twice@ == seq![mark, mark],
    ensures
        out@ == spec_doubled(text@, mark, text@.len()),
{
    let length = text.unicode_len();
    let mut out = String::new();
    let mut i: usize = 0;
    assert(out@ =~= spec_doubled(text@, mark, 0));
    while i < length
        invariant
            0 <= i <= length,
            length == text@.len(),
            twice@ == seq![mark, mark],
            out@ == spec_doubled(text@, mark, i as nat),
        decreases length - i,
    {
        let ghost done = out@;
        if text.get_char(i) == mark {
            out.append(twice);
            assert(out@ =~= done.push(mark).push(mark));
        } else {
            out.append(text.substring_char(i, i + 1));
            assert(out@ =~= done.push(text@[i as int]));
        }
        i += 1;
    }
    out
}

/// A text as it stands between single quotes in a statement.
pub fn literal(text: &str) -> (out: String)
    ensures
        out@ == spec_literal(text@),
{
    proof {
        reveal_strlit("''");
        assert("''"@ =~= seq!['\'', '\'']);
    }
    let mut out = String::from_str("'");
    out.append(doubled(text, '\'', "''").as_str());
    out.append("'");
    out
}

/// A name as an identifier of the backend.
pub fn quote(family: SqlFamily, name: &str) -> (text: String)
    ensures
        text@ == spec_quote(family, name@),
{
    proof {
        reveal_strlit("``");
        reveal_strlit("]]");
        reveal_strlit("\"\"");
        assert("``"@ =~= seq!['`', '`']);
        assert("]]"@ =~= seq![']', ']']);
        assert("\"\""@ =~= seq!['"', '"']);
    }
    let mut text = String::new();
    match family {
        SqlFamily::Mysql => {
            text.append("`");
            text.append(doubled(name, '`', "``").as_str());
            text.append("`");
        },
        SqlFamily::Mssql => {
            text.append("[");
            text.append(doubled(name, ']', "]]").as_str());
            text.append("]");
        },
        _ => {
            text.append("\"");
            text.append(doubled(name, '"', "\"\"").as_str());
            text.append("\"");
        },
    }
    assert(text@ =~= spec_quote(family, name@));
    text
}

/// The names as identifiers of the backend.
pub open spec fn spec_quoted(family: SqlFamily, names: Seq<Name>) -> Seq<Seq<char>> {
    Seq::new(names.len(), |i: int| spec_quote(family, names[i]))
}

/// A list of names as the backend writes it: quoted, with commas between.
pub open spec fn spec_name_list(family: SqlFamily, names: Seq<Name>) -> Seq<char> {
    spec_joined(spec_quoted(family, names), ", "@, names.len())
}

/// A list of names as the backend writes it.
pub fn name_list(family: SqlFamily, names: &Vec<String>) -> (text: String)
    ensures
        text@ == spec_name_list(family, seq_view(names@)),
{
    let mut quoted: Vec<String> = Vec::new();
    let mut i: usize = 0;
    while i < names.len()
        invariant
            0 <= i <= names.len(),
            quoted@.len() == i,
            forall|k: int| 0 <= k < i ==> quoted@[k]@ == spec_quote(family, names@[k]@),
        decreases names.len() - i,
    {
        quoted.push(quote(family, names[i].as_str()));
        i += 1;
    }
    assert(seq_view(quoted@) =~= spec_quoted(family, seq_view(names@)));
    join(&quoted, ", ")
}

/// The backend's name for a family of types.
pub open spec fn spec_family_name(family: SqlFamily, tpe: ColumnTypeFamily) -> Seq<char> {
    match tpe {
        ColumnTypeFamily::SmallInt => match family {
            SqlFamily::Sqlite => "INTEGER"@,
            _ => "SMALLINT"@,
        },
        ColumnTypeFamily::Int => match family {
            SqlFamily::Mysql => "INT"@,
            SqlFamily::Mssql => "INT"@,
            _ => "INTEGER"@,
        },
        ColumnTypeFamily::BigInt => match family {
            SqlFamily::Sqlite => "INTEGER"@,
            _ => "BIGINT"@,
        },
        ColumnTypeFamily::Decimal => "DECIMAL"@,
        ColumnTypeFamily::Boolean => match family {
            SqlFamily::Mssql => "BIT"@,
            _ => "BOOLEAN"@,
        },
        ColumnTypeFamily::Text => match family {
            SqlFamily::Mssql => "NVARCHAR(MAX)"@,
            _ => "TEXT"@,
        },
        ColumnTypeFamily::Varchar => match family {
            SqlFamily::Mssql => "NVARCHAR"@,
            _ => "VARCHAR"@,
        },
        ColumnTypeFamily::DateTime => match family {
            SqlFamily::Postgres => "TIMESTAMP"@,
            SqlFamily::Mssql => "DATETIME2"@,
            _ => "DATETIME"@,
        },
        ColumnTypeFamily::Binary => match family {
            SqlFamily::Postgres => "BYTEA"@,
            SqlFamily::Mssql => "VARBINARY(MAX)"@,
            _ => "BLOB"@,
        },
    }
}

/// The backend's name for a family of types.
pub fn family_name(family: SqlFamily, tpe: ColumnTypeFamily) -> (name: &'static str)
    ensures
        name@ == spec_family_name(family, tpe),
{
    match tpe {
        ColumnTypeFamily::SmallInt => match family {
            SqlFamily::Sqlite => "INTEGER",
            _ => "SMALLINT",
        },
        ColumnTypeFamily::Int => match family {
            SqlFamily::Mysql => "INT",
            SqlFamily::Mssql => "INT",
            _ => "INTEGER",
        },
        ColumnTypeFamily::BigInt => match family {
            SqlFamily::Sqlite => "INTEGER",
            _ => "BIGINT",
        },
        ColumnTypeFamily::Decimal => "DECIMAL",
        ColumnTypeFamily::Boolean => match family {
            SqlFamily::Mssql => "BIT",
            _ => "BOOLEAN",
        },
        ColumnTypeFamily::Text => match family {
            SqlFamily::Mssql => "NVARCHAR(MAX)",
            _ => "TEXT",
        },
        ColumnTypeFamily::Varchar => match family {
            SqlFamily::Mssql => "NVARCHAR",
            _ => "VARCHAR",
        },
        ColumnTypeFamily::DateTime => match family {
            SqlFamily::Postgres => "TIMESTAMP",
            SqlFamily::Mssql => "DATETIME2",
            _ => "DATETIME",
        },
        ColumnTypeFamily::Binary => match family {
            SqlFamily::Postgres => "BYTEA",
            SqlFamily::Mssql => "VARBINARY(MAX)",
            _ => "BLOB",
        },
    }
}

/// A column type as the backend writes it: the name of its family, and its size in
/// parentheses where one is declared and the backend keeps sizes.
pub open spec fn spec_type_text(
    family: SqlFamily,
    features: MigrationFeatures,
    tpe: ColumnType,
) -> Seq<char> {
    match tpe.size {
        Some(size) => if features.sized_types {
            spec_family_name(family, tpe.family) + "("@ + spec_decimal(size as nat) + ")"@
        } else {
            spec_family_name(family, tpe.family)
        },
        None => spec_family_name(family, tpe.family),
    }
}

/// A column type as the backend writes it.
pub fn type_text(family: SqlFamily, features: MigrationFeatures, tpe: ColumnType) -> (text: String)
    ensures
        text@ == spec_type_text(family, features, tpe),
{
    let mut text = String::from_str(family_name(family, tpe.family));
    match tpe.size {
        Some(size) => {
            if features.sized_types {
                text.append("(");
                text.append(decimal(size as u64).as_str());
                text.append(")");
            }
        },
        None => {},
    }
    text
}

/// What a column definition says of the column's default: a `DEFAULT` clause for a value,
/// the backend's own words for a column that counts up by itself, nothing where there is no
/// default. Text is written between single quotes, with the single quotes in it doubled.
pub open spec fn spec_default_text(
    family: SqlFamily,
    features: MigrationFeatures,
    default: Option<DefaultValueView>,
) -> Seq<char> {
    match default {
        None => Seq::empty(),
        Some(DefaultValueView::Int(n)) => " DEFAULT "@ + spec_signed_decimal(n as int),
        Some(DefaultValueView::Bool(b)) => if features.native_boolean {
            if b {
                " DEFAULT TRUE"@
            } else {
                " DEFAULT FALSE"@
            }
        } else if b {
            " DEFAULT 1"@
        } else {
            " DEFAULT 0"@
        },
        Some(DefaultValueView::Text(s)) => " DEFAULT "@ + spec_literal(s),
        Some(DefaultValueView::Now) => " DEFAULT CURRENT_TIMESTAMP"@,
        Some(DefaultValueView::Autoincrement) => match family {
            SqlFamily::Postgres => " GENERATED BY DEFAULT AS IDENTITY"@,
            SqlFamily::Mysql => " AUTO_INCREMENT"@,
            SqlFamily::Sqlite => Seq::empty(),
            SqlFamily::Mssql => " IDENTITY(1,1)"@,
        },
    }
}

/// What a column definition says of the column's default.
pub fn default_text(
    family: SqlFamily,
    features: MigrationFeatures,
    default: &Option<DefaultValue>,
) -> (text: String)
    ensures
        text@ == spec_default_text(family, features, crate::schema::default_view(*default)),
{
    match default {
        None => String::new(),
        Some(DefaultValue::Int(n)) => {
            let mut text = String::from_str(" DEFAULT ");
            text.append(signed_decimal(*n).as_str());
            text
        },
        Some(DefaultValue::Bool(b)) => if features.native_boolean {
            if *b {
                String::from_str(" DEFAULT TRUE")
            } else {
                String::from_str(" DEFAULT FALSE")
            }
        } else if *b {
            String::from_str(" DEFAULT 1")
        } else {
            String::from_str(" DEFAULT 0")
        },
        Some(DefaultValue::Text(s)) => {
            let mut text = String::from_str(" DEFAULT ");
            text.append(literal(s.as_str()).as_str());
            text
        },
        Some(DefaultValue::Now) => String::from_str(" DEFAULT CURRENT_TIMESTAMP"),
        Some(DefaultValue::Autoincrement) => match family {
            SqlFamily::Postgres => String::from_str(" GENERATED BY DEFAULT AS IDENTITY"),
            SqlFamily::Mysql => String::from_str(" AUTO_INCREMENT"),
            SqlFamily::Sqlite => String::new(),
            SqlFamily::Mssql => String::from_str(" IDENTITY(1,1)"),
        },
    }
}

/// A column definition as the backend writes it: name, type, `NOT NULL` where the column
/// takes no nulls, and the default.
pub open spec fn spec_column_text(
    family: SqlFamily,
    features: MigrationFeatures,
    column: ColumnView,
) -> Seq<char> {
    spec_quote(family, column.name) + " "@ + spec_type_text(family, features, column.tpe) + (
    if column.nullable {
        Seq::<char>::empty()
    } else {
        " NOT NULL"@
    }) + spec_default_text(family, features, column.default)
}

/// A column definition as the backend writes it.
pub fn column_text(family: SqlFamily, features: MigrationFeatures, column: &Column) -> (text:
    String)
    ensures
        text@ == spec_column_text(family, features, column@),
{
    let mut text = quote(family, column.name.as_str());
    text.append(" ");
    text.append(type_text(family, features, column.tpe).as_str());
    text.append(if column.nullable {
        ""
    } else {
        " NOT NULL"
    });
    text.append(default_text(family, features, &column.default).as_str());
    proof {
        reveal_strlit("");
        assert(""@ =~= Seq::<char>::empty());
    }
    text
}

/// What the backend calls an action on delete or update.
pub open spec fn spec_action_text(action: ForeignKeyAction) -> Seq<char> {
    match action {
        ForeignKeyAction::NoAction => "NO ACTION"@,
        ForeignKeyAction::Restrict => "RESTRICT"@,
        ForeignKeyAction::Cascade => "CASCADE"@,
        ForeignKeyAction::SetNull => "SET NULL"@,
        ForeignKeyAction::SetDefault => "SET DEFAULT"@,
    }
}

/// What the backend calls an action on delete or update.
pub fn action_text(action: ForeignKeyAction) -> (text: &'static str)
    ensures
        text@ == spec_action_text(action),
{
    match action {
        ForeignKeyAction::NoAction => "NO ACTION",
        ForeignKeyAction::Restrict => "RESTRICT",
        ForeignKeyAction::Cascade => "CASCADE",
        ForeignKeyAction::SetNull => "SET NULL",
        ForeignKeyAction::SetDefault => "SET DEFAULT",
    }
}

/// The name under which a foreign key of `table` is known to the backend: the table's name,
/// the names of the key's columns and `fkey`, with underscores between, fitted into the
/// backend's identifiers.
pub open spec fn spec_foreign_key_name(
    family: SqlFamily,
    table: Name,
    foreign_key: ForeignKeyView,
) -> Seq<char> {
    let long = table + "_"@ + spec_joined(foreign_key.columns, "_"@, foreign_key.columns.len())
        + "_fkey"@;
    match family.spec_max_identifier_length() {
        Some(limit) => spec_shorten(long, limit as nat),
        None => long,
    }
}

/// The name under which a foreign key of `table` is known to the backend.
pub fn foreign_key_name(family: SqlFamily, table: &str, foreign_key: &ForeignKey) -> (name: String)
    ensures
        name@ == spec_foreign_key_name(family, table@, foreign_key@),
{
    let mut long = String::from_str(table);
    long.append("_");
    long.append(join(&foreign_key.columns, "_").as_str());
    long.append("_fkey");
    shorten_for(family, long.as_str())
}

/// A foreign key as a table constraint.
pub open spec fn spec_foreign_key_text(
    family: SqlFamily,
    table: Name,
    foreign_key: ForeignKeyView,
) -> Seq<char> {
    "CONSTRAINT "@ + spec_quote(family, spec_foreign_key_name(family, table, foreign_key))
        + " FOREIGN KEY ("@ + spec_name_list(family, foreign_key.columns) + ") REFERENCES "@
        + spec_quote(family, foreign_key.referenced_table) + " ("@ + spec_name_list(
        family,
        foreign_key.referenced_columns,
    ) + ") ON DELETE "@ + spec_action_text(foreign_key.on_delete) + " ON UPDATE "@
        + spec_action_text(foreign_key.on_update)
}

/// A foreign key as a table constraint.
pub fn foreign_key_text(family: SqlFamily, table: &str, foreign_key: &ForeignKey) -> (text: String)
    ensures
        text@ == spec_foreign_key_text(family, table@, foreign_key@),
{
    let mut text = String::from_str("CONSTRAINT ");
    text.append(quote(family, foreign_key_name(family, table, foreign_key).as_str()).as_str());
    text.append(" FOREIGN KEY (");
    text.append(name_list(family, &foreign_key.columns).as_str());
    text.append(") REFERENCES ");
    text.append(quote(family, foreign_key.referenced_table.as_str()).as_str());
    text.append(" (");
    text.append(name_list(family, &foreign_key.referenced_columns).as_str());
    text.append(") ON DELETE ");
    text.append(action_text(foreign_key.on_delete));
    text.append(" ON UPDATE ");
    text.append(action_text(foreign_key.on_update));
    text
}


/// The definitions of `columns` as the backend writes them.
pub open spec fn spec_column_texts(
    family: SqlFamily,
    features: MigrationFeatures,
    columns: Seq<ColumnView>,
) -> Seq<Seq<char>> {
    Seq::new(columns.len(), |i: int| spec_column_text(family, features, columns[i]))
}

/// The foreign-key constraints for the first `n` of `foreign_keys`, each after a comma.
pub open spec fn spec_constraints_text(
    family: SqlFamily,
    table: Name,
    foreign_keys: Seq<ForeignKeyView>,
    n: nat,
) -> Seq<char>
    decreases n,
{
    if n == 0 {
        Seq::empty()
    } else {
        spec_constraints_text(family, table, foreign_keys, (n - 1) as nat) + ", "@
            + spec_foreign_key_text(family, table, foreign_keys[n - 1])
    }
}

/// The statement that creates `table` under the name `name`: the columns, the primary key
/// where there is one, and the foreign keys that the definition carries.
pub open spec fn spec_create_table(
    family: SqlFamily,
    features: MigrationFeatures,
    table: TableView,
    name: Name,
) -> Seq<char> {
    "CREATE TABLE "@ + spec_quote(family, name) + " ("@ + spec_joined(
        spec_column_texts(family, features, table.columns),
        ", "@,
        table.columns.len(),
    ) + (if table.primary_key.len() > 0 {
        ", PRIMARY KEY ("@ + spec_name_list(family, table.primary_key) + ")"@
    } else {
        Seq::<char>::empty()
    }) + spec_constraints_text(family, table.name, table.foreign_keys, table.foreign_keys.len())
        + ")"@
}

/// The statement that creates `table` under the name `name`.
pub fn create_table(family: SqlFamily, features: MigrationFeatures, table: &Table, name: &str) -> (text:
    String)
    ensures
        text@ == spec_create_table(family, features, table@, name@),
{
    let mut columns: Vec<String> = Vec::new();
    let mut i: usize = 0;
    while i < table.columns.len()
        invariant
            0 <= i <= table.columns.len(),
            columns@.len() == i,
            forall|k: int|
                0 <= k < i ==> columns@[k]@ == spec_column_text(
                    family,
                    features,
                    table.columns@[k]@,
                ),
        decreases table.columns.len() - i,
    {
        columns.push(column_text(family, features, &table.columns[i]));
        i += 1;
    }
    assert(seq_view(columns@) =~= spec_column_texts(family, features, table@.columns));
    let mut text = String::from_str("CREATE TABLE ");
    text.append(quote(family, name).as_str());
    text.append(" (");
    text.append(join(&columns, ", ").as_str());
    let mut key = String::new();
    if table.primary_key.len() > 0 {
        key.append(", PRIMARY KEY (");
        key.append(name_list(family, &table.primary_key).as_str());
        key.append(")");
        assert(key@ =~= ", PRIMARY KEY ("@ + spec_name_list(family, table@.primary_key) + ")"@);
    }
    text.append(key.as_str());
    let mut constraints = String::new();
    let mut j: usize = 0;
    while j < table.foreign_keys.len()
        invariant
            0 <= j <= table.foreign_keys.len(),
            constraints@ == spec_constraints_text(
                family,
                table@.name,
                table@.foreign_keys,
                j as nat,
            ),
        decreases table.foreign_keys.len() - j,
    {
        let ghost done = constraints@;
        constraints.append(", ");
        constraints.append(
            foreign_key_text(family, table.name.as_str(), &table.foreign_keys[j]).as_str(),
        );
        j += 1;
    }
    text.append(constraints.as_str());
    text.append(")");
    text
}

/// The statement that creates `index` on `table`.
pub open spec fn spec_create_index(family: SqlFamily, table: Name, index: IndexView) -> Seq<char> {
    (if index.unique {
        "CREATE UNIQUE INDEX "@
    } else {
        "CREATE INDEX "@
    }) + spec_quote(family, index.name) + " ON "@ + spec_quote(family, table) + " ("@
        + spec_name_list(family, index.columns) + ")"@
}

/// The statement that creates `index` on `table`.
pub fn create_index(family: SqlFamily, table: &str, index: &Index) -> (text: String)
    ensures
        text@ == spec_create_index(family, table@, index@),
{
    let mut text = String::from_str(
        if index.unique {
            "CREATE UNIQUE INDEX "
        } else {
            "CREATE INDEX "
        },
    );
    text.append(quote(family, index.name.as_str()).as_str());
    text.append(" ON ");
    text.append(quote(family, table).as_str());
    text.append(" (");
    text.append(name_list(family, &index.columns).as_str());
    text.append(")");
    text
}

/// `ALTER TABLE` and the table's name.
pub open spec fn spec_alter_table(family: SqlFamily, table: Name) -> Seq<char> {
    "ALTER TABLE "@ + spec_quote(family, table)
}

/// `ALTER TABLE` and the table's name.
pub fn alter_table(family: SqlFamily, table: &str) -> (text: String)
    ensures
        text@ == spec_alter_table(family, table@),
{
    let mut text = String::from_str("ALTER TABLE ");
    text.append(quote(family, table).as_str());
    text
}

/// The statements that change a column of `table` to `column`. MySQL restates the column;
/// SQL Server restates its type and whether it takes nulls; the others change the type,
/// then whether it takes nulls, then the default.
pub open spec fn spec_alter_column(
    family: SqlFamily,
    features: MigrationFeatures,
    table: Name,
    column: ColumnView,
) -> Seq<Seq<char>> {
    match family {
        SqlFamily::Mysql => seq![
            spec_alter_table(family, table) + " MODIFY "@ + spec_column_text(
                family,
                features,
                column,
            ),
        ],
        SqlFamily::Mssql => seq![
            spec_alter_table(family, table) + " ALTER COLUMN "@ + spec_quote(family, column.name)
                + " "@ + spec_type_text(family, features, column.tpe) + (if column.nullable {
                " NULL"@
            } else {
                " NOT NULL"@
            }),
        ],
        _ => {
            let head = spec_alter_table(family, table) + " ALTER COLUMN "@ + spec_quote(
                family,
                column.name,
            );
            seq![
                head + " TYPE "@ + spec_type_text(family, features, column.tpe),
                head + (if column.nullable {
                    " DROP NOT NULL"@
                } else {
                    " SET NOT NULL"@
                }),
                head + (if has_default_value(column.default) {
                    " SET"@ + spec_default_text(family, features, column.default)
                } else {
                    " DROP DEFAULT"@
                }),
            ]
        },
    }
}

/// Whether a default is a value, which a `DEFAULT` clause can state.
pub open spec fn has_default_value(default: Option<DefaultValueView>) -> bool {
    match default {
        None => false,
        Some(DefaultValueView::Autoincrement) => false,
        Some(_) => true,
    }
}

/// The statements that change a column of `table` to `column`.
pub fn alter_column(
    family: SqlFamily,
    features: MigrationFeatures,
    table: &str,
    column: &Column,
) -> (statements: Vec<String>)
    ensures
        seq_view(statements@) == spec_alter_column(family, features, table@, column@),
{
    let mut statements: Vec<String> = Vec::new();
    match family {
        SqlFamily::Mysql => {
            let mut text = alter_table(family, table);
            text.append(" MODIFY ");
            text.append(column_text(family, features, column).as_str());
            statements.push(text);
        },
        SqlFamily::Mssql => {
            let mut text = alter_table(family, table);
            text.append(" ALTER COLUMN ");
            text.append(quote(family, column.name.as_str()).as_str());
            text.append(" ");
            text.append(type_text(family, features, column.tpe).as_str());
            text.append(if column.nullable {
                " NULL"
            } else {
                " NOT NULL"
            });
            statements.push(text);
        },
        _ => {
            let mut head = alter_table(family, table);
            head.append(" ALTER COLUMN ");
            head.append(quote(family, column.name.as_str()).as_str());
            let mut first = head.clone();
            first.append(" TYPE ");
            first.append(type_text(family, features, column.tpe).as_str());
            let mut second = head.clone();
            second.append(if column.nullable {
                " DROP NOT NULL"
            } else {
                " SET NOT NULL"
            });
            let mut third = head;
            let is_value = match &column.default {
                None => false,
                Some(DefaultValue::Autoincrement) => false,
                Some(_) => true,
            };
            if is_value {
                let mut clause = String::from_str(" SET");
                clause.append(default_text(family, features, &column.default).as_str());
                third.append(clause.as_str());
            } else {
                third.append(" DROP DEFAULT");
            }
            statements.push(first);
            statements.push(second);
            statements.push(third);
        },
    }
    assert(seq_view(statements@) =~= spec_alter_column(family, features, table@, column@));
    statements
}

/// The names among the first `n` columns of `next` that a column of `previous` bears too.
pub open spec fn spec_common_columns(
    previous: Seq<ColumnView>,
    next: Seq<ColumnView>,
    n: nat,
) -> Seq<Name>
    decreases n,
{
    if n == 0 {
        Seq::empty()
    } else if find_column(previous, next[n - 1].name) is Some {
        spec_common_columns(previous, next, (n - 1) as nat).push(next[n - 1].name)
    } else {
        spec_common_columns(previous, next, (n - 1) as nat)
    }
}

/// The names of the columns of `next` that a column of `previous` bears too.
pub fn common_columns(previous: &Vec<Column>, next: &Vec<Column>) -> (names: Vec<String>)
    ensures
        seq_view(names@) == spec_common_columns(
            seq_view(previous@),
            seq_view(next@),
            next@.len(),
        ),
{
    let mut names: Vec<String> = Vec::new();
    let mut i: usize = 0;
    assert(seq_view(names@) =~= Seq::<Name>::empty());
    while i < next.len()
        invariant
            0 <= i <= next.len(),
            seq_view(names@) == spec_common_columns(
                seq_view(previous@),
                seq_view(next@),
                i as nat,
            ),
        decreases next.len() - i,
    {
        if find_column_index(previous, &next[i].name).is_some() {
            let name = next[i].name.clone();
            proof {
                lemma_seq_view_push(names@, name);
            }
            names.push(name);
        }
        i += 1;
    }
    names
}

/// The name under which a table is rebuilt before it takes the place of the old one.
pub open spec fn spec_temporary_name(family: SqlFamily, table: Name) -> Seq<char> {
    match family.spec_max_identifier_length() {
        Some(limit) => spec_shorten("_new_"@ + table, limit as nat),
        None => "_new_"@ + table,
    }
}

/// The name under which a table is rebuilt before it takes the place of the old one.
pub fn temporary_name(family: SqlFamily, table: &str) -> (name: String)
    ensures
        name@ == spec_temporary_name(family, table@),
{
    let mut long = String::from_str("_new_");
    long.append(table);
    shorten_for(family, long.as_str())
}

/// The statement that gives the table called `from` the name `to`.
pub open spec fn spec_rename_table(family: SqlFamily, from: Name, to: Name) -> Seq<char> {
    match family {
        SqlFamily::Mssql => "EXEC sp_rename "@ + spec_literal(from) + ", "@ + spec_literal(to),
        _ => spec_alter_table(family, from) + " RENAME TO "@ + spec_quote(family, to),
    }
}

/// The statement that gives the table called `from` the name `to`.
pub fn rename_table(family: SqlFamily, from: &str, to: &str) -> (text: String)
    ensures
        text@ == spec_rename_table(family, from@, to@),
{
    match family {
        SqlFamily::Mssql => {
            let mut text = String::from_str("EXEC sp_rename ");
            text.append(literal(from).as_str());
            text.append(", ");
            text.append(literal(to).as_str());
            text
        },
        _ => {
            let mut text = alter_table(family, from);
            text.append(" RENAME TO ");
            text.append(quote(family, to).as_str());
            text
        },
    }
}

/// The statement that drops `table`.
pub open spec fn spec_drop_table(family: SqlFamily, table: Name) -> Seq<char> {
    "DROP TABLE "@ + spec_quote(family, table)
}

/// The statement that drops `table`.
pub fn drop_table(family: SqlFamily, table: &str) -> (text: String)
    ensures
        text@ == spec_drop_table(family, table@),
{
    let mut text = String::from_str("DROP TABLE ");
    text.append(quote(family, table).as_str());
    text
}

/// The statement that copies the rows of the old table into the rebuilt one, column by
/// common column; none where the two definitions share no column.
pub open spec fn spec_copy_rows(
    family: SqlFamily,
    previous: TableView,
    next: TableView,
) -> Seq<Seq<char>> {
    let common = spec_common_columns(previous.columns, next.columns, next.columns.len());
    if common.len() == 0 {
        Seq::empty()
    } else {
        seq![
            "INSERT INTO "@ + spec_quote(family, spec_temporary_name(family, next.name)) + " ("@
                + spec_name_list(family, common) + ") SELECT "@ + spec_name_list(family, common)
                + " FROM "@ + spec_quote(family, previous.name),
        ]
    }
}

/// The statements that create the indexes of `table`.
pub open spec fn spec_index_statements(family: SqlFamily, table: TableView) -> Seq<Seq<char>> {
    Seq::new(table.indexes.len(), |i: int| spec_create_index(family, table.name, table.indexes[i]))
}

/// The statements that rebuild a table: the new definition is created under a temporary
/// name, the rows are copied over, the old table is dropped, the new one takes its name, and
/// its indexes are created.
pub open spec fn spec_redefine_table(
    family: SqlFamily,
    features: MigrationFeatures,
    previous: TableView,
    next: TableView,
) -> Seq<Seq<char>> {
    seq![spec_create_table(family, features, next, spec_temporary_name(family, next.name))]
        + spec_copy_rows(family, previous, next) + seq![
        spec_drop_table(family, previous.name),
        spec_rename_table(family, spec_temporary_name(family, next.name), next.name),
    ] + spec_index_statements(family, next)
}

/// The statements that rebuild a table.
pub fn redefine_table(
    family: SqlFamily,
    features: MigrationFeatures,
    previous: &Table,
    next: &Table,
) -> (statements: Vec<String>)
    ensures
        seq_view(statements@) == spec_redefine_table(family, features, previous@, next@),
{
    let temporary = temporary_name(family, next.name.as_str());
    let mut statements: Vec<String> = Vec::new();
    statements.push(create_table(family, features, next, temporary.as_str()));
    let common = common_columns(&previous.columns, &next.columns);
    if common.len() > 0 {
        let mut copy = String::from_str("INSERT INTO ");
        copy.append(quote(family, temporary.as_str()).as_str());
        copy.append(" (");
        copy.append(name_list(family, &common).as_str());
        copy.append(") SELECT ");
        copy.append(name_list(family, &common).as_str());
        copy.append(" FROM ");
        copy.append(quote(family, previous.name.as_str()).as_str());
        statements.push(copy);
    }
    statements.push(drop_table(family, previous.name.as_str()));
    statements.push(rename_table(family, temporary.as_str(), next.name.as_str()));
    let ghost head = seq_view(statements@);
    assert(head =~= seq![
        spec_create_table(family, features, next@, spec_temporary_name(family, next@.name)),
    ] + spec_copy_rows(family, previous@, next@) + seq![
        spec_drop_table(family, previous@.name),
        spec_rename_table(family, spec_temporary_name(family, next@.name), next@.name),
    ]);
    let mut i: usize = 0;
    while i < next.indexes.len()
        invariant
            0 <= i <= next.indexes.len(),
            statements@.len() == head.len() + i,
            forall|k: int| 0 <= k < head.len() ==> statements@[k]@ == head[k],
            forall|k: int|
                0 <= k < i ==> statements@[head.len() + k]@ == spec_create_index(
                    family,
                    next@.name,
                    next@.indexes[k],
                ),
        decreases next.indexes.len() - i,
    {
        statements.push(create_index(family, next.name.as_str(), &next.indexes[i]));
        i += 1;
    }
    assert(seq_view(statements@) =~= head + spec_index_statements(family, next@));
    statements
}

/// The statements that carry out a step on a backend, in the order in which they are to be
/// executed.
pub open spec fn spec_statements_for(
    step: DiffStepView,
    family: SqlFamily,
    features: MigrationFeatures,
) -> Seq<Seq<char>> {
    match step {
        DiffStepView::CreateTable { table } => seq![
            spec_create_table(family, features, table, table.name),
        ],
        DiffStepView::DropTable { table } => seq![spec_drop_table(family, table)],
        DiffStepView::AddColumn { table, column } => seq![
            spec_alter_table(family, table) + (if family == SqlFamily::Mssql {
                " ADD "@
            } else {
                " ADD COLUMN "@
            }) + spec_column_text(family, features, column),
        ],
        DiffStepView::DropColumn { table, column } => seq![
            spec_alter_table(family, table) + " DROP COLUMN "@ + spec_quote(family, column),
        ],
        DiffStepView::AlterColumn { table, previous, next } => spec_alter_column(
            family,
            features,
            table,
            next,
        ),
        DiffStepView::AddForeignKey { table, foreign_key } => seq![
            spec_alter_table(family, table) + " ADD "@ + spec_foreign_key_text(
                family,
                table,
                foreign_key,
            ),
        ],
        DiffStepView::DropForeignKey { table, foreign_key } => seq![
            spec_alter_table(family, table) + (if family == SqlFamily::Mysql {
                " DROP FOREIGN KEY "@
            } else {
                " DROP CONSTRAINT "@
            }) + spec_quote(family, spec_foreign_key_name(family, table, foreign_key)),
        ],
        DiffStepView::CreateIndex { table, index } => seq![
            spec_create_index(family, table, index),
        ],
        DiffStepView::DropIndex { table, index } => seq![
            "DROP INDEX "@ + spec_quote(family, index) + (if family == SqlFamily::Mysql || family
                == SqlFamily::Mssql {
                " ON "@ + spec_quote(family, table)
            } else {
                Seq::<char>::empty()
            }),
        ],
        DiffStepView::RedefineTable { previous, next } => spec_redefine_table(
            family,
            features,
            previous,
            next,
        ),
    }
}

/// Renders a step: the statements that carry it out on a backend of `family` with
/// `features`. A step that the backend cannot carry out is not rendered: the caller learns
/// that the feature is unsupported.
pub fn render(step: &DiffStep, family: SqlFamily, features: MigrationFeatures) -> (result: Result<
    Vec<String>,
    ConnectorError,
>)
    ensures
        is_supported(step@, features) ==> result is Ok && seq_view(result.unwrap()@)
            == spec_statements_for(step@, family, features),
        !is_supported(step@, features) ==> result == Err::<Vec<String>, ConnectorError>(
            ConnectorError::UnsupportedFeature,
        ),
{
    let mut statements: Vec<String> = Vec::new();
    match step {
        DiffStep::CreateTable { table } => {
            statements.push(create_table(family, features, table, table.name.as_str()));
        },
        DiffStep::DropTable { table } => {
            statements.push(drop_table(family, table.as_str()));
        },
        DiffStep::AddColumn { table, column } => {
            let mut text = alter_table(family, table.as_str());
            text.append(if family == SqlFamily::Mssql {
                " ADD "
            } else {
                " ADD COLUMN "
            });
            text.append(column_text(family, features, column).as_str());
            statements.push(text);
        },
        DiffStep::DropColumn { table, column } => {
            if !features.column_drop {
                return Err(ConnectorError::UnsupportedFeature);
            }
            let mut text = alter_table(family, table.as_str());
            text.append(" DROP COLUMN ");
            text.append(quote(family, column.as_str()).as_str());
            statements.push(text);
        },
        DiffStep::AlterColumn { table, previous, next } => {
            if !features.column_alter {
                return Err(ConnectorError::UnsupportedFeature);
            }
            return Ok(alter_column(family, features, table.as_str(), next));
        },
        DiffStep::AddForeignKey { table, foreign_key } => {
            if !features.foreign_key_alter {
                return Err(ConnectorError::UnsupportedFeature);
            }
            let mut text = alter_table(family, table.as_str());
            text.append(" ADD ");
            text.append(foreign_key_text(family, table.as_str(), foreign_key).as_str());
            statements.push(text);
        },
        DiffStep::DropForeignKey { table, foreign_key } => {
            if !features.foreign_key_alter {
                return Err(ConnectorError::UnsupportedFeature);
            }
            let mut text = alter_table(family, table.as_str());
            text.append(if family == SqlFamily::Mysql {
                " DROP FOREIGN KEY "
            } else {
                " DROP CONSTRAINT "
            });
            text.append(
                quote(family, foreign_key_name(family, table.as_str(), foreign_key).as_str()).as_str(),
            );
            statements.push(text);
        },
        DiffStep::CreateIndex { table, index } => {
            statements.push(create_index(family, table.as_str(), index));
        },
        DiffStep::DropIndex { table, index } => {
            let mut text = String::from_str("DROP INDEX ");
            text.append(quote(family, index.as_str()).as_str());
            let mut place = String::new();
            if family == SqlFamily::Mysql || family == SqlFamily::Mssql {
                place.append(" ON ");
                place.append(quote(family, table.as_str()).as_str());
                assert(place@ =~= " ON "@ + spec_quote(family, table@));
            }
            text.append(place.as_str());
            statements.push(text);
        },
        DiffStep::RedefineTable { previous, next } => {
            return Ok(redefine_table(family, features, previous, next));
        },
    }
    assert(seq_view(statements@) =~= spec_statements_for(step@, family, features));
    Ok(statements)
}

/// The statements for each of the first `n` steps of a plan.
pub open spec fn spec_rendered(
    steps: Seq<DiffStepView>,
    family: SqlFamily,
    features: MigrationFeatures,
) -> Seq<Seq<Seq<char>>> {
    Seq::new(steps.len(), |i: int| spec_statements_for(steps[i], family, features))
}

/// The position of the first of the first `n` steps that the backend cannot carry out.
pub open spec fn first_unsupported(steps: Seq<DiffStepView>, features: MigrationFeatures, n: nat) -> Option<
    int,
>
    decreases n,
{
    if n == 0 {
        None
    } else {
        match first_unsupported(steps, features, (n - 1) as nat) {
            Some(i) => Some(i),
            None => if is_supported(steps[n - 1], features) {
                None
            } else {
                Some(n - 1)
            },
        }
    }
}

/// The views of lists of statements.
pub open spec fn rendered_view(rendered: Seq<Vec<String>>) -> Seq<Seq<Seq<char>>> {
    Seq::new(rendered.len(), |i: int| seq_view(rendered[i]@))
}

/// Renders a plan: for each step the statements that carry it out. A plan with a step that
/// the backend cannot carry out is not rendered at all.
pub fn render_plan(steps: &Vec<DiffStep>, family: SqlFamily, features: MigrationFeatures) -> (result:
    Result<Vec<Vec<String>>, ConnectorError>)
    ensures
        match first_unsupported(seq_view(steps@), features, steps@.len()) {
            Some(_) => result == Err::<Vec<Vec<String>>, ConnectorError>(
                ConnectorError::UnsupportedFeature,
            ),
            None => result is Ok && rendered_view(result.unwrap()@) == spec_rendered(
                seq_view(steps@),
                family,
                features,
            ),
        },
{
    let mut rendered: Vec<Vec<String>> = Vec::new();
    let mut i: usize = 0;
    while i < steps.len()
        invariant
            0 <= i <= steps.len(),
            first_unsupported(seq_view(steps@), features, i as nat) is None,
            rendered@.len() == i,
            forall|k: int|
                0 <= k < i ==> seq_view((#[trigger] rendered@[k])@) == spec_statements_for(
                    seq_view(steps@)[k],
                    family,
                    features,
                ),
        decreases steps.len() - i,
    {
        match render(&steps[i], family, features) {
            Ok(statements) => {
                rendered.push(statements);
            },
            Err(error) => {
                proof {
                    lemma_first_unsupported_stays(
                        seq_view(steps@),
                        features,
                        (i + 1) as nat,
                        steps@.len(),
                    );
                }
                return Err(error);
            },
        }
        i += 1;
    }
    assert(rendered_view(rendered@) =~= spec_rendered(seq_view(steps@), family, features));
    Ok(rendered)
}

/// Once an unsupported step is found among the first `n`, it is the first among more.
pub proof fn lemma_first_unsupported_stays(
    steps: Seq<DiffStepView>,
    features: MigrationFeatures,
    n: nat,
    m: nat,
)
    requires
        n <= m,
        first_unsupported(steps, features, n) is Some,
    ensures
        first_unsupported(steps, features, m) == first_unsupported(steps, features, n),
    decreases m,
{
    if n < m {
        lemma_first_unsupported_stays(steps, features, n, (m - 1) as nat);
    }
}

/// A plan can be rendered for the backend it was made for: it holds no step that the
/// capability set it was made for does not support.
pub proof fn lemma_plan_can_be_rendered(
    from: crate::schema::SqlSchemaView,
    to: crate::schema::SqlSchemaView,
    features: MigrationFeatures,
)
    ensures
        first_unsupported(
            crate::differ::spec_diff(from, to, features),
            features,
            crate::differ::spec_diff(from, to, features).len(),
        ) is None,
{
    let plan = crate::differ::spec_diff(from, to, features);
    assert forall|k: int| 0 <= k < plan.len() implies is_supported(
        #[trigger] plan[k],
        features,
    ) by {
        crate::ordering::lemma_plan_is_supported(from, to, features, k);
    }
    lemma_none_unsupported(plan, features, plan.len());
}

proof fn lemma_none_unsupported(steps: Seq<DiffStepView>, features: MigrationFeatures, n: nat)
    requires
        n <= steps.len(),
        forall|k: int| 0 <= k < steps.len() ==> is_supported(#[trigger] steps[k], features),
    ensures
        first_unsupported(steps, features, n) is None,
    decreases n,
{
    if n > 0 {
        lemma_none_unsupported(steps, features, (n - 1) as nat);
    }
}

} // verus!
