//! In-memory snapshots of a relational schema, and their mathematical views.
use vstd::prelude::*;

verus! {

/// The views of the elements of a sequence, in the same order.
pub open spec fn seq_view<T: View>(s: Seq<T>) -> Seq<T::V> {
    Seq::new(s.len(), |i: int| s[i]@)
}

/// A name as contracts speak of it.
pub type Name = Seq<char>;

/// Compares two lists of names element by element.
pub fn names_eq(a: &Vec<String>, b: &Vec<String>) -> (same: bool)
    ensures
        same == (seq_view(a@) == seq_view(b@)),
{
    if a.len() != b.len() {
        assert(seq_view(a@).len() != seq_view(b@).len());
        return false;
    }
    let mut i: usize = 0;
    while i < a.len()
        invariant
            0 <= i <= a.len(),
            a.len() == b.len(),
            forall|j: int| 0 <= j < i ==> a@[j]@ == b@[j]@,
        decreases a.len() - i,
    {
        if a[i] != b[i] {
            assert(seq_view(a@)[i as int] != seq_view(b@)[i as int]);
            return false;
        }
        i += 1;
    }
    assert(seq_view(a@) =~= seq_view(b@));
    true
}

/// Copies a list of names.
pub fn names_clone(a: &Vec<String>) -> (copy: Vec<String>)
    ensures
        seq_view(copy@) == seq_view(a@),
{
    let mut out: Vec<String> = Vec::new();
    let mut i: usize = 0;
    while i < a.len()
        invariant
            0 <= i <= a.len(),
            out@.len() == i,
            forall|j: int| 0 <= j < i ==> out@[j]@ == a@[j]@,
        decreases a.len() - i,
    {
        out.push(a[i].clone());
        i += 1;
    }
    assert(seq_view(out@) =~= seq_view(a@));
    out
}


/// The family a column's type belongs to.
#[derive(Clone, Copy, Debug, PartialEq, Eq, Structural)]
pub enum ColumnTypeFamily {
    SmallInt,
    Int,
    BigInt,
    Decimal,
    Boolean,
    Text,
    Varchar,
    DateTime,
    Binary,
}

/// A column's type: its family and, where one was declared, its size or precision.
#[derive(Clone, Copy, Debug, PartialEq, Eq)]
pub struct ColumnType {
    pub family: ColumnTypeFamily,
    pub size: Option<u32>,
}

impl ColumnType {
    /// Whether both types have the same family and the same declared size.
    pub fn same_as(&self, other: &ColumnType) -> (same: bool)
        ensures
            same == (*self == *other),
    {
        let sizes = match (self.size, other.size) {
            (None, None) => true,
            (Some(a), Some(b)) => a == b,
            _ => false,
        };
        self.family == other.family && sizes
    }
}

/// The value a column takes when an insert names none.
#[derive(Debug, PartialEq, Eq)]
pub enum DefaultValue {
    Int(i64),
    Bool(bool),
    Text(String),
    Now,
    Autoincrement,
}

/// A default value as contracts speak of it.
pub enum DefaultValueView {
    Int(i64),
    Bool(bool),
    Text(Name),
    Now,
    Autoincrement,
}

impl View for DefaultValue {
    type V = DefaultValueView;

    open spec fn view(&self) -> DefaultValueView {
        match self {
            DefaultValue::Int(n) => DefaultValueView::Int(*n),
            DefaultValue::Bool(b) => DefaultValueView::Bool(*b),
            DefaultValue::Text(s) => DefaultValueView::Text(s@),
            DefaultValue::Now => DefaultValueView::Now,
            DefaultValue::Autoincrement => DefaultValueView::Autoincrement,
        }
    }
}

impl Clone for DefaultValue {
    fn clone(&self) -> (copy: DefaultValue)
        ensures
            copy@ == self@,
    {
        match self {
            DefaultValue::Int(n) => DefaultValue::Int(*n),
            DefaultValue::Bool(b) => DefaultValue::Bool(*b),
            DefaultValue::Text(s) => DefaultValue::Text(s.clone()),
            DefaultValue::Now => DefaultValue::Now,
            DefaultValue::Autoincrement => DefaultValue::Autoincrement,
        }
    }
}

/// The view of an optional default.
pub open spec fn default_view(d: Option<DefaultValue>) -> Option<DefaultValueView> {
    match d {
        Some(v) => Some(v@),
        None => None,
    }
}

/// A column of a table.
#[derive(Debug, PartialEq, Eq)]
pub struct Column {
    pub name: String,
    pub tpe: ColumnType,
    pub nullable: bool,
    pub default: Option<DefaultValue>,
}

/// A column as contracts speak of it.
pub struct ColumnView {
    pub name: Name,
    pub tpe: ColumnType,
    pub nullable: bool,
    pub default: Option<DefaultValueView>,
}

impl View for Column {
    type V = ColumnView;

    open spec fn view(&self) -> ColumnView {
        ColumnView {
            name: self.name@,
            tpe: self.tpe,
            nullable: self.nullable,
            default: default_view(self.default),
        }
    }
}

impl Clone for Column {
    fn clone(&self) -> (copy: Column)
        ensures
            copy@ == self@,
    {
        let default = match &self.default {
            Some(d) => Some(d.clone()),
            None => None,
        };
        Column { name: self.name.clone(), tpe: self.tpe, nullable: self.nullable, default }
    }
}


/// An index of a table.
#[derive(Debug, PartialEq, Eq)]
pub struct Index {
    pub name: String,
    pub columns: Vec<String>,
    pub unique: bool,
}

/// An index as contracts speak of it.
pub struct IndexView {
    pub name: Name,
    pub columns: Seq<Name>,
    pub unique: bool,
}

impl View for Index {
    type V = IndexView;

    open spec fn view(&self) -> IndexView {
        IndexView { name: self.name@, columns: seq_view(self.columns@), unique: self.unique }
    }
}

impl Clone for Index {
    fn clone(&self) -> (copy: Index)
        ensures
            copy@ == self@,
    {
        Index { name: self.name.clone(), columns: names_clone(&self.columns), unique: self.unique }
    }
}

impl Index {
    /// Whether both indexes have the same name, the same columns in the same order, and agree on
    /// uniqueness.
    pub fn same_as(&self, other: &Index) -> (same: bool)
        ensures
            same == (self@ == other@),
    {
        self.name == other.name && self.unique == other.unique && names_eq(
            &self.columns,
            &other.columns,
        )
    }
}

/// What happens to referencing rows when the referenced row is deleted or updated.
#[derive(Clone, Copy, Debug, PartialEq, Eq, Structural)]
pub enum ForeignKeyAction {
    NoAction,
    Restrict,
    Cascade,
    SetNull,
    SetDefault,
}

/// A foreign key of a table.
#[derive(Debug, PartialEq, Eq)]
pub struct ForeignKey {
    pub columns: Vec<String>,
    pub referenced_table: String,
    pub referenced_columns: Vec<String>,
    pub on_delete: ForeignKeyAction,
    pub on_update: ForeignKeyAction,
}

/// A foreign key as contracts speak of it.
pub struct ForeignKeyView {
    pub columns: Seq<Name>,
    pub referenced_table: Name,
    pub referenced_columns: Seq<Name>,
    pub on_delete: ForeignKeyAction,
    pub on_update: ForeignKeyAction,
}

impl View for ForeignKey {
    type V = ForeignKeyView;

    open spec fn view(&self) -> ForeignKeyView {
        ForeignKeyView {
            columns: seq_view(self.columns@),
            referenced_table: self.referenced_table@,
            referenced_columns: seq_view(self.referenced_columns@),
            on_delete: self.on_delete,
            on_update: self.on_update,
        }
    }
}

impl Clone for ForeignKey {
    fn clone(&self) -> (copy: ForeignKey)
        ensures
            copy@ == self@,
    {
        ForeignKey {
            columns: names_clone(&self.columns),
            referenced_table: self.referenced_table.clone(),
            referenced_columns: names_clone(&self.referenced_columns),
            on_delete: self.on_delete,
            on_update: self.on_update,
        }
    }
}

impl ForeignKey {
    /// Whether both foreign keys constrain the same columns, reference the same table and
    /// columns, and act alike on delete and on update.
    pub fn same_as(&self, other: &ForeignKey) -> (same: bool)
        ensures
            same == (self@ == other@),
    {
        self.referenced_table == other.referenced_table && self.on_delete == other.on_delete
            && self.on_update == other.on_update && names_eq(&self.columns, &other.columns)
            && names_eq(&self.referenced_columns, &other.referenced_columns)
    }
}

/// A table: its columns, its primary key (the key's column names, none where the table has no
/// key), its indexes and its foreign keys.
#[derive(Debug, PartialEq, Eq)]
pub struct Table {
    pub name: String,
    pub columns: Vec<Column>,
    pub primary_key: Vec<String>,
    pub indexes: Vec<Index>,
    pub foreign_keys: Vec<ForeignKey>,
}

/// A table as contracts speak of it.
pub struct TableView {
    pub name: Name,
    pub columns: Seq<ColumnView>,
    pub primary_key: Seq<Name>,
    pub indexes: Seq<IndexView>,
    pub foreign_keys: Seq<ForeignKeyView>,
}

impl View for Table {
    type V = TableView;

    open spec fn view(&self) -> TableView {
        TableView {
            name: self.name@,
            columns: seq_view(self.columns@),
            primary_key: seq_view(self.primary_key@),
            indexes: seq_view(self.indexes@),
            foreign_keys: seq_view(self.foreign_keys@),
        }
    }
}

/// Copies a list of columns.
pub fn columns_clone(a: &Vec<Column>) -> (copy: Vec<Column>)
    ensures
        seq_view(copy@) == seq_view(a@),
{
    let mut out: Vec<Column> = Vec::new();
    let mut i: usize = 0;
    while i < a.len()
        invariant
            0 <= i <= a.len(),
            out@.len() == i,
            forall|j: int| 0 <= j < i ==> out@[j]@ == a@[j]@,
        decreases a.len() - i,
    {
        out.push(a[i].clone());
        i += 1;
    }
    assert(seq_view(out@) =~= seq_view(a@));
    out
}

/// Copies a list of indexes.
pub fn indexes_clone(a: &Vec<Index>) -> (copy: Vec<Index>)
    ensures
        seq_view(copy@) == seq_view(a@),
{
    let mut out: Vec<Index> = Vec::new();
    let mut i: usize = 0;
    while i < a.len()
        invariant
            0 <= i <= a.len(),
            out@.len() == i,
            forall|j: int| 0 <= j < i ==> out@[j]@ == a@[j]@,
        decreases a.len() - i,
    {
        out.push(a[i].clone());
        i += 1;
    }
    assert(seq_view(out@) =~= seq_view(a@));
    out
}

/// Copies a list of foreign keys.
pub fn foreign_keys_clone(a: &Vec<ForeignKey>) -> (copy: Vec<ForeignKey>)
    ensures
        seq_view(copy@) == seq_view(a@),
{
    let mut out: Vec<ForeignKey> = Vec::new();
    let mut i: usize = 0;
    while i < a.len()
        invariant
            0 <= i <= a.len(),
            out@.len() == i,
            forall|j: int| 0 <= j < i ==> out@[j]@ == a@[j]@,
        decreases a.len() - i,
    {
        out.push(a[i].clone());
        i += 1;
    }
    assert(seq_view(out@) =~= seq_view(a@));
    out
}

impl Clone for Table {
    fn clone(&self) -> (copy: Table)
        ensures
            copy@ == self@,
    {
        Table {
            name: self.name.clone(),
            columns: columns_clone(&self.columns),
            primary_key: names_clone(&self.primary_key),
            indexes: indexes_clone(&self.indexes),
            foreign_keys: foreign_keys_clone(&self.foreign_keys),
        }
    }
}

/// An enumerated type of the database: its name and its values.
#[derive(Debug, PartialEq, Eq)]
pub struct Enum {
    pub name: String,
    pub values: Vec<String>,
}

/// An enumerated type as contracts speak of it.
pub struct EnumView {
    pub name: Name,
    pub values: Seq<Name>,
}

impl View for Enum {
    type V = EnumView;

    open spec fn view(&self) -> EnumView {
        EnumView { name: self.name@, values: seq_view(self.values@) }
    }
}

impl Clone for Enum {
    fn clone(&self) -> (copy: Enum)
        ensures
            copy@ == self@,
    {
        Enum { name: self.name.clone(), values: names_clone(&self.values) }
    }
}

/// A snapshot of a database's schema.
#[derive(Debug, PartialEq, Eq)]
pub struct SqlSchema {
    pub tables: Vec<Table>,
    pub enums: Vec<Enum>,
    pub sequences: Vec<String>,
}

/// A schema as contracts speak of it.
pub struct SqlSchemaView {
    pub tables: Seq<TableView>,
    pub enums: Seq<EnumView>,
    pub sequences: Seq<Name>,
}

impl View for SqlSchema {
    type V = SqlSchemaView;

    open spec fn view(&self) -> SqlSchemaView {
        SqlSchemaView {
            tables: seq_view(self.tables@),
            enums: seq_view(self.enums@),
            sequences: seq_view(self.sequences@),
        }
    }
}


/// The names of `tables`, in order.
pub open spec fn table_names(tables: Seq<TableView>) -> Seq<Name> {
    Seq::new(tables.len(), |i: int| tables[i].name)
}

/// The names of `columns`, in order.
pub open spec fn column_names(columns: Seq<ColumnView>) -> Seq<Name> {
    Seq::new(columns.len(), |i: int| columns[i].name)
}

/// The names of `indexes`, in order.
pub open spec fn index_names(indexes: Seq<IndexView>) -> Seq<Name> {
    Seq::new(indexes.len(), |i: int| indexes[i].name)
}

/// The names of `enums`, in order.
pub open spec fn enum_names(enums: Seq<EnumView>) -> Seq<Name> {
    Seq::new(enums.len(), |i: int| enums[i].name)
}

impl TableView {
    /// No two columns share a name, no two indexes share a name, and no foreign key stands
    /// twice.
    pub open spec fn wf(self) -> bool {
        &&& column_names(self.columns).no_duplicates()
        &&& index_names(self.indexes).no_duplicates()
        &&& self.foreign_keys.no_duplicates()
    }
}

impl SqlSchemaView {
    /// Names are unique within their namespace: no two tables share a name, every table is
    /// well formed, no two enums share a name, and no two sequences share a name.
    pub open spec fn wf(self) -> bool {
        &&& table_names(self.tables).no_duplicates()
        &&& forall|i: int| 0 <= i < self.tables.len() ==> (#[trigger] self.tables[i]).wf()
        &&& enum_names(self.enums).no_duplicates()
        &&& self.sequences.no_duplicates()
    }
}


/// Whether no name occurs twice in `names`.
pub fn names_distinct(names: &Vec<String>) -> (distinct: bool)
    ensures
        distinct == seq_view(names@).no_duplicates(),
{
    let ghost all = seq_view(names@);
    let mut i: usize = 0;
    while i < names.len()
        invariant
            0 <= i <= names.len(),
            all == seq_view(names@),
            forall|a: int, b: int| 0 <= a < i && 0 <= b < a ==> all[a] != all[b],
        decreases names.len() - i,
    {
        let mut j: usize = 0;
        while j < i
            invariant
                0 <= j <= i < names.len(),
                all == seq_view(names@),
                forall|b: int| 0 <= b < j ==> all[i as int] != all[b],
            decreases i - j,
        {
            if names[i] == names[j] {
                assert(all[i as int] == all[j as int]);
                return false;
            }
            j += 1;
        }
        i += 1;
    }
    assert forall|a: int, b: int| 0 <= a < all.len() && 0 <= b < all.len() && a != b implies all[a]
        != all[b] by {
        if b < a {
        } else {
            assert(all[b] != all[a]);
        }
    }
    true
}

/// Whether no foreign key occurs twice in `foreign_keys`.
pub fn foreign_keys_distinct(foreign_keys: &Vec<ForeignKey>) -> (distinct: bool)
    ensures
        distinct == seq_view(foreign_keys@).no_duplicates(),
{
    let ghost all = seq_view(foreign_keys@);
    let mut i: usize = 0;
    while i < foreign_keys.len()
        invariant
            0 <= i <= foreign_keys.len(),
            all == seq_view(foreign_keys@),
            forall|a: int, b: int| 0 <= a < i && 0 <= b < a ==> all[a] != all[b],
        decreases foreign_keys.len() - i,
    {
        let mut j: usize = 0;
        while j < i
            invariant
                0 <= j <= i < foreign_keys.len(),
                all == seq_view(foreign_keys@),
                forall|b: int| 0 <= b < j ==> all[i as int] != all[b],
            decreases i - j,
        {
            if foreign_keys[i].same_as(&foreign_keys[j]) {
                assert(all[i as int] == all[j as int]);
                return false;
            }
            j += 1;
        }
        i += 1;
    }
    assert forall|a: int, b: int| 0 <= a < all.len() && 0 <= b < all.len() && a != b implies all[a]
        != all[b] by {
        if b < a {
        } else {
            assert(all[b] != all[a]);
        }
    }
    true
}

impl Table {
    /// The names of the table's columns, in order.
    pub fn column_names(&self) -> (names: Vec<String>)
        ensures
            seq_view(names@) == column_names(self@.columns),
    {
        let mut names: Vec<String> = Vec::new();
        let mut i: usize = 0;
        while i < self.columns.len()
            invariant
                0 <= i <= self.columns.len(),
                names@.len() == i,
                forall|k: int| 0 <= k < i ==> names@[k]@ == self.columns@[k].name@,
            decreases self.columns.len() - i,
        {
            names.push(self.columns[i].name.clone());
            i += 1;
        }
        assert(seq_view(names@) =~= column_names(self@.columns));
        names
    }

    /// The names of the table's indexes, in order.
    pub fn index_names(&self) -> (names: Vec<String>)
        ensures
            seq_view(names@) == index_names(self@.indexes),
    {
        let mut names: Vec<String> = Vec::new();
        let mut i: usize = 0;
        while i < self.indexes.len()
            invariant
                0 <= i <= self.indexes.len(),
                names@.len() == i,
                forall|k: int| 0 <= k < i ==> names@[k]@ == self.indexes@[k].name@,
            decreases self.indexes.len() - i,
        {
            names.push(self.indexes[i].name.clone());
            i += 1;
        }
        assert(seq_view(names@) =~= index_names(self@.indexes));
        names
    }

    /// Whether the table is well formed.
    pub fn is_well_formed(&self) -> (ok: bool)
        ensures
            ok == self@.wf(),
    {
        names_distinct(&self.column_names()) && names_distinct(&self.index_names())
            && foreign_keys_distinct(&self.foreign_keys)
    }
}

impl SqlSchema {
    /// The names of the schema's tables, in order.
    pub fn table_names(&self) -> (names: Vec<String>)
        ensures
            seq_view(names@) == table_names(self@.tables),
    {
        let mut names: Vec<String> = Vec::new();
        let mut i: usize = 0;
        while i < self.tables.len()
            invariant
                0 <= i <= self.tables.len(),
                names@.len() == i,
                forall|k: int| 0 <= k < i ==> names@[k]@ == self.tables@[k].name@,
            decreases self.tables.len() - i,
        {
            names.push(self.tables[i].name.clone());
            i += 1;
        }
        assert(seq_view(names@) =~= table_names(self@.tables));
        names
    }

    /// The names of the schema's enums, in order.
    pub fn enum_names(&self) -> (names: Vec<String>)
        ensures
            seq_view(names@) == enum_names(self@.enums),
    {
        let mut names: Vec<String> = Vec::new();
        let mut i: usize = 0;
        while i < self.enums.len()
            invariant
                0 <= i <= self.enums.len(),
                names@.len() == i,
                forall|k: int| 0 <= k < i ==> names@[k]@ == self.enums@[k].name@,
            decreases self.enums.len() - i,
        {
            names.push(self.enums[i].name.clone());
            i += 1;
        }
        assert(seq_view(names@) =~= enum_names(self@.enums));
        names
    }

    /// Whether the schema is well formed: whether names are unique within their namespace.
    pub fn is_well_formed(&self) -> (ok: bool)
        ensures
            ok == self@.wf(),
    {
        if !names_distinct(&self.table_names()) || !names_distinct(&self.enum_names())
            || !names_distinct(&self.sequences) {
            return false;
        }
        let mut i: usize = 0;
        while i < self.tables.len()
            invariant
                0 <= i <= self.tables.len(),
                forall|k: int| 0 <= k < i ==> (#[trigger] self@.tables[k]).wf(),
            decreases self.tables.len() - i,
        {
            if !self.tables[i].is_well_formed() {
                assert(!self@.tables[i as int].wf());
                return false;
            }
            i += 1;
        }
        true
    }
}

} // verus!
