//! The declared schema as data: tables, columns, foreign keys and indexes.
//!
//! Every executable type has a view that holds its names as sequences of
//! characters; contracts and laws are stated over the views.

use vstd::prelude::*;
use crate::names::is_plain_name;

verus! {

/// The storage class of a column.
#[derive(Clone, Copy, Debug, PartialEq, Eq, Structural)]
pub enum ColumnType {
    Integer,
    Text,
}

/// What happens to a referencing row when the row it references is deleted.
#[derive(Clone, Copy, Debug, PartialEq, Eq, Structural)]
pub enum OnDelete {
    /// No clause is declared: the referencing row is never removed with its parent.
    NoAction,
    /// The referencing row is deleted together with its parent.
    Cascade,
}

/// The default of a column.
#[derive(Debug, PartialEq, Eq)]
pub enum DefaultValue {
    /// A text literal, held without its quotes.
    Text(String),
    /// The time at which the row is inserted.
    CurrentTimestamp,
}

/// A default as contracts see it.
pub enum DefaultValueView {
    Text(Seq<char>),
    CurrentTimestamp,
}

impl View for DefaultValue {
    type V = DefaultValueView;

    open spec fn view(&self) -> DefaultValueView {
        match self {
            DefaultValue::Text(s) => DefaultValueView::Text(s@),
            DefaultValue::CurrentTimestamp => DefaultValueView::CurrentTimestamp,
        }
    }
}

/// One column of a table.
#[derive(Debug, PartialEq, Eq)]
pub struct Column {
    pub name: String,
    pub ty: ColumnType,
    /// The column is the table's auto-incremented surrogate key.
    pub primary_key: bool,
    pub not_null: bool,
    pub default: Option<DefaultValue>,
}

/// A column as contracts see it.
pub struct ColumnView {
    pub name: Seq<char>,
    pub ty: ColumnType,
    pub primary_key: bool,
    pub not_null: bool,
    pub default: Option<DefaultValueView>,
}

impl View for Column {
    type V = ColumnView;

    open spec fn view(&self) -> ColumnView {
        ColumnView {
            name: self.name@,
            ty: self.ty,
            primary_key: self.primary_key,
            not_null: self.not_null,
            default: match self.default {
                Some(d) => Some(d@),
                None => None,
            },
        }
    }
}

/// A reference from one column of a table to a column of a parent table.
#[derive(Debug, PartialEq, Eq)]
pub struct ForeignKey {
    pub column: String,
    pub ref_table: String,
    pub ref_column: String,
    pub on_delete: OnDelete,
}

/// A foreign key as contracts see it.
pub struct ForeignKeyView {
    pub column: Seq<char>,
    pub ref_table: Seq<char>,
    pub ref_column: Seq<char>,
    pub on_delete: OnDelete,
}

impl View for ForeignKey {
    type V = ForeignKeyView;

    open spec fn view(&self) -> ForeignKeyView {
        ForeignKeyView {
            column: self.column@,
            ref_table: self.ref_table@,
            ref_column: self.ref_column@,
            on_delete: self.on_delete,
        }
    }
}

/// A table: its columns in declaration order, then its foreign keys.
#[derive(Debug, PartialEq, Eq)]
pub struct Table {
    pub name: String,
    pub columns: Vec<Column>,
    pub foreign_keys: Vec<ForeignKey>,
}

/// A table as contracts see it.
pub struct TableView {
    pub name: Seq<char>,
    pub columns: Seq<ColumnView>,
    pub foreign_keys: Seq<ForeignKeyView>,
}

impl View for Table {
    type V = TableView;

    open spec fn view(&self) -> TableView {
        TableView {
            name: self.name@,
            columns: self.columns@.map_values(|c: Column| c@),
            foreign_keys: self.foreign_keys@.map_values(|k: ForeignKey| k@),
        }
    }
}

/// An index on one column of a table.
#[derive(Debug, PartialEq, Eq)]
pub struct Index {
    pub name: String,
    pub table: String,
    pub column: String,
}

/// An index as contracts see it.
pub struct IndexView {
    pub name: Seq<char>,
    pub table: Seq<char>,
    pub column: Seq<char>,
}

impl View for Index {
    type V = IndexView;

    open spec fn view(&self) -> IndexView {
        IndexView { name: self.name@, table: self.table@, column: self.column@ }
    }
}

/// A schema: its tables in the order in which they are created, then its indexes.
#[derive(Debug, PartialEq, Eq)]
pub struct Schema {
    pub tables: Vec<Table>,
    pub indexes: Vec<Index>,
}

/// A schema as contracts see it.
pub struct SchemaView {
    pub tables: Seq<TableView>,
    pub indexes: Seq<IndexView>,
}

impl View for Schema {
    type V = SchemaView;

    open spec fn view(&self) -> SchemaView {
        SchemaView {
            tables: self.tables@.map_values(|t: Table| t@),
            indexes: self.indexes@.map_values(|i: Index| i@),
        }
    }
}

impl Clone for DefaultValue {
    fn clone(&self) -> (copy: Self)
        ensures
            copy@ == self@,
    {
        match self {
            DefaultValue::Text(text) => DefaultValue::Text(text.clone()),
            DefaultValue::CurrentTimestamp => DefaultValue::CurrentTimestamp,
        }
    }
}

impl Clone for Column {
    fn clone(&self) -> (copy: Self)
        ensures
            copy@ == self@,
    {
        Column {
            name: self.name.clone(),
            ty: self.ty,
            primary_key: self.primary_key,
            not_null: self.not_null,
            default: match &self.default {
                Some(d) => Some(d.clone()),
                None => None,
            },
        }
    }
}

impl Clone for ForeignKey {
    fn clone(&self) -> (copy: Self)
        ensures
            copy@ == self@,
    {
        ForeignKey {
            column: self.column.clone(),
            ref_table: self.ref_table.clone(),
            ref_column: self.ref_column.clone(),
            on_delete: self.on_delete,
        }
    }
}

impl Clone for Table {
    fn clone(&self) -> (copy: Self)
        ensures
            copy@ == self@,
    {
        let mut columns: Vec<Column> = Vec::new();
        let mut i: usize = 0;
        while i < self.columns.len()
            invariant
                i <= self.columns.len(),
                columns.len() == i,
                forall|a: int| 0 <= a < i ==> columns[a]@ == self.columns[a]@,
            decreases self.columns.len() - i,
        {
            columns.push(self.columns[i].clone());
            i += 1;
        }
        let mut foreign_keys: Vec<ForeignKey> = Vec::new();
        let mut k: usize = 0;
        while k < self.foreign_keys.len()
            invariant
                k <= self.foreign_keys.len(),
                foreign_keys.len() == k,
                forall|a: int| 0 <= a < k ==> foreign_keys[a]@ == self.foreign_keys[a]@,
            decreases self.foreign_keys.len() - k,
        {
            foreign_keys.push(self.foreign_keys[k].clone());
            k += 1;
        }
        let copy = Table { name: self.name.clone(), columns, foreign_keys };
        assert(copy@.columns =~= self@.columns);
        assert(copy@.foreign_keys =~= self@.foreign_keys);
        copy
    }
}

impl Clone for Index {
    fn clone(&self) -> (copy: Self)
        ensures
            copy@ == self@,
    {
        Index { name: self.name.clone(), table: self.table.clone(), column: self.column.clone() }
    }
}

impl Clone for Schema {
    fn clone(&self) -> (copy: Self)
        ensures
            copy@ == self@,
    {
        let mut tables: Vec<Table> = Vec::new();
        let mut i: usize = 0;
        while i < self.tables.len()
            invariant
                i <= self.tables.len(),
                tables.len() == i,
                forall|a: int| 0 <= a < i ==> tables[a]@ == self.tables[a]@,
            decreases self.tables.len() - i,
        {
            tables.push(self.tables[i].clone());
            i += 1;
        }
        let mut indexes: Vec<Index> = Vec::new();
        let mut x: usize = 0;
        while x < self.indexes.len()
            invariant
                x <= self.indexes.len(),
                indexes.len() == x,
                forall|a: int| 0 <= a < x ==> indexes[a]@ == self.indexes[a]@,
            decreases self.indexes.len() - x,
        {
            indexes.push(self.indexes[x].clone());
            x += 1;
        }
        let copy = Schema { tables, indexes };
        assert(copy@.tables =~= self@.tables);
        assert(copy@.indexes =~= self@.indexes);
        copy
    }
}

impl ColumnView {
    /// The name is plain, only an integer column is a surrogate key, and a
    /// default text holds no single quote.
    pub open spec fn well_formed(self) -> bool {
        &&& is_plain_name(self.name)
        &&& self.primary_key ==> self.ty == ColumnType::Integer
        &&& match self.default {
            Some(DefaultValueView::Text(text)) => !text.contains('\''),
            _ => true,
        }
    }
}

impl TableView {
    /// The names of the columns, in declaration order.
    pub open spec fn column_names(self) -> Seq<Seq<char>> {
        self.columns.map_values(|c: ColumnView| c.name)
    }

    /// The table has a column of this name.
    pub open spec fn has_column(self, name: Seq<char>) -> bool {
        self.column_names().contains(name)
    }

    /// A column of this name is the table's surrogate key.
    pub open spec fn has_key(self, name: Seq<char>) -> bool {
        exists|i: int|
            0 <= i < self.columns.len() && (#[trigger] self.columns[i]).name == name
                && self.columns[i].primary_key
    }

    /// At most one column is a surrogate key.
    pub open spec fn one_key(self) -> bool {
        forall|i: int, j: int|
            0 <= i < j < self.columns.len() ==> !((#[trigger] self.columns[i]).primary_key && (
            #[trigger] self.columns[j]).primary_key)
    }

    /// Every foreign key is declared on a column of the table.
    pub open spec fn keys_local(self) -> bool {
        forall|k: int|
            0 <= k < self.foreign_keys.len() ==> self.has_column(
                (#[trigger] self.foreign_keys[k]).column,
            )
    }

    /// The name of the table and the names of its columns are plain.
    pub open spec fn plainly_named(self) -> bool {
        &&& is_plain_name(self.name)
        &&& forall|i: int|
            0 <= i < self.columns.len() ==> is_plain_name((#[trigger] self.columns[i]).name)
    }

    /// The name is plain, the table has a column, its columns are well formed
    /// and differ in name, at most one of them is a surrogate key, and its
    /// foreign keys are declared on its own columns.
    pub open spec fn well_formed(self) -> bool {
        &&& is_plain_name(self.name)
        &&& self.columns.len() > 0
        &&& forall|i: int|
            0 <= i < self.columns.len() ==> (#[trigger] self.columns[i]).well_formed()
        &&& self.column_names().no_duplicates()
        &&& self.one_key()
        &&& self.keys_local()
    }
}

impl SchemaView {
    /// The names of the tables, in the order in which they are created.
    pub open spec fn table_names(self) -> Seq<Seq<char>> {
        self.tables.map_values(|t: TableView| t.name)
    }

    /// The names of the indexes, in the order in which they are created.
    pub open spec fn index_names(self) -> Seq<Seq<char>> {
        self.indexes.map_values(|i: IndexView| i.name)
    }

    /// The names of all objects: tables and indexes share one namespace.
    pub open spec fn object_names(self) -> Seq<Seq<char>> {
        self.table_names() + self.index_names()
    }

    /// One of the first `n` tables has this name and this surrogate key.
    pub open spec fn key_declared(self, n: int, table: Seq<char>, column: Seq<char>) -> bool {
        exists|j: int|
            0 <= j < n && j < self.tables.len() && (#[trigger] self.tables[j]).name == table
                && self.tables[j].has_key(column)
    }

    /// One of the tables has this name and a column of this name.
    pub open spec fn column_declared(self, table: Seq<char>, column: Seq<char>) -> bool {
        exists|j: int|
            0 <= j < self.tables.len() && (#[trigger] self.tables[j]).name == table
                && self.tables[j].has_column(column)
    }

    /// An index is declared on this column of this table.
    pub open spec fn is_indexed(self, table: Seq<char>, column: Seq<char>) -> bool {
        exists|x: int|
            0 <= x < self.indexes.len() && (#[trigger] self.indexes[x]).table == table
                && self.indexes[x].column == column
    }

    /// Every foreign key of table `i` references the surrogate key of a table
    /// that is created no later than table `i` itself.
    pub open spec fn references_resolve(self, i: int) -> bool {
        forall|k: int|
            0 <= k < self.tables[i].foreign_keys.len() ==> self.key_declared(
                i + 1,
                (#[trigger] self.tables[i].foreign_keys[k]).ref_table,
                self.tables[i].foreign_keys[k].ref_column,
            )
    }

    /// Every index is on a column of one of the tables.
    pub open spec fn indexes_resolve(self) -> bool {
        forall|x: int|
            0 <= x < self.indexes.len() ==> self.column_declared(
                (#[trigger] self.indexes[x]).table,
                self.indexes[x].column,
            )
    }

    /// What holds of every store that this library speaks of: the names it
    /// holds are plain, and no two of its objects share a name.
    pub open spec fn consistent(self) -> bool {
        &&& forall|i: int|
            0 <= i < self.tables.len() ==> (#[trigger] self.tables[i]).plainly_named()
        &&& forall|x: int|
            0 <= x < self.indexes.len() ==> is_plain_name((#[trigger] self.indexes[x]).name)
        &&& self.object_names().no_duplicates()
    }

    /// What this library asks of a schema before it writes its batch: the
    /// tables are well formed, the names of the indexes are plain, no two
    /// objects share a name, each table comes no earlier than the tables it
    /// references, and each index is on a column of a table.
    ///
    /// The condition is necessary for a store to take the batch in one
    /// ordered pass, and not sufficient: a plain name may be a word that the
    /// store reserves, and the store rejects a batch that holds one.
    pub open spec fn well_formed(self) -> bool {
        &&& forall|i: int| 0 <= i < self.tables.len() ==> (#[trigger] self.tables[i]).well_formed()
        &&& forall|x: int|
            0 <= x < self.indexes.len() ==> is_plain_name((#[trigger] self.indexes[x]).name)
        &&& self.object_names().no_duplicates()
        &&& forall|i: int| 0 <= i < self.tables.len() ==> #[trigger] self.references_resolve(i)
        &&& self.indexes_resolve()
    }
}

} // verus!
