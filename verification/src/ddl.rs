//! The text of the statement batch that creates a schema.
//!
//! The store keeps a digest of every batch it has applied and refuses a
//! migration whose text has changed since, so the layout is fixed to the
//! character: the indentation, the blank line after each table and the
//! closing indentation are part of what is stated here.

use vstd::prelude::*;
use vstd::string::*;
use crate::schema::{
    Column, ColumnType, ColumnView, DefaultValue, DefaultValueView, ForeignKey, ForeignKeyView,
    Index, IndexView, OnDelete, Schema, SchemaView, Table, TableView,
};

verus! {

/// The indentation of a statement: 16 spaces.
pub open spec fn statement_indent() -> Seq<char> {
    "                "@
}

/// The indentation of a column or a foreign key inside a table: 20 spaces.
pub open spec fn item_indent() -> Seq<char> {
    "                    "@
}

/// What follows the last statement: 12 spaces.
pub open spec fn closing_indent() -> Seq<char> {
    "            "@
}

pub open spec fn type_text(ty: ColumnType) -> Seq<char> {
    match ty {
        ColumnType::Integer => "INTEGER"@,
        ColumnType::Text => "TEXT"@,
    }
}

pub open spec fn primary_key_text(primary_key: bool) -> Seq<char> {
    if primary_key {
        " PRIMARY KEY AUTOINCREMENT"@
    } else {
        Seq::empty()
    }
}

pub open spec fn not_null_text(not_null: bool) -> Seq<char> {
    if not_null {
        " NOT NULL"@
    } else {
        Seq::empty()
    }
}

pub open spec fn default_text(default: Option<DefaultValueView>) -> Seq<char> {
    match default {
        None => Seq::empty(),
        Some(DefaultValueView::Text(s)) => " DEFAULT '"@ + s + "'"@,
        Some(DefaultValueView::CurrentTimestamp) => " DEFAULT CURRENT_TIMESTAMP"@,
    }
}

pub open spec fn on_delete_text(on_delete: OnDelete) -> Seq<char> {
    match on_delete {
        OnDelete::NoAction => Seq::empty(),
        OnDelete::Cascade => " ON DELETE CASCADE"@,
    }
}

/// The definition of a column: name, type, then its constraints.
pub open spec fn column_text(c: ColumnView) -> Seq<char> {
    c.name + " "@ + type_text(c.ty) + primary_key_text(c.primary_key) + not_null_text(c.not_null)
        + default_text(c.default)
}

/// The table constraint that declares a foreign key.
pub open spec fn foreign_key_text(k: ForeignKeyView) -> Seq<char> {
    "FOREIGN KEY ("@ + k.column + ") REFERENCES "@ + k.ref_table + "("@ + k.ref_column + ")"@
        + on_delete_text(k.on_delete)
}

/// The items between the brackets of a table: its columns, then its foreign keys.
pub open spec fn table_items(t: TableView) -> Seq<Seq<char>> {
    t.columns.map_values(|c: ColumnView| column_text(c)) + t.foreign_keys.map_values(
        |k: ForeignKeyView| foreign_key_text(k),
    )
}

/// Item `i` on a line of its own, followed by a comma unless it is the last.
pub open spec fn item_line(items: Seq<Seq<char>>, i: int) -> Seq<char> {
    item_indent() + items[i] + (if i + 1 == items.len() {
        "\n"@
    } else {
        ",\n"@
    })
}

/// The lines of the first `n` items.
pub open spec fn item_lines(items: Seq<Seq<char>>, n: int) -> Seq<char>
    decreases n,
{
    if n <= 0 {
        Seq::empty()
    } else {
        item_lines(items, n - 1) + item_line(items, n - 1)
    }
}

/// The line that opens the statement of a table.
pub open spec fn table_head(name: Seq<char>) -> Seq<char> {
    statement_indent() + "CREATE TABLE IF NOT EXISTS "@ + name + " (\n"@
}

/// The line that closes the statement of a table.
pub open spec fn table_foot() -> Seq<char> {
    statement_indent() + ");\n"@
}

/// The statement that creates a table unless it exists.
pub open spec fn table_text(t: TableView) -> Seq<char> {
    table_head(t.name) + item_lines(table_items(t), table_items(t).len() as int) + table_foot()
}

/// The statement that creates an index unless it exists.
pub open spec fn index_text(i: IndexView) -> Seq<char> {
    statement_indent() + "CREATE INDEX IF NOT EXISTS "@ + i.name + " ON "@ + i.table + "("@
        + i.column + ");\n"@
}

/// The statements of the first `n` tables, each followed by a blank line.
pub open spec fn tables_text(tables: Seq<TableView>, n: int) -> Seq<char>
    decreases n,
{
    if n <= 0 {
        Seq::empty()
    } else {
        tables_text(tables, n - 1) + table_text(tables[n - 1]) + "\n"@
    }
}

/// The statements of the first `n` indexes.
pub open spec fn indexes_text(indexes: Seq<IndexView>, n: int) -> Seq<char>
    decreases n,
{
    if n <= 0 {
        Seq::empty()
    } else {
        indexes_text(indexes, n - 1) + index_text(indexes[n - 1])
    }
}

/// The whole batch: every table in order, then every index in order.
pub open spec fn batch_text(s: SchemaView) -> Seq<char> {
    "\n"@ + tables_text(s.tables, s.tables.len() as int) + indexes_text(
        s.indexes,
        s.indexes.len() as int,
    ) + closing_indent()
}

fn type_keyword(ty: ColumnType) -> (s: &'static str)
    ensures
        s@ == type_text(ty),
{
    match ty {
        ColumnType::Integer => "INTEGER",
        ColumnType::Text => "TEXT",
    }
}

/// Writes the definition of a column.
pub fn render_column(c: &Column) -> (s: String)
    ensures
        s@ == column_text(c@),
{
    let mut s = c.name.clone();
    s.append(" ");
    s.append(type_keyword(c.ty));
    if c.primary_key {
        s.append(" PRIMARY KEY AUTOINCREMENT");
    }
    if c.not_null {
        s.append(" NOT NULL");
    }
    match &c.default {
        None => {},
        Some(DefaultValue::Text(t)) => {
            s.append(" DEFAULT '");
            s.append(t.as_str());
            s.append("'");
        },
        Some(DefaultValue::CurrentTimestamp) => {
            s.append(" DEFAULT CURRENT_TIMESTAMP");
        },
    }
    s
}

/// Writes the table constraint of a foreign key.
pub fn render_foreign_key(k: &ForeignKey) -> (s: String)
    ensures
        s@ == foreign_key_text(k@),
{
    let mut s = "FOREIGN KEY (".to_owned();
    s.append(k.column.as_str());
    s.append(") REFERENCES ");
    s.append(k.ref_table.as_str());
    s.append("(");
    s.append(k.ref_column.as_str());
    s.append(")");
    match k.on_delete {
        OnDelete::NoAction => {},
        OnDelete::Cascade => {
            s.append(" ON DELETE CASCADE");
        },
    }
    s
}

/// Writes the statement that creates a table unless it exists.
pub fn render_table(t: &Table) -> (s: String)
    ensures
        s@ == table_text(t@),
{
    let ghost items = table_items(t@);
    let columns: usize = t.columns.len();
    let keys: usize = t.foreign_keys.len();
    let mut body = String::new();
    let mut i: usize = 0;
    while i < columns
        invariant
            i <= columns,
            columns == t.columns.len(),
            keys == t.foreign_keys.len(),
            items == table_items(t@),
            body@ == item_lines(items, i as int),
        decreases columns - i,
    {
        let item = render_column(&t.columns[i]);
        proof {
            assert(items[i as int] == column_text(t.columns[i as int]@));
        }
        body.append("                    ");
        body.append(item.as_str());
        if i + 1 == columns && keys == 0 {
            body.append("\n");
        } else {
            body.append(",\n");
        }
        i += 1;
    }
    let mut j: usize = 0;
    while j < keys
        invariant
            j <= keys,
            columns == t.columns.len(),
            keys == t.foreign_keys.len(),
            items == table_items(t@),
            body@ == item_lines(items, columns + j),
        decreases keys - j,
    {
        let item = render_foreign_key(&t.foreign_keys[j]);
        proof {
            assert(items[columns + j] == foreign_key_text(t.foreign_keys[j as int]@));
        }
        body.append("                    ");
        body.append(item.as_str());
        if j + 1 == keys {
            body.append("\n");
        } else {
            body.append(",\n");
        }
        j += 1;
    }
    let mut s = "                ".to_owned();
    s.append("CREATE TABLE IF NOT EXISTS ");
    s.append(t.name.as_str());
    s.append(" (\n");
    s.append(body.as_str());
    s.append("                ");
    s.append(");\n");
    s
}

/// Writes the statement that creates an index unless it exists.
pub fn render_index(i: &Index) -> (s: String)
    ensures
        s@ == index_text(i@),
{
    let mut s = "                ".to_owned();
    s.append("CREATE INDEX IF NOT EXISTS ");
    s.append(i.name.as_str());
    s.append(" ON ");
    s.append(i.table.as_str());
    s.append("(");
    s.append(i.column.as_str());
    s.append(");\n");
    s
}

/// Writes the batch that creates a schema: every table in order, then every
/// index in order, each statement guarded by `IF NOT EXISTS`.
pub fn render_batch(schema: &Schema) -> (s: String)
    ensures
        s@ == batch_text(schema@),
{
    let tables: usize = schema.tables.len();
    let indexes: usize = schema.indexes.len();
    let mut head = String::new();
    let mut i: usize = 0;
    while i < tables
        invariant
            i <= tables,
            tables == schema.tables.len(),
            head@ == tables_text(schema@.tables, i as int),
        decreases tables - i,
    {
        let statement = render_table(&schema.tables[i]);
        head.append(statement.as_str());
        head.append("\n");
        i += 1;
    }
    let mut tail = String::new();
    let mut j: usize = 0;
    while j < indexes
        invariant
            j <= indexes,
            indexes == schema.indexes.len(),
            tail@ == indexes_text(schema@.indexes, j as int),
        decreases indexes - j,
    {
        let statement = render_index(&schema.indexes[j]);
        tail.append(statement.as_str());
        j += 1;
    }
    let mut s = "\n".to_owned();
    s.append(head.as_str());
    s.append(tail.as_str());
    s.append("            ");
    s
}

} // verus!
