//! Version 1 of the schema: categories, entries and the time logged on them.

use vstd::prelude::*;
use crate::names::{is_plain_char, is_plain_name};
use crate::text::{holds_on, lemma_holds_on};
use crate::schema::{
    Column, ColumnType, ColumnView, DefaultValue, DefaultValueView, ForeignKey, ForeignKeyView,
    Index, IndexView, OnDelete, Schema, SchemaView, Table, TableView,
};

verus! {

/// The auto-incremented surrogate key that every table starts with.
pub open spec fn id_view() -> ColumnView {
    ColumnView {
        name: "id"@,
        ty: ColumnType::Integer,
        primary_key: true,
        not_null: false,
        default: None,
    }
}

/// The time at which a row was inserted, which every table ends with.
pub open spec fn created_at_view() -> ColumnView {
    ColumnView {
        name: "created_at"@,
        ty: ColumnType::Text,
        primary_key: false,
        not_null: false,
        default: Some(DefaultValueView::CurrentTimestamp),
    }
}

/// A column without a default that must hold a value.
pub open spec fn required_view(name: Seq<char>, ty: ColumnType) -> ColumnView {
    ColumnView { name, ty, primary_key: false, not_null: true, default: None }
}

/// A column without a default that may be empty.
pub open spec fn optional_view(name: Seq<char>, ty: ColumnType) -> ColumnView {
    ColumnView { name, ty, primary_key: false, not_null: false, default: None }
}

/// A category: a required name and a colour that defaults to `#6366f1`.
pub open spec fn categories_view() -> TableView {
    TableView {
        name: "categories"@,
        columns: seq![
            id_view(),
            required_view("name"@, ColumnType::Text),
            ColumnView {
                name: "color"@,
                ty: ColumnType::Text,
                primary_key: false,
                not_null: false,
                default: Some(DefaultValueView::Text("#6366f1"@)),
            },
            created_at_view(),
        ],
        foreign_keys: Seq::empty(),
    }
}

/// An entry: a required title and, optionally, the category it belongs to.
/// Deleting the category does not delete the entry.
pub open spec fn entries_view() -> TableView {
    TableView {
        name: "entries"@,
        columns: seq![
            id_view(),
            required_view("title"@, ColumnType::Text),
            optional_view("category_id"@, ColumnType::Integer),
            created_at_view(),
        ],
        foreign_keys: seq![
            ForeignKeyView {
                column: "category_id"@,
                ref_table: "categories"@,
                ref_column: "id"@,
                on_delete: OnDelete::NoAction,
            },
        ],
    }
}

/// A span of time logged on an entry on a date, with an optional note.
/// Deleting the entry deletes the time logged on it.
pub open spec fn time_entries_view() -> TableView {
    TableView {
        name: "time_entries"@,
        columns: seq![
            id_view(),
            required_view("entry_id"@, ColumnType::Integer),
            required_view("duration"@, ColumnType::Integer),
            required_view("date"@, ColumnType::Text),
            optional_view("note"@, ColumnType::Text),
            created_at_view(),
        ],
        foreign_keys: seq![
            ForeignKeyView {
                column: "entry_id"@,
                ref_table: "entries"@,
                ref_column: "id"@,
                on_delete: OnDelete::Cascade,
            },
        ],
    }
}

/// The schema at version 1: three tables, each created after the table it
/// references, and an index on each of the two columns by which logged time
/// is looked up.
pub open spec fn initial_schema_view() -> SchemaView {
    SchemaView {
        tables: seq![categories_view(), entries_view(), time_entries_view()],
        indexes: seq![
            IndexView {
                name: "idx_time_entries_date"@,
                table: "time_entries"@,
                column: "date"@,
            },
            IndexView {
                name: "idx_time_entries_entry_id"@,
                table: "time_entries"@,
                column: "entry_id"@,
            },
        ],
    }
}

fn id() -> (c: Column)
    ensures
        c@ == id_view(),
{
    Column {
        name: "id".to_owned(),
        ty: ColumnType::Integer,
        primary_key: true,
        not_null: false,
        default: None,
    }
}

fn created_at() -> (c: Column)
    ensures
        c@ == created_at_view(),
{
    Column {
        name: "created_at".to_owned(),
        ty: ColumnType::Text,
        primary_key: false,
        not_null: false,
        default: Some(DefaultValue::CurrentTimestamp),
    }
}

fn required(name: &str, ty: ColumnType) -> (c: Column)
    ensures
        c@ == required_view(name@, ty),
{
    Column { name: name.to_owned(), ty, primary_key: false, not_null: true, default: None }
}

fn optional(name: &str, ty: ColumnType) -> (c: Column)
    ensures
        c@ == optional_view(name@, ty),
{
    Column { name: name.to_owned(), ty, primary_key: false, not_null: false, default: None }
}

/// The table of categories.
pub fn categories() -> (t: Table)
    ensures
        t@ == categories_view(),
{
    let color = Column {
        name: "color".to_owned(),
        ty: ColumnType::Text,
        primary_key: false,
        not_null: false,
        default: Some(DefaultValue::Text("#6366f1".to_owned())),
    };
    let t = Table {
        name: "categories".to_owned(),
        columns: vec![id(), required("name", ColumnType::Text), color, created_at()],
        foreign_keys: Vec::new(),
    };
    assert(t@.columns =~= categories_view().columns);
    assert(t@.foreign_keys =~= categories_view().foreign_keys);
    t
}

/// The table of entries.
pub fn entries() -> (t: Table)
    ensures
        t@ == entries_view(),
{
    let category = ForeignKey {
        column: "category_id".to_owned(),
        ref_table: "categories".to_owned(),
        ref_column: "id".to_owned(),
        on_delete: OnDelete::NoAction,
    };
    let t = Table {
        name: "entries".to_owned(),
        columns: vec![
            id(),
            required("title", ColumnType::Text),
            optional("category_id", ColumnType::Integer),
            created_at(),
        ],
        foreign_keys: vec![category],
    };
    assert(t@.columns =~= entries_view().columns);
    assert(t@.foreign_keys =~= entries_view().foreign_keys);
    t
}

/// The table of logged time.
pub fn time_entries() -> (t: Table)
    ensures
        t@ == time_entries_view(),
{
    let entry = ForeignKey {
        column: "entry_id".to_owned(),
        ref_table: "entries".to_owned(),
        ref_column: "id".to_owned(),
        on_delete: OnDelete::Cascade,
    };
    let t = Table {
        name: "time_entries".to_owned(),
        columns: vec![
            id(),
            required("entry_id", ColumnType::Integer),
            required("duration", ColumnType::Integer),
            required("date", ColumnType::Text),
            optional("note", ColumnType::Text),
            created_at(),
        ],
        foreign_keys: vec![entry],
    };
    assert(t@.columns =~= time_entries_view().columns);
    assert(t@.foreign_keys =~= time_entries_view().foreign_keys);
    t
}

/// The schema at version 1.
pub fn initial_schema() -> (s: Schema)
    ensures
        s@ == initial_schema_view(),
        s@.well_formed(),
{
    proof {
        lemma_initial_schema_well_formed();
    }
    let by_date = Index {
        name: "idx_time_entries_date".to_owned(),
        table: "time_entries".to_owned(),
        column: "date".to_owned(),
    };
    let by_entry = Index {
        name: "idx_time_entries_entry_id".to_owned(),
        table: "time_entries".to_owned(),
        column: "entry_id".to_owned(),
    };
    let s = Schema {
        tables: vec![categories(), entries(), time_entries()],
        indexes: vec![by_date, by_entry],
    };
    assert(s@.tables =~= initial_schema_view().tables);
    assert(s@.indexes =~= initial_schema_view().indexes);
    s
}

/// The lengths of the names of version 1 and, where two names of one table
/// have the same length, the characters they start with.
proof fn lemma_names()
    ensures
        "id"@.len() == 2,
        "name"@.len() == 4,
        "color"@.len() == 5,
        "created_at"@.len() == 10,
        "title"@.len() == 5,
        "category_id"@.len() == 11,
        "entry_id"@.len() == 8,
        "duration"@.len() == 8,
        "date"@.len() == 4,
        "note"@.len() == 4,
        "categories"@.len() == 10,
        "entries"@.len() == 7,
        "time_entries"@.len() == 12,
        "idx_time_entries_date"@.len() == 21,
        "idx_time_entries_entry_id"@.len() == 25,
        "entry_id"@[0] == 'e',
        "duration"@[0] == 'd',
        "date"@[0] == 'd',
        "note"@[0] == 'n',
{
    reveal_strlit("id");
    reveal_strlit("name");
    reveal_strlit("color");
    reveal_strlit("created_at");
    reveal_strlit("title");
    reveal_strlit("category_id");
    reveal_strlit("entry_id");
    reveal_strlit("duration");
    reveal_strlit("date");
    reveal_strlit("note");
    reveal_strlit("categories");
    reveal_strlit("entries");
    reveal_strlit("time_entries");
    reveal_strlit("idx_time_entries_date");
    reveal_strlit("idx_time_entries_entry_id");
}

/// Every name of version 1 is plain, and the default colour holds no quote.
proof fn lemma_names_plain()
    ensures
        is_plain_name("id"@),
        is_plain_name("name"@),
        is_plain_name("color"@),
        is_plain_name("created_at"@),
        is_plain_name("title"@),
        is_plain_name("category_id"@),
        is_plain_name("entry_id"@),
        is_plain_name("duration"@),
        is_plain_name("date"@),
        is_plain_name("note"@),
        is_plain_name("categories"@),
        is_plain_name("entries"@),
        is_plain_name("time_entries"@),
        is_plain_name("idx_time_entries_date"@),
        is_plain_name("idx_time_entries_entry_id"@),
        !"#6366f1"@.contains('\''),
{
    let plain = |c: char| is_plain_char(c);
    let unquoted = |c: char| c != '\'';
    assert(is_plain_name("id"@)) by {
        reveal_strlit("id");
        reveal_with_fuel(holds_on, 6);
        assert(holds_on("id"@, plain, 0, 2));
        lemma_holds_on("id"@, plain, 0, 2);
    }
    assert(is_plain_name("name"@)) by {
        reveal_strlit("name");
        reveal_with_fuel(holds_on, 6);
        assert(holds_on("name"@, plain, 0, 4));
        lemma_holds_on("name"@, plain, 0, 4);
    }
    assert(is_plain_name("color"@)) by {
        reveal_strlit("color");
        reveal_with_fuel(holds_on, 6);
        assert(holds_on("color"@, plain, 0, 5));
        lemma_holds_on("color"@, plain, 0, 5);
    }
    assert(is_plain_name("created_at"@)) by {
        reveal_strlit("created_at");
        reveal_with_fuel(holds_on, 6);
        assert(holds_on("created_at"@, plain, 0, 10));
        lemma_holds_on("created_at"@, plain, 0, 10);
    }
    assert(is_plain_name("title"@)) by {
        reveal_strlit("title");
        reveal_with_fuel(holds_on, 6);
        assert(holds_on("title"@, plain, 0, 5));
        lemma_holds_on("title"@, plain, 0, 5);
    }
    assert(is_plain_name("category_id"@)) by {
        reveal_strlit("category_id");
        reveal_with_fuel(holds_on, 6);
        assert(holds_on("category_id"@, plain, 0, 11));
        lemma_holds_on("category_id"@, plain, 0, 11);
    }
    assert(is_plain_name("entry_id"@)) by {
        reveal_strlit("entry_id");
        reveal_with_fuel(holds_on, 6);
        assert(holds_on("entry_id"@, plain, 0, 8));
        lemma_holds_on("entry_id"@, plain, 0, 8);
    }
    assert(is_plain_name("duration"@)) by {
        reveal_strlit("duration");
        reveal_with_fuel(holds_on, 6);
        assert(holds_on("duration"@, plain, 0, 8));
        lemma_holds_on("duration"@, plain, 0, 8);
    }
    assert(is_plain_name("date"@)) by {
        reveal_strlit("date");
        reveal_with_fuel(holds_on, 6);
        assert(holds_on("date"@, plain, 0, 4));
        lemma_holds_on("date"@, plain, 0, 4);
    }
    assert(is_plain_name("note"@)) by {
        reveal_strlit("note");
        reveal_with_fuel(holds_on, 6);
        assert(holds_on("note"@, plain, 0, 4));
        lemma_holds_on("note"@, plain, 0, 4);
    }
    assert(is_plain_name("categories"@)) by {
        reveal_strlit("categories");
        reveal_with_fuel(holds_on, 6);
        assert(holds_on("categories"@, plain, 0, 10));
        lemma_holds_on("categories"@, plain, 0, 10);
    }
    assert(is_plain_name("entries"@)) by {
        reveal_strlit("entries");
        reveal_with_fuel(holds_on, 6);
        assert(holds_on("entries"@, plain, 0, 7));
        lemma_holds_on("entries"@, plain, 0, 7);
    }
    assert(is_plain_name("time_entries"@)) by {
        reveal_strlit("time_entries");
        reveal_with_fuel(holds_on, 6);
        assert(holds_on("time_entries"@, plain, 0, 12));
        lemma_holds_on("time_entries"@, plain, 0, 12);
    }
    assert(is_plain_name("idx_time_entries_date"@)) by {
        reveal_strlit("idx_time_entries_date");
        reveal_with_fuel(holds_on, 6);
        assert(holds_on("idx_time_entries_date"@, plain, 0, 21));
        lemma_holds_on("idx_time_entries_date"@, plain, 0, 21);
    }
    assert(is_plain_name("idx_time_entries_entry_id"@)) by {
        reveal_strlit("idx_time_entries_entry_id");
        reveal_with_fuel(holds_on, 6);
        assert(holds_on("idx_time_entries_entry_id"@, plain, 0, 25));
        lemma_holds_on("idx_time_entries_entry_id"@, plain, 0, 25);
    }
    assert(!"#6366f1"@.contains('\'')) by {
        reveal_strlit("#6366f1");
        reveal_with_fuel(holds_on, 6);
        assert(holds_on("#6366f1"@, unquoted, 0, 7));
        lemma_holds_on("#6366f1"@, unquoted, 0, 7);
    }
}

proof fn lemma_categories_well_formed()
    ensures
        categories_view().well_formed(),
        categories_view().has_key("id"@),
{
    lemma_names();
    lemma_names_plain();
    let t = categories_view();
    assert(t.columns[0].name == "id"@ && t.columns[0].primary_key);
}

proof fn lemma_entries_well_formed()
    ensures
        entries_view().well_formed(),
        entries_view().has_key("id"@),
{
    lemma_names();
    lemma_names_plain();
    let t = entries_view();
    assert(t.columns[0].name == "id"@ && t.columns[0].primary_key);
    assert(t.column_names()[2] == "category_id"@);
}

proof fn lemma_time_entries_well_formed()
    ensures
        time_entries_view().well_formed(),
        time_entries_view().has_column("date"@),
        time_entries_view().has_column("entry_id"@),
{
    lemma_names();
    lemma_names_plain();
    let t = time_entries_view();
    assert(t.column_names()[1] == "entry_id"@);
    assert(t.column_names()[3] == "date"@);
}

/// Version 1 is well formed: categories come before the entries that
/// reference them, entries before the time logged on them, and both indexes
/// are on columns of the table of logged time.
pub proof fn lemma_initial_schema_well_formed()
    ensures
        initial_schema_view().well_formed(),
{
    lemma_names();
    lemma_names_plain();
    lemma_categories_well_formed();
    lemma_entries_well_formed();
    lemma_time_entries_well_formed();
    let s = initial_schema_view();
    assert(s.tables[0] == categories_view());
    assert(s.tables[1] == entries_view());
    assert(s.tables[2] == time_entries_view());
    assert(s.object_names().no_duplicates()) by {
        assert(s.object_names() =~= seq![
            "categories"@,
            "entries"@,
            "time_entries"@,
            "idx_time_entries_date"@,
            "idx_time_entries_entry_id"@,
        ]);
    }
    assert(s.references_resolve(0));
    assert(s.references_resolve(1)) by {
        assert(s.tables[0].name == "categories"@);
        assert(s.key_declared(2, "categories"@, "id"@));
    }
    assert(s.references_resolve(2)) by {
        assert(s.tables[1].name == "entries"@);
        assert(s.key_declared(3, "entries"@, "id"@));
    }
    assert(s.indexes_resolve()) by {
        assert(s.tables[2].name == "time_entries"@);
        assert(s.column_declared("time_entries"@, "date"@));
        assert(s.column_declared("time_entries"@, "entry_id"@));
    }
}

/// Logged time is looked up by date and by entry: version 1 declares an
/// index on each of the two columns.
pub proof fn lemma_initial_schema_indexed()
    ensures
        initial_schema_view().is_indexed("time_entries"@, "date"@),
        initial_schema_view().is_indexed("time_entries"@, "entry_id"@),
{
    let s = initial_schema_view();
    assert(s.indexes[0].table == "time_entries"@ && s.indexes[0].column == "date"@);
    assert(s.indexes[1].table == "time_entries"@ && s.indexes[1].column == "entry_id"@);
}

} // verus!
