use timeloop::initial::{categories, entries, initial_schema, time_entries};
use timeloop::names::{all_distinct, plain_name, quote_free};
use timeloop::schema::{
    Column, ColumnType, DefaultValue, ForeignKey, Index, OnDelete, Schema, Table,
};

fn s(text: &str) -> String {
    text.to_string()
}

fn column(name: &str, ty: ColumnType) -> Column {
    Column { name: s(name), ty, primary_key: false, not_null: false, default: None }
}

fn key(name: &str) -> Column {
    Column { primary_key: true, ..column(name, ColumnType::Integer) }
}

fn reference(column: &str, table: &str, to: &str) -> ForeignKey {
    ForeignKey {
        column: s(column),
        ref_table: s(table),
        ref_column: s(to),
        on_delete: OnDelete::NoAction,
    }
}

fn parent() -> Table {
    Table { name: s("parent"), columns: vec![key("id")], foreign_keys: vec![] }
}

fn child() -> Table {
    Table {
        name: s("child"),
        columns: vec![key("id"), column("parent_id", ColumnType::Integer)],
        foreign_keys: vec![reference("parent_id", "parent", "id")],
    }
}

fn family() -> Schema {
    Schema {
        tables: vec![parent(), child()],
        indexes: vec![Index { name: s("idx_child_parent"), table: s("child"), column: s("parent_id") }],
    }
}

#[test]
fn categories_as_declared() {
    let t = categories();
    assert_eq!(t.name, "categories");
    assert_eq!(
        t.columns,
        vec![
            key("id"),
            Column { not_null: true, ..column("name", ColumnType::Text) },
            Column {
                default: Some(DefaultValue::Text(s("#6366f1"))),
                ..column("color", ColumnType::Text)
            },
            Column {
                default: Some(DefaultValue::CurrentTimestamp),
                ..column("created_at", ColumnType::Text)
            },
        ]
    );
    assert!(t.foreign_keys.is_empty());
}

#[test]
fn entries_as_declared() {
    let t = entries();
    assert_eq!(t.name, "entries");
    assert_eq!(
        t.columns,
        vec![
            key("id"),
            Column { not_null: true, ..column("title", ColumnType::Text) },
            column("category_id", ColumnType::Integer),
            Column {
                default: Some(DefaultValue::CurrentTimestamp),
                ..column("created_at", ColumnType::Text)
            },
        ]
    );
    assert_eq!(t.foreign_keys, vec![reference("category_id", "categories", "id")]);
    assert_eq!(t.foreign_keys[0].on_delete, OnDelete::NoAction);
}

#[test]
fn time_entries_as_declared() {
    let t = time_entries();
    assert_eq!(t.name, "time_entries");
    assert_eq!(
        t.columns,
        vec![
            key("id"),
            Column { not_null: true, ..column("entry_id", ColumnType::Integer) },
            Column { not_null: true, ..column("duration", ColumnType::Integer) },
            Column { not_null: true, ..column("date", ColumnType::Text) },
            column("note", ColumnType::Text),
            Column {
                default: Some(DefaultValue::CurrentTimestamp),
                ..column("created_at", ColumnType::Text)
            },
        ]
    );
    assert_eq!(
        t.foreign_keys,
        vec![ForeignKey { on_delete: OnDelete::Cascade, ..reference("entry_id", "entries", "id") }]
    );
}

#[test]
fn version_one_as_declared() {
    let schema = initial_schema();
    assert_eq!(schema.tables, vec![categories(), entries(), time_entries()]);
    assert_eq!(
        schema.indexes,
        vec![
            Index { name: s("idx_time_entries_date"), table: s("time_entries"), column: s("date") },
            Index {
                name: s("idx_time_entries_entry_id"),
                table: s("time_entries"),
                column: s("entry_id"),
            },
        ]
    );
    assert_eq!(
        schema.object_names(),
        vec![
            "categories",
            "entries",
            "time_entries",
            "idx_time_entries_date",
            "idx_time_entries_entry_id"
        ]
    );
}

#[test]
fn version_one_is_well_formed() {
    let schema = initial_schema();
    assert!(schema.is_well_formed());
    for t in schema.tables.iter() {
        assert!(t.is_well_formed());
        assert!(t.has_one_key());
        assert!(t.has_key(&s("id")));
        for c in t.columns.iter() {
            assert!(c.is_well_formed());
        }
    }
}

#[test]
fn version_one_indexes_both_lookups() {
    let schema = initial_schema();
    assert!(schema.is_indexed(&s("time_entries"), &s("date")));
    assert!(schema.is_indexed(&s("time_entries"), &s("entry_id")));
    assert!(!schema.is_indexed(&s("time_entries"), &s("note")));
    assert!(!schema.is_indexed(&s("entries"), &s("date")));
}

#[test]
fn copies_are_equal() {
    let schema = initial_schema();
    assert_eq!(schema.clone(), schema);
    assert_eq!(categories().clone(), categories());
    let c = Column { default: Some(DefaultValue::Text(s("x"))), ..column("c", ColumnType::Text) };
    assert_eq!(c.clone(), c);
    let k = ForeignKey { on_delete: OnDelete::Cascade, ..reference("a", "b", "c") };
    assert_eq!(k.clone(), k);
    let i = Index { name: s("i"), table: s("t"), column: s("c") };
    assert_eq!(i.clone(), i);
}

#[test]
fn plain_names() {
    assert!(plain_name("id"));
    assert!(plain_name("time_entries"));
    assert!(plain_name("_x9"));
    assert!(plain_name("a"));
    assert!(!plain_name(""));
    assert!(!plain_name("9lives"));
    assert!(!plain_name("Entries"));
    assert!(!plain_name("time entries"));
    assert!(!plain_name("a-b"));
    assert!(!plain_name("a;"));
    assert!(!plain_name("caf\u{e9}"));
    assert!(!plain_name("a\""));
}

#[test]
fn texts_without_quotes() {
    assert!(quote_free("#6366f1"));
    assert!(quote_free(""));
    assert!(quote_free("\""));
    assert!(!quote_free("'"));
    assert!(!quote_free("it's"));
    assert!(!quote_free("x'"));
}

#[test]
fn distinct_names() {
    assert!(all_distinct(&vec![]));
    assert!(all_distinct(&vec![s("a")]));
    assert!(all_distinct(&vec![s("a"), s("b"), s("c")]));
    assert!(all_distinct(&vec![s("a"), s("A")]));
    assert!(!all_distinct(&vec![s("a"), s("a")]));
    assert!(!all_distinct(&vec![s("a"), s("b"), s("a")]));
    assert!(!all_distinct(&vec![s("b"), s("a"), s("a")]));
}

#[test]
fn columns_are_found_by_name() {
    let t = time_entries();
    assert_eq!(t.column_names(), vec!["id", "entry_id", "duration", "date", "note", "created_at"]);
    assert!(t.has_column(&s("date")));
    assert!(t.has_column(&s("created_at")));
    assert!(!t.has_column(&s("title")));
    assert!(!t.has_column(&s("Date")));
    assert!(t.has_key(&s("id")));
    assert!(!t.has_key(&s("entry_id")));
    assert!(!t.has_key(&s("missing")));
}

#[test]
fn declarations_are_found_in_order() {
    let schema = initial_schema();
    assert!(schema.key_declared(1, &s("categories"), &s("id")));
    assert!(!schema.key_declared(0, &s("categories"), &s("id")));
    assert!(!schema.key_declared(1, &s("entries"), &s("id")));
    assert!(schema.key_declared(2, &s("entries"), &s("id")));
    assert!(schema.key_declared(100, &s("time_entries"), &s("id")));
    assert!(!schema.key_declared(3, &s("entries"), &s("title")));
    assert!(schema.column_declared(&s("entries"), &s("title")));
    assert!(!schema.column_declared(&s("entries"), &s("date")));
    assert!(!schema.column_declared(&s("missing"), &s("id")));
}

#[test]
fn well_formed_column() {
    assert!(column("a", ColumnType::Text).is_well_formed());
    assert!(key("id").is_well_formed());
    assert!(!column("A", ColumnType::Text).is_well_formed());
    assert!(!Column { primary_key: true, ..column("id", ColumnType::Text) }.is_well_formed());
    let with = |d: &str| Column {
        default: Some(DefaultValue::Text(s(d))),
        ..column("c", ColumnType::Text)
    };
    assert!(with("plain").is_well_formed());
    assert!(!with("it's").is_well_formed());
    assert!(Column { default: Some(DefaultValue::CurrentTimestamp), ..key("id") }.is_well_formed());
}

#[test]
fn well_formed_table() {
    assert!(parent().is_well_formed());
    assert!(child().is_well_formed());
    assert!(!Table { name: s("Parent"), ..parent() }.is_well_formed());
    assert!(!Table { columns: vec![], ..parent() }.is_well_formed());
    assert!(!Table { columns: vec![key("id"), column("bad name", ColumnType::Text)], ..parent() }
        .is_well_formed());
    assert!(!Table { columns: vec![key("id"), column("id", ColumnType::Text)], ..parent() }
        .is_well_formed());
    let two_keys = Table { columns: vec![key("id"), key("other")], ..parent() };
    assert!(!two_keys.has_one_key());
    assert!(!two_keys.is_well_formed());
    assert!(Table { columns: vec![column("a", ColumnType::Text)], ..parent() }.has_one_key());
    assert!(!Table { foreign_keys: vec![reference("missing", "parent", "id")], ..child() }
        .is_well_formed());
}

#[test]
fn well_formed_schema() {
    assert!(family().is_well_formed());
    assert!(Schema { tables: vec![], indexes: vec![] }.is_well_formed());
}

#[test]
fn schema_with_an_ill_formed_table() {
    let bad = Table { columns: vec![], ..parent() };
    assert!(!Schema { tables: vec![bad, child()], ..family() }.is_well_formed());
}

#[test]
fn schema_with_a_name_twice() {
    assert!(!Schema { tables: vec![parent(), child(), parent()], ..family() }.is_well_formed());
    let index = Index { name: s("idx_child_parent"), table: s("child"), column: s("id") };
    let mut twice = family();
    twice.indexes.push(index);
    assert!(!twice.is_well_formed());
    let named_like_a_table = Index { name: s("child"), table: s("child"), column: s("id") };
    assert!(!Schema { indexes: vec![named_like_a_table], ..family() }.is_well_formed());
}

#[test]
fn schema_with_a_table_before_the_one_it_references() {
    assert!(!Schema { tables: vec![child(), parent()], ..family() }.is_well_formed());
}

#[test]
fn schema_with_a_reference_that_does_not_resolve() {
    let to_missing_table =
        Table { foreign_keys: vec![reference("parent_id", "missing", "id")], ..child() };
    assert!(!Schema { tables: vec![parent(), to_missing_table], ..family() }.is_well_formed());
    let to_missing_column =
        Table { foreign_keys: vec![reference("parent_id", "parent", "missing")], ..child() };
    assert!(!Schema { tables: vec![parent(), to_missing_column], ..family() }.is_well_formed());
    let to_plain_column = Table {
        columns: vec![key("id"), column("label", ColumnType::Text)],
        ..parent()
    };
    let child = Table { foreign_keys: vec![reference("parent_id", "parent", "label")], ..child() };
    assert!(!Schema { tables: vec![to_plain_column, child], ..family() }.is_well_formed());
}

#[test]
fn schema_with_a_table_that_references_itself() {
    let node = Table {
        name: s("node"),
        columns: vec![key("id"), column("parent_id", ColumnType::Integer)],
        foreign_keys: vec![reference("parent_id", "node", "id")],
    };
    assert!(Schema { tables: vec![node], indexes: vec![] }.is_well_formed());
}

#[test]
fn schema_with_an_index_that_does_not_resolve() {
    let on = |name: &str, table: &str, column: &str| Schema {
        indexes: vec![Index { name: s(name), table: s(table), column: s(column) }],
        ..family()
    };
    assert!(on("idx", "child", "id").is_well_formed());
    assert!(!on("idx", "missing", "id").is_well_formed());
    assert!(!on("idx", "child", "missing").is_well_formed());
    assert!(!on("Idx", "child", "id").is_well_formed());
}
