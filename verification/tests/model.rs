use timeloop::initial::{categories, initial_schema, time_entries};
use timeloop::schema::{Column, ColumnType, Index, Schema, Table};

fn s(text: &str) -> String {
    text.to_string()
}

fn table(name: &str, column: &str) -> Table {
    Table {
        name: s(name),
        columns: vec![Column {
            name: s(column),
            ty: ColumnType::Text,
            primary_key: false,
            not_null: false,
            default: None,
        }],
        foreign_keys: vec![],
    }
}

fn index(name: &str, table: &str, column: &str) -> Index {
    Index { name: s(name), table: s(table), column: s(column) }
}

#[test]
fn new_store_is_empty() {
    let store = Schema::new();
    assert!(store.tables.is_empty());
    assert!(store.indexes.is_empty());
    assert!(!store.has_table(&s("entries")));
    assert!(!store.has_index(&s("idx_time_entries_date")));
}

#[test]
fn table_is_created_unless_it_exists() {
    let mut store = Schema::new();
    assert!(store.admits_table(&table("t", "a")));
    store.create_table(&table("t", "a"));
    assert_eq!(store.tables, vec![table("t", "a")]);
    assert!(store.has_table(&s("t")));
    assert!(!store.has_table(&s("T")));
    assert!(!store.has_index(&s("t")));
    assert!(store.admits_table(&table("t", "b")));
    store.create_table(&table("t", "b"));
    assert_eq!(store.tables, vec![table("t", "a")]);
    assert!(store.admits_table(&table("u", "b")));
    store.create_table(&table("u", "b"));
    assert_eq!(store.tables, vec![table("t", "a"), table("u", "b")]);
    assert!(store.indexes.is_empty());
    assert!(store.is_consistent());
}

#[test]
fn index_is_created_unless_it_exists() {
    let mut store = Schema { tables: vec![table("t", "a"), table("u", "b")], indexes: vec![] };
    assert!(store.admits_index(&index("i", "t", "a")));
    store.create_index(&index("i", "t", "a"));
    assert_eq!(store.indexes, vec![index("i", "t", "a")]);
    assert!(store.has_index(&s("i")));
    assert!(!store.has_table(&s("i")));
    assert!(store.admits_index(&index("i", "u", "b")));
    store.create_index(&index("i", "u", "b"));
    assert_eq!(store.indexes, vec![index("i", "t", "a")]);
    assert!(store.admits_index(&index("j", "u", "b")));
    store.create_index(&index("j", "u", "b"));
    assert_eq!(store.indexes, vec![index("i", "t", "a"), index("j", "u", "b")]);
    assert_eq!(store.tables.len(), 2);
    assert!(store.is_consistent());
}

#[test]
fn statements_that_the_model_does_not_speak_of() {
    let store = Schema {
        tables: vec![table("t", "a")],
        indexes: vec![index("i", "t", "a")],
    };
    assert!(store.is_consistent());
    assert!(!store.admits_table(&table("i", "a")));
    assert!(!store.admits_table(&table("Upper", "a")));
    assert!(!store.admits_table(&Table { columns: vec![], ..table("u", "a") }));
    assert!(!store.admits_index(&index("t", "t", "a")));
    assert!(!store.admits_index(&index("j", "missing", "a")));
    assert!(!store.admits_index(&index("j", "t", "missing")));
    assert!(!store.admits_index(&index("J", "t", "a")));
    assert!(!store.admits_index(&index("i", "missing", "a")));
    assert!(store.admits_index(&index("i", "t", "missing")));
    assert!(store.admits_index(&index("j", "t", "a")));
    let upper = Schema { tables: vec![table("Entries", "a")], indexes: vec![] };
    assert!(!upper.is_consistent());
    assert!(!upper.admits_table(&table("u", "a")));
    assert!(!upper.admits(&initial_schema()));
    let twice = Schema { tables: vec![table("t", "a"), table("t", "b")], indexes: vec![] };
    assert!(!twice.is_consistent());
    let clash = Schema { tables: vec![table("t", "a")], indexes: vec![index("t", "t", "a")] };
    assert!(!clash.is_consistent());
}

#[test]
fn passes_that_the_model_does_not_speak_of() {
    let named_like_a_table = Schema {
        tables: vec![table("other", "a")],
        indexes: vec![index("categories", "other", "a")],
    };
    assert!(named_like_a_table.is_consistent());
    assert!(!named_like_a_table.admits(&initial_schema()));
    let named_like_an_index = Schema {
        tables: vec![table("idx_time_entries_date", "a")],
        indexes: vec![],
    };
    assert!(!named_like_an_index.admits(&initial_schema()));
    let without_the_column = Schema { tables: vec![table("time_entries", "note")], indexes: vec![] };
    assert!(!without_the_column.admits(&initial_schema()));
    let mut held = without_the_column.clone();
    assert!(!held.try_apply(&initial_schema()));
    assert_eq!(held, without_the_column);
    let ill_formed = Schema { tables: vec![table("t", "a"), table("t", "b")], indexes: vec![] };
    let mut store = Schema::new();
    assert!(!store.admits(&ill_formed));
    assert!(!store.try_apply(&ill_formed));
    assert_eq!(store, Schema::new());
}

#[test]
fn pass_on_an_empty_store_creates_the_schema() {
    let mut store = Schema::new();
    assert!(store.admits(&initial_schema()));
    store.apply(&initial_schema());
    assert_eq!(store, initial_schema());
    assert!(store.is_consistent());
}

#[test]
fn second_pass_is_admitted_and_changes_nothing() {
    let mut store = Schema::new();
    assert!(store.try_apply(&initial_schema()));
    let once = store.clone();
    assert!(store.admits(&initial_schema()));
    assert!(store.try_apply(&initial_schema()));
    assert_eq!(store, once);

    let mut store = Schema {
        tables: vec![table("entries", "label"), table("other", "a")],
        indexes: vec![index("idx_time_entries_date", "other", "a")],
    };
    assert!(store.try_apply(&initial_schema()));
    let once = store.clone();
    assert!(store.try_apply(&initial_schema()));
    assert_eq!(store, once);
    assert!(store.is_consistent());
}

#[test]
fn pass_keeps_what_the_store_holds() {
    let held = Schema {
        tables: vec![table("entries", "label"), table("other", "a")],
        indexes: vec![index("idx_time_entries_date", "other", "a")],
    };
    let mut store = held.clone();
    assert!(store.try_apply(&initial_schema()));
    assert_eq!(
        store.tables,
        vec![table("entries", "label"), table("other", "a"), categories(), time_entries()]
    );
    assert_eq!(
        store.indexes,
        vec![
            index("idx_time_entries_date", "other", "a"),
            index("idx_time_entries_entry_id", "time_entries", "entry_id"),
        ]
    );
    assert_eq!(store.tables[..2], held.tables[..]);
    assert_eq!(store.indexes[..1], held.indexes[..]);
}

#[test]
fn referenced_tables_are_held_when_a_table_is_created() {
    let schema = initial_schema();
    let mut store = Schema::new();
    for t in schema.tables.iter() {
        assert!(store.admits_table(t));
        store.create_table(t);
        for k in t.foreign_keys.iter() {
            assert!(store.has_table(&k.ref_table));
        }
    }
    assert_eq!(store.tables, schema.tables);
    for i in schema.indexes.iter() {
        assert!(store.has_table(&i.table));
    }
}
