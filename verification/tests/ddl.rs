use timeloop::ddl::{render_batch, render_column, render_foreign_key, render_index, render_table};
use timeloop::initial::{categories, entries, time_entries};
use timeloop::schema::{
    Column, ColumnType, DefaultValue, ForeignKey, Index, OnDelete, Schema, Table,
};

fn column(name: &str, ty: ColumnType) -> Column {
    Column { name: name.to_string(), ty, primary_key: false, not_null: false, default: None }
}

#[test]
fn column_without_constraints() {
    assert_eq!(render_column(&column("note", ColumnType::Text)), "note TEXT");
    assert_eq!(render_column(&column("category_id", ColumnType::Integer)), "category_id INTEGER");
}

#[test]
fn column_that_is_the_surrogate_key() {
    let c = Column { primary_key: true, ..column("id", ColumnType::Integer) };
    assert_eq!(render_column(&c), "id INTEGER PRIMARY KEY AUTOINCREMENT");
}

#[test]
fn column_that_is_required() {
    let c = Column { not_null: true, ..column("duration", ColumnType::Integer) };
    assert_eq!(render_column(&c), "duration INTEGER NOT NULL");
}

#[test]
fn column_with_a_default() {
    let c = Column {
        default: Some(DefaultValue::Text("#6366f1".to_string())),
        ..column("color", ColumnType::Text)
    };
    assert_eq!(render_column(&c), "color TEXT DEFAULT '#6366f1'");
    let c = Column {
        default: Some(DefaultValue::CurrentTimestamp),
        ..column("created_at", ColumnType::Text)
    };
    assert_eq!(render_column(&c), "created_at TEXT DEFAULT CURRENT_TIMESTAMP");
    let c = Column { default: Some(DefaultValue::Text(String::new())), ..column("c", ColumnType::Text) };
    assert_eq!(render_column(&c), "c TEXT DEFAULT ''");
}

#[test]
fn column_constraints_come_in_a_fixed_order() {
    let c = Column {
        name: "n".to_string(),
        ty: ColumnType::Integer,
        primary_key: true,
        not_null: true,
        default: Some(DefaultValue::Text("0".to_string())),
    };
    assert_eq!(render_column(&c), "n INTEGER PRIMARY KEY AUTOINCREMENT NOT NULL DEFAULT '0'");
}

#[test]
fn foreign_key_with_and_without_cascade() {
    let mut k = ForeignKey {
        column: "category_id".to_string(),
        ref_table: "categories".to_string(),
        ref_column: "id".to_string(),
        on_delete: OnDelete::NoAction,
    };
    assert_eq!(render_foreign_key(&k), "FOREIGN KEY (category_id) REFERENCES categories(id)");
    k.on_delete = OnDelete::Cascade;
    assert_eq!(
        render_foreign_key(&k),
        "FOREIGN KEY (category_id) REFERENCES categories(id) ON DELETE CASCADE"
    );
}

#[test]
fn index_statement() {
    let i = Index {
        name: "idx_time_entries_date".to_string(),
        table: "time_entries".to_string(),
        column: "date".to_string(),
    };
    assert_eq!(
        render_index(&i),
        "                CREATE INDEX IF NOT EXISTS idx_time_entries_date ON time_entries(date);\n"
    );
}

#[test]
fn table_of_one_column() {
    let t = Table {
        name: "t".to_string(),
        columns: vec![column("a", ColumnType::Text)],
        foreign_keys: vec![],
    };
    let lines = [
        "                CREATE TABLE IF NOT EXISTS t (",
        "                    a TEXT",
        "                );",
        "",
    ];
    assert_eq!(render_table(&t), lines.join("\n"));
}

#[test]
fn table_items_are_separated_by_commas() {
    let key = |c: &str| ForeignKey {
        column: c.to_string(),
        ref_table: "p".to_string(),
        ref_column: "id".to_string(),
        on_delete: OnDelete::NoAction,
    };
    let t = Table {
        name: "t".to_string(),
        columns: vec![column("a", ColumnType::Integer), column("b", ColumnType::Integer)],
        foreign_keys: vec![key("a"), key("b")],
    };
    let lines = [
        "                CREATE TABLE IF NOT EXISTS t (",
        "                    a INTEGER,",
        "                    b INTEGER,",
        "                    FOREIGN KEY (a) REFERENCES p(id),",
        "                    FOREIGN KEY (b) REFERENCES p(id)",
        "                );",
        "",
    ];
    assert_eq!(render_table(&t), lines.join("\n"));
}

#[test]
fn table_without_items() {
    let t = Table { name: "t".to_string(), columns: vec![], foreign_keys: vec![] };
    assert_eq!(
        render_table(&t),
        "                CREATE TABLE IF NOT EXISTS t (\n                );\n"
    );
}

#[test]
fn tables_of_version_one() {
    let lines = [
        "                CREATE TABLE IF NOT EXISTS categories (",
        "                    id INTEGER PRIMARY KEY AUTOINCREMENT,",
        "                    name TEXT NOT NULL,",
        "                    color TEXT DEFAULT '#6366f1',",
        "                    created_at TEXT DEFAULT CURRENT_TIMESTAMP",
        "                );",
        "",
    ];
    assert_eq!(render_table(&categories()), lines.join("\n"));
    let lines = [
        "                CREATE TABLE IF NOT EXISTS entries (",
        "                    id INTEGER PRIMARY KEY AUTOINCREMENT,",
        "                    title TEXT NOT NULL,",
        "                    category_id INTEGER,",
        "                    created_at TEXT DEFAULT CURRENT_TIMESTAMP,",
        "                    FOREIGN KEY (category_id) REFERENCES categories(id)",
        "                );",
        "",
    ];
    assert_eq!(render_table(&entries()), lines.join("\n"));
    let lines = [
        "                CREATE TABLE IF NOT EXISTS time_entries (",
        "                    id INTEGER PRIMARY KEY AUTOINCREMENT,",
        "                    entry_id INTEGER NOT NULL,",
        "                    duration INTEGER NOT NULL,",
        "                    date TEXT NOT NULL,",
        "                    note TEXT,",
        "                    created_at TEXT DEFAULT CURRENT_TIMESTAMP,",
        "                    FOREIGN KEY (entry_id) REFERENCES entries(id) ON DELETE CASCADE",
        "                );",
        "",
    ];
    assert_eq!(render_table(&time_entries()), lines.join("\n"));
}

#[test]
fn batch_of_an_empty_schema() {
    let s = Schema { tables: vec![], indexes: vec![] };
    assert_eq!(render_batch(&s), "\n            ");
}

#[test]
fn batch_puts_tables_before_indexes() {
    let s = Schema {
        tables: vec![
            Table {
                name: "a".to_string(),
                columns: vec![column("x", ColumnType::Text)],
                foreign_keys: vec![],
            },
            Table {
                name: "b".to_string(),
                columns: vec![column("y", ColumnType::Text)],
                foreign_keys: vec![],
            },
        ],
        indexes: vec![
            Index { name: "i".to_string(), table: "a".to_string(), column: "x".to_string() },
            Index { name: "j".to_string(), table: "b".to_string(), column: "y".to_string() },
        ],
    };
    let lines = [
        "",
        "                CREATE TABLE IF NOT EXISTS a (",
        "                    x TEXT",
        "                );",
        "",
        "                CREATE TABLE IF NOT EXISTS b (",
        "                    y TEXT",
        "                );",
        "",
        "                CREATE INDEX IF NOT EXISTS i ON a(x);",
        "                CREATE INDEX IF NOT EXISTS j ON b(y);",
        "            ",
    ];
    assert_eq!(render_batch(&s), lines.join("\n"));
}

#[test]
fn every_statement_is_guarded() {
    let text = render_batch(&timeloop::initial::initial_schema());
    let statements: Vec<&str> =
        text.split(';').map(|s| s.trim()).filter(|s| !s.is_empty()).collect();
    assert_eq!(statements.len(), 5);
    for s in statements.iter().take(3) {
        assert!(s.starts_with("CREATE TABLE IF NOT EXISTS "), "{}", s);
    }
    for s in statements.iter().skip(3) {
        assert!(s.starts_with("CREATE INDEX IF NOT EXISTS "), "{}", s);
    }
}
