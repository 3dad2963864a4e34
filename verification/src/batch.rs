//! The batch of version 1, to the character.
//!
//! A store that has run the batch holds a digest of its text and accepts no
//! other text under version 1. The statements are written out here as they
//! reach the store, and each is proved to be what the schema is written as.

use vstd::prelude::*;
use crate::ddl::{
    batch_text, closing_indent, index_text, indexes_text, item_line, item_lines, table_foot,
    table_head, table_items, table_text, tables_text,
};
use crate::initial::{categories_view, entries_view, initial_schema_view, time_entries_view};
use crate::text::{lemma_stands_at, stands_at};

verus! {

/// The statement that creates the table of categories.
pub open spec fn categories_statement() -> Seq<char> {
    "                CREATE TABLE IF NOT EXISTS categories (
                    id INTEGER PRIMARY KEY AUTOINCREMENT,
                    name TEXT NOT NULL,
                    color TEXT DEFAULT '#6366f1',
                    created_at TEXT DEFAULT CURRENT_TIMESTAMP
                );
"@
}

/// The statement that creates the table of entries.
pub open spec fn entries_statement() -> Seq<char> {
    "                CREATE TABLE IF NOT EXISTS entries (
                    id INTEGER PRIMARY KEY AUTOINCREMENT,
                    title TEXT NOT NULL,
                    category_id INTEGER,
                    created_at TEXT DEFAULT CURRENT_TIMESTAMP,
                    FOREIGN KEY (category_id) REFERENCES categories(id)
                );
"@
}

/// The statement that creates the table of logged time.
pub open spec fn time_entries_statement() -> Seq<char> {
    "                CREATE TABLE IF NOT EXISTS time_entries (
                    id INTEGER PRIMARY KEY AUTOINCREMENT,
                    entry_id INTEGER NOT NULL,
                    duration INTEGER NOT NULL,
                    date TEXT NOT NULL,
                    note TEXT,
                    created_at TEXT DEFAULT CURRENT_TIMESTAMP,
                    FOREIGN KEY (entry_id) REFERENCES entries(id) ON DELETE CASCADE
                );
"@
}

/// The statement that creates the index of logged time by date.
pub open spec fn date_index_statement() -> Seq<char> {
    "                CREATE INDEX IF NOT EXISTS idx_time_entries_date ON time_entries(date);
"@
}

/// The statement that creates the index of logged time by entry.
pub open spec fn entry_index_statement() -> Seq<char> {
    "                CREATE INDEX IF NOT EXISTS idx_time_entries_entry_id ON time_entries(entry_id);
"@
}

/// The batch that creates version 1: a line feed, each table followed by a
/// blank line, the two indexes, and the closing indentation.
pub open spec fn initial_batch_text() -> Seq<char> {
    "\n"@ + categories_statement() + "\n"@ + entries_statement() + "\n"@
        + time_entries_statement() + "\n"@ + date_index_statement() + entry_index_statement()
        + "            "@
}

#[verifier::rlimit(40)]
proof fn lemma_categories_statement()
    ensures
        table_text(categories_view()) == categories_statement(),
{
    let whole = categories_statement();
    let items = table_items(categories_view());
    reveal_strlit("                CREATE TABLE IF NOT EXISTS categories (
                    id INTEGER PRIMARY KEY AUTOINCREMENT,
                    name TEXT NOT NULL,
                    color TEXT DEFAULT '#6366f1',
                    created_at TEXT DEFAULT CURRENT_TIMESTAMP
                );
");
    reveal_strlit("\n");
    reveal_strlit(",\n");
    reveal_strlit("                ");
    reveal_strlit("                    ");
    reveal_strlit("CREATE TABLE IF NOT EXISTS ");
    reveal_strlit(" (\n");
    reveal_strlit(");\n");
    reveal_strlit("INTEGER");
    reveal_strlit("TEXT");
    reveal_strlit(" ");
    reveal_strlit(" PRIMARY KEY AUTOINCREMENT");
    reveal_strlit(" NOT NULL");
    reveal_strlit(" DEFAULT CURRENT_TIMESTAMP");
    reveal_strlit("id");
    reveal_strlit("created_at");
    reveal_strlit("categories");
    reveal_strlit("name");
    reveal_strlit("color");
    reveal_strlit(" DEFAULT '");
    reveal_strlit("#6366f1");
    reveal_strlit("'");
    assert(whole.subrange(0, 56) == table_head("categories"@)) by {
        assert(stands_at(whole, 0, table_head("categories"@), 0, 56)) by {
            reveal_with_fuel(stands_at, 9);
        }
        lemma_stands_at(whole, 0, table_head("categories"@));
    }
    assert(whole.subrange(56, 114) == item_line(items, 0)) by {
        assert(stands_at(whole, 56, item_line(items, 0), 0, 58)) by {
            reveal_with_fuel(stands_at, 9);
        }
        lemma_stands_at(whole, 56, item_line(items, 0));
    }
    assert(whole.subrange(114, 154) == item_line(items, 1)) by {
        assert(stands_at(whole, 114, item_line(items, 1), 0, 40)) by {
            reveal_with_fuel(stands_at, 9);
        }
        lemma_stands_at(whole, 114, item_line(items, 1));
    }
    assert(whole.subrange(154, 204) == item_line(items, 2)) by {
        assert(stands_at(whole, 154, item_line(items, 2), 0, 50)) by {
            reveal_with_fuel(stands_at, 9);
        }
        lemma_stands_at(whole, 154, item_line(items, 2));
    }
    assert(whole.subrange(204, 266) == item_line(items, 3)) by {
        assert(stands_at(whole, 204, item_line(items, 3), 0, 62)) by {
            reveal_with_fuel(stands_at, 9);
        }
        lemma_stands_at(whole, 204, item_line(items, 3));
    }
    assert(whole.subrange(266, 285) == table_foot()) by {
        assert(stands_at(whole, 266, table_foot(), 0, 19)) by {
            reveal_with_fuel(stands_at, 9);
        }
        lemma_stands_at(whole, 266, table_foot());
    }
    assert(item_lines(items, 4) == whole.subrange(56, 266)) by {
        reveal_with_fuel(item_lines, 5);
    }
}

#[verifier::rlimit(40)]
proof fn lemma_entries_statement()
    ensures
        table_text(entries_view()) == entries_statement(),
{
    let whole = entries_statement();
    let items = table_items(entries_view());
    reveal_strlit("                CREATE TABLE IF NOT EXISTS entries (
                    id INTEGER PRIMARY KEY AUTOINCREMENT,
                    title TEXT NOT NULL,
                    category_id INTEGER,
                    created_at TEXT DEFAULT CURRENT_TIMESTAMP,
                    FOREIGN KEY (category_id) REFERENCES categories(id)
                );
");
    reveal_strlit("\n");
    reveal_strlit(",\n");
    reveal_strlit("                ");
    reveal_strlit("                    ");
    reveal_strlit("CREATE TABLE IF NOT EXISTS ");
    reveal_strlit(" (\n");
    reveal_strlit(");\n");
    reveal_strlit("INTEGER");
    reveal_strlit("TEXT");
    reveal_strlit(" ");
    reveal_strlit(" PRIMARY KEY AUTOINCREMENT");
    reveal_strlit(" NOT NULL");
    reveal_strlit(" DEFAULT CURRENT_TIMESTAMP");
    reveal_strlit("id");
    reveal_strlit("created_at");
    reveal_strlit("entries");
    reveal_strlit("title");
    reveal_strlit("category_id");
    reveal_strlit("FOREIGN KEY (");
    reveal_strlit(") REFERENCES ");
    reveal_strlit("(");
    reveal_strlit(")");
    reveal_strlit("categories");
    assert(whole.subrange(0, 53) == table_head("entries"@)) by {
        assert(stands_at(whole, 0, table_head("entries"@), 0, 53)) by {
            reveal_with_fuel(stands_at, 9);
        }
        lemma_stands_at(whole, 0, table_head("entries"@));
    }
    assert(whole.subrange(53, 111) == item_line(items, 0)) by {
        assert(stands_at(whole, 53, item_line(items, 0), 0, 58)) by {
            reveal_with_fuel(stands_at, 9);
        }
        lemma_stands_at(whole, 53, item_line(items, 0));
    }
    assert(whole.subrange(111, 152) == item_line(items, 1)) by {
        assert(stands_at(whole, 111, item_line(items, 1), 0, 41)) by {
            reveal_with_fuel(stands_at, 9);
        }
        lemma_stands_at(whole, 111, item_line(items, 1));
    }
    assert(whole.subrange(152, 193) == item_line(items, 2)) by {
        assert(stands_at(whole, 152, item_line(items, 2), 0, 41)) by {
            reveal_with_fuel(stands_at, 9);
        }
        lemma_stands_at(whole, 152, item_line(items, 2));
    }
    assert(whole.subrange(193, 256) == item_line(items, 3)) by {
        assert(stands_at(whole, 193, item_line(items, 3), 0, 63)) by {
            reveal_with_fuel(stands_at, 9);
        }
        lemma_stands_at(whole, 193, item_line(items, 3));
    }
    assert(whole.subrange(256, 328) == item_line(items, 4)) by {
        assert(stands_at(whole, 256, item_line(items, 4), 0, 72)) by {
            reveal_with_fuel(stands_at, 9);
        }
        lemma_stands_at(whole, 256, item_line(items, 4));
    }
    assert(whole.subrange(328, 347) == table_foot()) by {
        assert(stands_at(whole, 328, table_foot(), 0, 19)) by {
            reveal_with_fuel(stands_at, 9);
        }
        lemma_stands_at(whole, 328, table_foot());
    }
    assert(item_lines(items, 5) == whole.subrange(53, 328)) by {
        reveal_with_fuel(item_lines, 6);
    }
}

#[verifier::rlimit(40)]
proof fn lemma_time_entries_statement()
    ensures
        table_text(time_entries_view()) == time_entries_statement(),
{
    let whole = time_entries_statement();
    let items = table_items(time_entries_view());
    reveal_strlit("                CREATE TABLE IF NOT EXISTS time_entries (
                    id INTEGER PRIMARY KEY AUTOINCREMENT,
                    entry_id INTEGER NOT NULL,
                    duration INTEGER NOT NULL,
                    date TEXT NOT NULL,
                    note TEXT,
                    created_at TEXT DEFAULT CURRENT_TIMESTAMP,
                    FOREIGN KEY (entry_id) REFERENCES entries(id) ON DELETE CASCADE
                );
");
    reveal_strlit("\n");
    reveal_strlit(",\n");
    reveal_strlit("                ");
    reveal_strlit("                    ");
    reveal_strlit("CREATE TABLE IF NOT EXISTS ");
    reveal_strlit(" (\n");
    reveal_strlit(");\n");
    reveal_strlit("INTEGER");
    reveal_strlit("TEXT");
    reveal_strlit(" ");
    reveal_strlit(" PRIMARY KEY AUTOINCREMENT");
    reveal_strlit(" NOT NULL");
    reveal_strlit(" DEFAULT CURRENT_TIMESTAMP");
    reveal_strlit("id");
    reveal_strlit("created_at");
    reveal_strlit("time_entries");
    reveal_strlit("entry_id");
    reveal_strlit("duration");
    reveal_strlit("date");
    reveal_strlit("note");
    reveal_strlit("FOREIGN KEY (");
    reveal_strlit(") REFERENCES ");
    reveal_strlit("(");
    reveal_strlit(")");
    reveal_strlit("entries");
    reveal_strlit(" ON DELETE CASCADE");
    assert(whole.subrange(0, 58) == table_head("time_entries"@)) by {
        assert(stands_at(whole, 0, table_head("time_entries"@), 0, 58)) by {
            reveal_with_fuel(stands_at, 9);
        }
        lemma_stands_at(whole, 0, table_head("time_entries"@));
    }
    assert(whole.subrange(58, 116) == item_line(items, 0)) by {
        assert(stands_at(whole, 58, item_line(items, 0), 0, 58)) by {
            reveal_with_fuel(stands_at, 9);
        }
        lemma_stands_at(whole, 58, item_line(items, 0));
    }
    assert(whole.subrange(116, 163) == item_line(items, 1)) by {
        assert(stands_at(whole, 116, item_line(items, 1), 0, 47)) by {
            reveal_with_fuel(stands_at, 9);
        }
        lemma_stands_at(whole, 116, item_line(items, 1));
    }
    assert(whole.subrange(163, 210) == item_line(items, 2)) by {
        assert(stands_at(whole, 163, item_line(items, 2), 0, 47)) by {
            reveal_with_fuel(stands_at, 9);
        }
        lemma_stands_at(whole, 163, item_line(items, 2));
    }
    assert(whole.subrange(210, 250) == item_line(items, 3)) by {
        assert(stands_at(whole, 210, item_line(items, 3), 0, 40)) by {
            reveal_with_fuel(stands_at, 9);
        }
        lemma_stands_at(whole, 210, item_line(items, 3));
    }
    assert(whole.subrange(250, 281) == item_line(items, 4)) by {
        assert(stands_at(whole, 250, item_line(items, 4), 0, 31)) by {
            reveal_with_fuel(stands_at, 9);
        }
        lemma_stands_at(whole, 250, item_line(items, 4));
    }
    assert(whole.subrange(281, 344) == item_line(items, 5)) by {
        assert(stands_at(whole, 281, item_line(items, 5), 0, 63)) by {
            reveal_with_fuel(stands_at, 9);
        }
        lemma_stands_at(whole, 281, item_line(items, 5));
    }
    assert(whole.subrange(344, 428) == item_line(items, 6)) by {
        assert(stands_at(whole, 344, item_line(items, 6), 0, 84)) by {
            reveal_with_fuel(stands_at, 9);
        }
        lemma_stands_at(whole, 344, item_line(items, 6));
    }
    assert(whole.subrange(428, 447) == table_foot()) by {
        assert(stands_at(whole, 428, table_foot(), 0, 19)) by {
            reveal_with_fuel(stands_at, 9);
        }
        lemma_stands_at(whole, 428, table_foot());
    }
    assert(item_lines(items, 7) == whole.subrange(58, 428)) by {
        reveal_with_fuel(item_lines, 8);
    }
}

#[verifier::rlimit(40)]
proof fn lemma_date_index_statement()
    ensures
        index_text(initial_schema_view().indexes[0]) == date_index_statement(),
{
    let whole = date_index_statement();
    let text = index_text(initial_schema_view().indexes[0]);
    reveal_strlit("                CREATE INDEX IF NOT EXISTS idx_time_entries_date ON time_entries(date);\n");
    reveal_strlit("                ");
    reveal_strlit("CREATE INDEX IF NOT EXISTS ");
    reveal_strlit("idx_time_entries_date");
    reveal_strlit(" ON ");
    reveal_strlit("time_entries");
    reveal_strlit("(");
    reveal_strlit("date");
    reveal_strlit(");\n");
    assert(stands_at(whole, 0, text, 0, 88)) by {
        reveal_with_fuel(stands_at, 9);
    }
    lemma_stands_at(whole, 0, text);
    assert(whole.subrange(0, 88) =~= whole);
}

#[verifier::rlimit(40)]
proof fn lemma_entry_index_statement()
    ensures
        index_text(initial_schema_view().indexes[1]) == entry_index_statement(),
{
    let whole = entry_index_statement();
    let text = index_text(initial_schema_view().indexes[1]);
    reveal_strlit("                CREATE INDEX IF NOT EXISTS idx_time_entries_entry_id ON time_entries(entry_id);\n");
    reveal_strlit("                ");
    reveal_strlit("CREATE INDEX IF NOT EXISTS ");
    reveal_strlit("idx_time_entries_entry_id");
    reveal_strlit(" ON ");
    reveal_strlit("time_entries");
    reveal_strlit("(");
    reveal_strlit("entry_id");
    reveal_strlit(");\n");
    assert(stands_at(whole, 0, text, 0, 96)) by {
        reveal_with_fuel(stands_at, 9);
    }
    lemma_stands_at(whole, 0, text);
    assert(whole.subrange(0, 96) =~= whole);
}

/// The batch of version 1 is this text and no other.
pub proof fn lemma_initial_batch_text()
    ensures
        batch_text(initial_schema_view()) == initial_batch_text(),
{
    let s = initial_schema_view();
    let feed = "\n"@;
    let tables = categories_statement() + feed + entries_statement() + feed
        + time_entries_statement() + feed;
    let indexes = date_index_statement() + entry_index_statement();
    assert(tables_text(s.tables, 3) == tables) by {
        lemma_categories_statement();
        lemma_entries_statement();
        lemma_time_entries_statement();
        assert(s.tables[0] == categories_view());
        assert(s.tables[1] == entries_view());
        assert(s.tables[2] == time_entries_view());
        assert(tables_text(s.tables, 0) == Seq::<char>::empty());
        assert(tables_text(s.tables, 1) == categories_statement() + feed);
        assert(tables_text(s.tables, 2) == categories_statement() + feed + entries_statement()
            + feed);
    }
    assert(indexes_text(s.indexes, 2) == indexes) by {
        lemma_date_index_statement();
        lemma_entry_index_statement();
        assert(indexes_text(s.indexes, 0) == Seq::<char>::empty());
        assert(indexes_text(s.indexes, 1) == date_index_statement());
    }
    assert(batch_text(s) == feed + tables + indexes + closing_indent());
}

} // verus!
