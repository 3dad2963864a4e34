//! Questions asked of a schema at run time: what it declares, and whether it
//! is well formed.

use vstd::prelude::*;
use crate::names::{all_distinct, is_plain_name, name_views, plain_name, quote_free};
use crate::schema::{Column, ColumnType, DefaultValue, Schema, Table};

verus! {

impl Column {
    /// Tells whether the column is well formed.
    pub fn is_well_formed(&self) -> (ok: bool)
        ensures
            ok == self@.well_formed(),
    {
        if !plain_name(self.name.as_str()) {
            return false;
        }
        if self.primary_key {
            match self.ty {
                ColumnType::Integer => {},
                ColumnType::Text => {
                    return false;
                },
            }
        }
        match &self.default {
            Some(DefaultValue::Text(text)) => quote_free(text.as_str()),
            _ => true,
        }
    }
}

impl Table {
    /// The names of the columns, in declaration order.
    pub fn column_names(&self) -> (names: Vec<String>)
        ensures
            names@.len() == self.columns@.len(),
            name_views(names@) == self@.column_names(),
    {
        let n: usize = self.columns.len();
        let mut names: Vec<String> = Vec::new();
        let mut i: usize = 0;
        while i < n
            invariant
                i <= n,
                n == self.columns.len(),
                names.len() == i,
                forall|a: int| 0 <= a < i ==> names[a]@ == self.columns[a].name@,
            decreases n - i,
        {
            names.push(self.columns[i].name.clone());
            i += 1;
        }
        assert(name_views(names@) =~= self@.column_names());
        names
    }

    /// Tells whether the table has a column of this name.
    pub fn has_column(&self, name: &String) -> (found: bool)
        ensures
            found == self@.has_column(name@),
    {
        let n: usize = self.columns.len();
        let mut i: usize = 0;
        while i < n
            invariant
                i <= n,
                n == self.columns.len(),
                forall|a: int| 0 <= a < i ==> self@.column_names()[a] != name@,
            decreases n - i,
        {
            if self.columns[i].name == *name {
                assert(self@.column_names()[i as int] == name@);
                return true;
            }
            i += 1;
        }
        false
    }

    /// Tells whether a column of this name is the table's surrogate key.
    pub fn has_key(&self, name: &String) -> (found: bool)
        ensures
            found == self@.has_key(name@),
    {
        let n: usize = self.columns.len();
        let mut i: usize = 0;
        while i < n
            invariant
                i <= n,
                n == self.columns.len(),
                forall|a: int|
                    0 <= a < i ==> !((#[trigger] self@.columns[a]).name == name@
                        && self@.columns[a].primary_key),
            decreases n - i,
        {
            if self.columns[i].primary_key && self.columns[i].name == *name {
                assert(self@.columns[i as int].name == name@ && self@.columns[i as int].primary_key);
                return true;
            }
            i += 1;
        }
        false
    }

    /// Tells whether at most one column is a surrogate key.
    pub fn has_one_key(&self) -> (ok: bool)
        ensures
            ok == self@.one_key(),
    {
        let n: usize = self.columns.len();
        let mut seen: bool = false;
        let mut i: usize = 0;
        while i < n
            invariant
                i <= n,
                n == self.columns.len(),
                seen <==> exists|a: int| 0 <= a < i && (#[trigger] self@.columns[a]).primary_key,
                forall|a: int, b: int|
                    0 <= a < b < i ==> !((#[trigger] self@.columns[a]).primary_key && (
                    #[trigger] self@.columns[b]).primary_key),
            decreases n - i,
        {
            if self.columns[i].primary_key {
                assert(self@.columns[i as int].primary_key);
                if seen {
                    return false;
                }
                seen = true;
            }
            i += 1;
        }
        true
    }

    /// Tells whether the name of the table and the names of its columns are
    /// plain.
    pub fn is_plainly_named(&self) -> (ok: bool)
        ensures
            ok == self@.plainly_named(),
    {
        if !plain_name(self.name.as_str()) {
            return false;
        }
        let n: usize = self.columns.len();
        let mut i: usize = 0;
        while i < n
            invariant
                i <= n,
                n == self.columns.len(),
                forall|a: int| 0 <= a < i ==> is_plain_name((#[trigger] self@.columns[a]).name),
            decreases n - i,
        {
            if !plain_name(self.columns[i].name.as_str()) {
                assert(!is_plain_name(self@.columns[i as int].name));
                return false;
            }
            i += 1;
        }
        true
    }

    /// Tells whether the table is well formed.
    pub fn is_well_formed(&self) -> (ok: bool)
        ensures
            ok == self@.well_formed(),
    {
        if !plain_name(self.name.as_str()) || self.columns.len() == 0 {
            return false;
        }
        let columns: usize = self.columns.len();
        let mut i: usize = 0;
        while i < columns
            invariant
                i <= columns,
                columns == self.columns.len(),
                forall|a: int| 0 <= a < i ==> (#[trigger] self@.columns[a]).well_formed(),
            decreases columns - i,
        {
            if !self.columns[i].is_well_formed() {
                assert(!self@.columns[i as int].well_formed());
                return false;
            }
            i += 1;
        }
        let names = self.column_names();
        if !all_distinct(&names) || !self.has_one_key() {
            return false;
        }
        let keys: usize = self.foreign_keys.len();
        let mut k: usize = 0;
        while k < keys
            invariant
                k <= keys,
                keys == self.foreign_keys.len(),
                forall|a: int|
                    0 <= a < k ==> self@.has_column((#[trigger] self@.foreign_keys[a]).column),
            decreases keys - k,
        {
            if !self.has_column(&self.foreign_keys[k].column) {
                assert(!self@.has_column(self@.foreign_keys[k as int].column));
                return false;
            }
            k += 1;
        }
        true
    }
}

impl Schema {
    /// The names of all objects: the tables in order, then the indexes in order.
    pub fn object_names(&self) -> (names: Vec<String>)
        ensures
            names@.len() == self.tables@.len() + self.indexes@.len(),
            name_views(names@) == self@.object_names(),
    {
        let tables: usize = self.tables.len();
        let indexes: usize = self.indexes.len();
        let mut names: Vec<String> = Vec::new();
        let mut i: usize = 0;
        while i < tables
            invariant
                i <= tables,
                tables == self.tables.len(),
                names.len() == i,
                forall|a: int| 0 <= a < i ==> names[a]@ == self.tables[a].name@,
            decreases tables - i,
        {
            names.push(self.tables[i].name.clone());
            i += 1;
        }
        let mut j: usize = 0;
        while j < indexes
            invariant
                j <= indexes,
                tables == self.tables.len(),
                indexes == self.indexes.len(),
                names.len() == tables + j,
                forall|a: int| 0 <= a < tables ==> names[a]@ == self.tables[a].name@,
                forall|a: int| 0 <= a < j ==> names[tables + a]@ == self.indexes[a].name@,
            decreases indexes - j,
        {
            names.push(self.indexes[j].name.clone());
            j += 1;
        }
        assert(name_views(names@) =~= self@.object_names());
        names
    }

    /// Tells whether one of the first `n` tables has this name and this
    /// surrogate key.
    pub fn key_declared(&self, n: usize, table: &String, column: &String) -> (found: bool)
        ensures
            found == self@.key_declared(n as int, table@, column@),
    {
        let tables: usize = self.tables.len();
        let mut j: usize = 0;
        while j < n && j < tables
            invariant
                j <= n,
                j <= tables,
                tables == self.tables.len(),
                forall|a: int|
                    0 <= a < j ==> !((#[trigger] self@.tables[a]).name == table@
                        && self@.tables[a].has_key(column@)),
            decreases tables - j,
        {
            if self.tables[j].name == *table && self.tables[j].has_key(column) {
                assert(self@.tables[j as int].name == table@ && self@.tables[j as int].has_key(
                    column@,
                ));
                return true;
            }
            j += 1;
        }
        false
    }

    /// Tells whether one of the tables has this name and a column of this name.
    pub fn column_declared(&self, table: &String, column: &String) -> (found: bool)
        ensures
            found == self@.column_declared(table@, column@),
    {
        let tables: usize = self.tables.len();
        let mut j: usize = 0;
        while j < tables
            invariant
                j <= tables,
                tables == self.tables.len(),
                forall|a: int|
                    0 <= a < j ==> !((#[trigger] self@.tables[a]).name == table@
                        && self@.tables[a].has_column(column@)),
            decreases tables - j,
        {
            if self.tables[j].name == *table && self.tables[j].has_column(column) {
                assert(self@.tables[j as int].name == table@ && self@.tables[j as int].has_column(
                    column@,
                ));
                return true;
            }
            j += 1;
        }
        false
    }

    /// Tells whether every foreign key of table `i` references the surrogate
    /// key of a table that is created no later than table `i` itself.
    fn references_resolve(&self, i: usize) -> (ok: bool)
        requires
            i < self.tables.len(),
        ensures
            ok == self@.references_resolve(i as int),
    {
        let table = &self.tables[i];
        let n: usize = table.foreign_keys.len();
        let mut k: usize = 0;
        while k < n
            invariant
                k <= n,
                i < self.tables.len(),
                *table == self.tables[i as int],
                n == table.foreign_keys.len(),
                forall|a: int|
                    0 <= a < k ==> self@.key_declared(
                        i + 1,
                        (#[trigger] self@.tables[i as int].foreign_keys[a]).ref_table,
                        self@.tables[i as int].foreign_keys[a].ref_column,
                    ),
            decreases n - k,
        {
            let key = &table.foreign_keys[k];
            assert(key@ == self@.tables[i as int].foreign_keys[k as int]);
            if !self.key_declared(i + 1, &key.ref_table, &key.ref_column) {
                return false;
            }
            k += 1;
        }
        true
    }

    /// Tells whether the names held are plain and no two objects share a name.
    pub fn is_consistent(&self) -> (ok: bool)
        ensures
            ok == self@.consistent(),
    {
        let tables: usize = self.tables.len();
        let indexes: usize = self.indexes.len();
        let mut i: usize = 0;
        while i < tables
            invariant
                i <= tables,
                tables == self.tables.len(),
                forall|a: int| 0 <= a < i ==> (#[trigger] self@.tables[a]).plainly_named(),
            decreases tables - i,
        {
            if !self.tables[i].is_plainly_named() {
                assert(!self@.tables[i as int].plainly_named());
                return false;
            }
            i += 1;
        }
        let mut x: usize = 0;
        while x < indexes
            invariant
                x <= indexes,
                indexes == self.indexes.len(),
                forall|a: int| 0 <= a < x ==> is_plain_name((#[trigger] self@.indexes[a]).name),
            decreases indexes - x,
        {
            if !plain_name(self.indexes[x].name.as_str()) {
                assert(!is_plain_name(self@.indexes[x as int].name));
                return false;
            }
            x += 1;
        }
        let names = self.object_names();
        all_distinct(&names)
    }

    /// Tells whether the schema is well formed.
    pub fn is_well_formed(&self) -> (ok: bool)
        ensures
            ok == self@.well_formed(),
    {
        let tables: usize = self.tables.len();
        let indexes: usize = self.indexes.len();
        let mut i: usize = 0;
        while i < tables
            invariant
                i <= tables,
                tables == self.tables.len(),
                forall|a: int| 0 <= a < i ==> (#[trigger] self@.tables[a]).well_formed(),
                forall|a: int| 0 <= a < i ==> #[trigger] self@.references_resolve(a),
            decreases tables - i,
        {
            if !self.tables[i].is_well_formed() {
                assert(!self@.tables[i as int].well_formed());
                return false;
            }
            if !self.references_resolve(i) {
                return false;
            }
            i += 1;
        }
        let names = self.object_names();
        if !all_distinct(&names) {
            return false;
        }
        let mut x: usize = 0;
        while x < indexes
            invariant
                x <= indexes,
                indexes == self.indexes.len(),
                forall|a: int| 0 <= a < x ==> is_plain_name((#[trigger] self@.indexes[a]).name),
                forall|a: int|
                    0 <= a < x ==> self@.column_declared(
                        (#[trigger] self@.indexes[a]).table,
                        self@.indexes[a].column,
                    ),
            decreases indexes - x,
        {
            let index = &self.indexes[x];
            assert(index@ == self@.indexes[x as int]);
            if !plain_name(index.name.as_str()) {
                return false;
            }
            if !self.column_declared(&index.table, &index.column) {
                return false;
            }
            x += 1;
        }
        true
    }

    /// Tells whether an index is declared on this column of this table.
    pub fn is_indexed(&self, table: &String, column: &String) -> (found: bool)
        ensures
            found == self@.is_indexed(table@, column@),
    {
        let indexes: usize = self.indexes.len();
        let mut x: usize = 0;
        while x < indexes
            invariant
                x <= indexes,
                indexes == self.indexes.len(),
                forall|a: int|
                    0 <= a < x ==> !((#[trigger] self@.indexes[a]).table == table@
                        && self@.indexes[a].column == column@),
            decreases indexes - x,
        {
            if self.indexes[x].table == *table && self.indexes[x].column == *column {
                assert(self@.indexes[x as int].table == table@ && self@.indexes[x as int].column
                    == column@);
                return true;
            }
            x += 1;
        }
        false
    }
}

} // verus!
