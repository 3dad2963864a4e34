//! The schema that a store holds, and what a batch of guarded statements
//! makes of it.
//!
//! Every statement of a batch creates its object unless the store holds an
//! object of that kind and name already; then it leaves the store as it is.
//!
//! This is a model, and it speaks of the passes that it admits and of no
//! others. A pass is admitted where the store is consistent, the batch is
//! that of a well-formed schema, no name of the batch is held by an object of
//! the other kind, and each index falls on a column of the table that the
//! store will hold. Outside of that the store may reject a statement, which
//! stops the start-up, or may compare names otherwise than character by
//! character. To be admitted is necessary for the store to take the batch; it
//! is not sufficient: a plain name may be a word that the store reserves.

use vstd::prelude::*;
use crate::names::{is_plain_name, plain_name};
use crate::schema::{Index, IndexView, Schema, SchemaView, Table, TableView};

verus! {

impl SchemaView {
    /// What a store holds before anything was created in it.
    pub open spec fn empty() -> SchemaView {
        SchemaView { tables: Seq::empty(), indexes: Seq::empty() }
    }

    /// The store holds a table of this name.
    pub open spec fn has_table(self, name: Seq<char>) -> bool {
        self.table_names().contains(name)
    }

    /// The store holds an index of this name.
    pub open spec fn has_index(self, name: Seq<char>) -> bool {
        self.index_names().contains(name)
    }

    /// The model speaks of this statement on this store: the store is
    /// consistent, the table is well formed, and no index is named like it.
    pub open spec fn admits_table(self, t: TableView) -> bool {
        &&& self.consistent()
        &&& t.well_formed()
        &&& !self.has_index(t.name)
    }

    /// The model speaks of this statement on this store: the store is
    /// consistent, the name is plain, no table is named like the index, the
    /// store holds the table, and either it holds the index already or the
    /// index falls on a column of that table.
    pub open spec fn admits_index(self, i: IndexView) -> bool {
        &&& self.consistent()
        &&& is_plain_name(i.name)
        &&& !self.has_table(i.name)
        &&& self.has_table(i.table)
        &&& (self.has_index(i.name) || self.column_declared(i.table, i.column))
    }

    /// The model speaks of the statements that create the tables of `batch`.
    pub open spec fn admits_tables(self, batch: SchemaView) -> bool {
        &&& self.consistent()
        &&& batch.well_formed()
        &&& forall|i: int|
            0 <= i < batch.tables.len() ==> !self.has_index((#[trigger] batch.tables[i]).name)
    }

    /// The store holds index `x` of `batch` already, or the index falls on a
    /// column of the table that the store holds once the tables are created.
    pub open spec fn index_lands(self, batch: SchemaView, x: int) -> bool {
        self.has_index(batch.indexes[x].name) || self.create_tables(
            batch.tables,
            batch.tables.len() as int,
        ).column_declared(batch.indexes[x].table, batch.indexes[x].column)
    }

    /// The model speaks of one pass of the batch of `batch` on this store.
    pub open spec fn admits(self, batch: SchemaView) -> bool {
        &&& self.admits_tables(batch)
        &&& forall|x: int|
            0 <= x < batch.indexes.len() ==> !self.has_table((#[trigger] batch.indexes[x]).name)
        &&& forall|x: int| 0 <= x < batch.indexes.len() ==> #[trigger] self.index_lands(batch, x)
    }

    /// The store after `CREATE TABLE IF NOT EXISTS`.
    pub open spec fn create_table(self, t: TableView) -> SchemaView {
        if self.has_table(t.name) {
            self
        } else {
            SchemaView { tables: self.tables.push(t), indexes: self.indexes }
        }
    }

    /// The store after `CREATE INDEX IF NOT EXISTS`.
    pub open spec fn create_index(self, i: IndexView) -> SchemaView {
        if self.has_index(i.name) {
            self
        } else {
            SchemaView { tables: self.tables, indexes: self.indexes.push(i) }
        }
    }

    /// The store after the statements of the first `n` tables, in order.
    pub open spec fn create_tables(self, tables: Seq<TableView>, n: int) -> SchemaView
        decreases n,
    {
        if n <= 0 {
            self
        } else {
            self.create_tables(tables, n - 1).create_table(tables[n - 1])
        }
    }

    /// The store after the statements of the first `n` indexes, in order.
    pub open spec fn create_indexes(self, indexes: Seq<IndexView>, n: int) -> SchemaView
        decreases n,
    {
        if n <= 0 {
            self
        } else {
            self.create_indexes(indexes, n - 1).create_index(indexes[n - 1])
        }
    }

    /// The store after one pass of the batch of `batch`: every table in
    /// order, then every index in order.
    pub open spec fn apply(self, batch: SchemaView) -> SchemaView {
        self.create_tables(batch.tables, batch.tables.len() as int).create_indexes(
            batch.indexes,
            batch.indexes.len() as int,
        )
    }
}

impl Schema {
    /// What a store holds before anything was created in it.
    pub fn new() -> (s: Schema)
        ensures
            s@ == SchemaView::empty(),
    {
        let s = Schema { tables: Vec::new(), indexes: Vec::new() };
        assert(s@.tables =~= SchemaView::empty().tables);
        assert(s@.indexes =~= SchemaView::empty().indexes);
        s
    }

    /// Tells whether the store holds a table of this name.
    pub fn has_table(&self, name: &String) -> (found: bool)
        ensures
            found == self@.has_table(name@),
    {
        let n: usize = self.tables.len();
        let mut i: usize = 0;
        while i < n
            invariant
                i <= n,
                n == self.tables.len(),
                forall|a: int| 0 <= a < i ==> self@.table_names()[a] != name@,
            decreases n - i,
        {
            if self.tables[i].name == *name {
                assert(self@.table_names()[i as int] == name@);
                return true;
            }
            i += 1;
        }
        false
    }

    /// Tells whether the store holds an index of this name.
    pub fn has_index(&self, name: &String) -> (found: bool)
        ensures
            found == self@.has_index(name@),
    {
        let n: usize = self.indexes.len();
        let mut i: usize = 0;
        while i < n
            invariant
                i <= n,
                n == self.indexes.len(),
                forall|a: int| 0 <= a < i ==> self@.index_names()[a] != name@,
            decreases n - i,
        {
            if self.indexes[i].name == *name {
                assert(self@.index_names()[i as int] == name@);
                return true;
            }
            i += 1;
        }
        false
    }

    /// Tells whether the model speaks of creating this table on this store.
    pub fn admits_table(&self, t: &Table) -> (ok: bool)
        ensures
            ok == self@.admits_table(t@),
    {
        self.is_consistent() && t.is_well_formed() && !self.has_index(&t.name)
    }

    /// Tells whether the model speaks of creating this index on this store.
    pub fn admits_index(&self, i: &Index) -> (ok: bool)
        ensures
            ok == self@.admits_index(i@),
    {
        self.is_consistent() && plain_name(i.name.as_str()) && !self.has_table(&i.name)
            && self.has_table(&i.table) && (self.has_index(&i.name) || self.column_declared(
            &i.table,
            &i.column,
        ))
    }

    /// Tells whether the model speaks of creating the tables of `batch`.
    fn admits_tables(&self, batch: &Schema) -> (ok: bool)
        ensures
            ok == self@.admits_tables(batch@),
    {
        if !self.is_consistent() || !batch.is_well_formed() {
            return false;
        }
        let tables: usize = batch.tables.len();
        let mut i: usize = 0;
        while i < tables
            invariant
                i <= tables,
                tables == batch.tables.len(),
                forall|a: int| 0 <= a < i ==> !self@.has_index((#[trigger] batch@.tables[a]).name),
            decreases tables - i,
        {
            if self.has_index(&batch.tables[i].name) {
                assert(self@.has_index(batch@.tables[i as int].name));
                return false;
            }
            i += 1;
        }
        true
    }

    /// Tells whether the model speaks of one pass of the batch of `batch` on
    /// this store.
    pub fn admits(&self, batch: &Schema) -> (ok: bool)
        ensures
            ok == self@.admits(batch@),
    {
        if !self.admits_tables(batch) {
            return false;
        }
        let indexes: usize = batch.indexes.len();
        let mut after = self.clone();
        after.create_tables(batch);
        let mut x: usize = 0;
        while x < indexes
            invariant
                x <= indexes,
                indexes == batch.indexes.len(),
                after@ == self@.create_tables(batch@.tables, batch@.tables.len() as int),
                forall|a: int|
                    0 <= a < x ==> !self@.has_table((#[trigger] batch@.indexes[a]).name),
                forall|a: int| 0 <= a < x ==> #[trigger] self@.index_lands(batch@, a),
            decreases indexes - x,
        {
            let index = &batch.indexes[x];
            assert(index@ == batch@.indexes[x as int]);
            if self.has_table(&index.name) {
                return false;
            }
            if !self.has_index(&index.name) && !after.column_declared(&index.table, &index.column) {
                assert(!self@.index_lands(batch@, x as int));
                return false;
            }
            assert(self@.index_lands(batch@, x as int));
            x += 1;
        }
        true
    }

    /// Creates a table unless the store holds one of that name.
    pub fn create_table(&mut self, t: &Table)
        requires
            old(self)@.admits_table(t@),
        ensures
            final(self)@ == old(self)@.create_table(t@),
            final(self)@.consistent(),
    {
        proof {
            lemma_create_table_consistent(self@, t@);
        }
        if !self.has_table(&t.name) {
            self.tables.push(t.clone());
            assert(self@.tables =~= old(self)@.tables.push(t@));
        }
    }

    /// Creates an index unless the store holds one of that name.
    pub fn create_index(&mut self, i: &Index)
        requires
            old(self)@.admits_index(i@),
        ensures
            final(self)@ == old(self)@.create_index(i@),
            final(self)@.consistent(),
    {
        proof {
            lemma_create_index_consistent(self@, i@);
        }
        if !self.has_index(&i.name) {
            self.indexes.push(i.clone());
            assert(self@.indexes =~= old(self)@.indexes.push(i@));
        }
    }

    /// Creates the tables of `batch`, in order.
    fn create_tables(&mut self, batch: &Schema)
        requires
            old(self)@.admits_tables(batch@),
        ensures
            final(self)@ == old(self)@.create_tables(batch@.tables, batch@.tables.len() as int),
    {
        let tables: usize = batch.tables.len();
        let mut i: usize = 0;
        while i < tables
            invariant
                i <= tables,
                tables == batch.tables.len(),
                old(self)@.admits_tables(batch@),
                self@ == old(self)@.create_tables(batch@.tables, i as int),
            decreases tables - i,
        {
            proof {
                lemma_table_admitted(old(self)@, batch@, i as int);
                assert(batch@.tables[i as int] == batch.tables[i as int]@);
            }
            self.create_table(&batch.tables[i]);
            i += 1;
        }
    }

    /// Runs one pass of the batch of `batch` on what the store holds. The
    /// store is consistent afterwards, and a further pass is admitted.
    pub fn apply(&mut self, batch: &Schema)
        requires
            old(self)@.admits(batch@),
        ensures
            final(self)@ == old(self)@.apply(batch@),
            final(self)@.consistent(),
            final(self)@.admits(batch@),
    {
        let indexes: usize = batch.indexes.len();
        self.create_tables(batch);
        let ghost created = self@;
        let mut x: usize = 0;
        while x < indexes
            invariant
                x <= indexes,
                indexes == batch.indexes.len(),
                old(self)@.admits(batch@),
                created == old(self)@.create_tables(batch@.tables, batch@.tables.len() as int),
                self@ == created.create_indexes(batch@.indexes, x as int),
            decreases indexes - x,
        {
            proof {
                lemma_index_admitted(old(self)@, batch@, x as int);
                assert(batch@.indexes[x as int] == batch.indexes[x as int]@);
            }
            self.create_index(&batch.indexes[x]);
            x += 1;
        }
        proof {
            lemma_apply_admitted(old(self)@, batch@);
        }
    }

    /// Runs one pass of the batch of `batch` where the model speaks of it,
    /// and leaves the store as it is where it does not.
    pub fn try_apply(&mut self, batch: &Schema) -> (done: bool)
        ensures
            done == old(self)@.admits(batch@),
            done ==> final(self)@ == old(self)@.apply(batch@),
            !done ==> final(self)@ == old(self)@,
    {
        if self.admits(batch) {
            self.apply(batch);
            true
        } else {
            false
        }
    }
}

/// Creating tables keeps every table that the store held, in its place,
/// leaves the indexes alone, and leaves the store with a table of each name.
proof fn lemma_create_tables(store: SchemaView, tables: Seq<TableView>, n: int)
    requires
        0 <= n <= tables.len(),
    ensures
        store.create_tables(tables, n).indexes == store.indexes,
        store.tables.is_prefix_of(store.create_tables(tables, n).tables),
        forall|k: int| 0 <= k < n ==> store.create_tables(tables, n).has_table(tables[k].name),
    decreases n,
{
    if n > 0 {
        lemma_create_tables(store, tables, n - 1);
        let before = store.create_tables(tables, n - 1);
        let after = before.create_table(tables[n - 1]);
        assert(before.tables.is_prefix_of(after.tables));
        assert forall|k: int| 0 <= k < n implies after.has_table(tables[k].name) by {
            if k < n - 1 {
                let at = choose|a: int|
                    0 <= a < before.table_names().len() && before.table_names()[a]
                        == tables[k].name;
                assert(after.table_names()[at] == tables[k].name);
            } else if !before.has_table(tables[k].name) {
                assert(after.table_names()[before.tables.len() as int] == tables[k].name);
            }
        }
    }
}

/// Creating indexes keeps every index that the store held, in its place,
/// leaves the tables alone, and leaves the store with an index of each name.
proof fn lemma_create_indexes(store: SchemaView, indexes: Seq<IndexView>, n: int)
    requires
        0 <= n <= indexes.len(),
    ensures
        store.create_indexes(indexes, n).tables == store.tables,
        store.indexes.is_prefix_of(store.create_indexes(indexes, n).indexes),
        forall|k: int|
            0 <= k < n ==> store.create_indexes(indexes, n).has_index(indexes[k].name),
    decreases n,
{
    if n > 0 {
        lemma_create_indexes(store, indexes, n - 1);
        let before = store.create_indexes(indexes, n - 1);
        let after = before.create_index(indexes[n - 1]);
        assert(before.indexes.is_prefix_of(after.indexes));
        assert forall|k: int| 0 <= k < n implies after.has_index(indexes[k].name) by {
            if k < n - 1 {
                let at = choose|a: int|
                    0 <= a < before.index_names().len() && before.index_names()[a]
                        == indexes[k].name;
                assert(after.index_names()[at] == indexes[k].name);
            } else if !before.has_index(indexes[k].name) {
                assert(after.index_names()[before.indexes.len() as int] == indexes[k].name);
            }
        }
    }
}

/// Where the store holds a table of each name, creating them changes nothing.
proof fn lemma_tables_present(store: SchemaView, tables: Seq<TableView>, n: int)
    requires
        0 <= n <= tables.len(),
        forall|k: int| 0 <= k < n ==> store.has_table(tables[k].name),
    ensures
        store.create_tables(tables, n) == store,
    decreases n,
{
    if n > 0 {
        lemma_tables_present(store, tables, n - 1);
    }
}

/// Where the store holds an index of each name, creating them changes nothing.
proof fn lemma_indexes_present(store: SchemaView, indexes: Seq<IndexView>, n: int)
    requires
        0 <= n <= indexes.len(),
        forall|k: int| 0 <= k < n ==> store.has_index(indexes[k].name),
    ensures
        store.create_indexes(indexes, n) == store,
    decreases n,
{
    if n > 0 {
        lemma_indexes_present(store, indexes, n - 1);
    }
}

/// A table that the store lacks is named like one of those just created.
proof fn lemma_created_tables(store: SchemaView, tables: Seq<TableView>, n: int, name: Seq<char>)
    requires
        0 <= n <= tables.len(),
        store.create_tables(tables, n).has_table(name),
    ensures
        store.has_table(name) || exists|k: int| 0 <= k < n && (#[trigger] tables[k]).name == name,
    decreases n,
{
    if n > 0 {
        let before = store.create_tables(tables, n - 1);
        let after = before.create_table(tables[n - 1]);
        if before.has_table(name) {
            lemma_created_tables(store, tables, n - 1, name);
        } else {
            let at = choose|a: int|
                0 <= a < after.table_names().len() && after.table_names()[a] == name;
            if at < before.tables.len() {
                assert(before.table_names()[at] == name);
            }
            assert(tables[n - 1].name == name);
        }
    }
}

/// An index that the store lacks is named like one of those just created.
proof fn lemma_created_indexes(
    store: SchemaView,
    indexes: Seq<IndexView>,
    n: int,
    name: Seq<char>,
)
    requires
        0 <= n <= indexes.len(),
        store.create_indexes(indexes, n).has_index(name),
    ensures
        store.has_index(name) || exists|k: int| 0 <= k < n && (#[trigger] indexes[k]).name == name,
    decreases n,
{
    if n > 0 {
        let before = store.create_indexes(indexes, n - 1);
        let after = before.create_index(indexes[n - 1]);
        if before.has_index(name) {
            lemma_created_indexes(store, indexes, n - 1, name);
        } else {
            let at = choose|a: int|
                0 <= a < after.index_names().len() && after.index_names()[a] == name;
            if at < before.indexes.len() {
                assert(before.index_names()[at] == name);
            }
            assert(indexes[n - 1].name == name);
        }
    }
}

/// An admitted statement of a table leaves the store consistent.
proof fn lemma_create_table_consistent(store: SchemaView, t: TableView)
    requires
        store.admits_table(t),
    ensures
        store.create_table(t).consistent(),
{
    if !store.has_table(t.name) {
        let after = store.create_table(t);
        let tables = store.tables.len() as int;
        let old_names = store.object_names();
        let names = after.object_names();
        assert forall|i: int| 0 <= i < after.tables.len() implies (
        #[trigger] after.tables[i]).plainly_named() by {
            if i == tables {
                assert forall|c: int| 0 <= c < t.columns.len() implies is_plain_name(
                    (#[trigger] t.columns[c]).name,
                ) by {
                    assert(t.columns[c].well_formed());
                }
            } else {
                assert(store.tables[i].plainly_named());
            }
        }
        assert forall|x: int| 0 <= x < after.indexes.len() implies is_plain_name(
            (#[trigger] after.indexes[x]).name,
        ) by {
            assert(is_plain_name(store.indexes[x].name));
        }
        assert forall|a: int, b: int|
            0 <= a < names.len() && 0 <= b < names.len() && a != b implies names[a]
            != names[b] by {
            let a0 = if a < tables { a } else { a - 1 };
            let b0 = if b < tables { b } else { b - 1 };
            if a != tables {
                assert(names[a] == old_names[a0]);
            }
            if b != tables {
                assert(names[b] == old_names[b0]);
            }
            if a == tables || b == tables {
                let other = if a == tables { b0 } else { a0 };
                if other < tables {
                    assert(store.table_names()[other] == old_names[other]);
                } else {
                    assert(store.index_names()[other - tables] == old_names[other]);
                }
            }
        }
    }
}

/// An admitted statement of an index leaves the store consistent.
proof fn lemma_create_index_consistent(store: SchemaView, i: IndexView)
    requires
        store.admits_index(i),
    ensures
        store.create_index(i).consistent(),
{
    if !store.has_index(i.name) {
        let after = store.create_index(i);
        let tables = store.tables.len() as int;
        let held = store.object_names().len() as int;
        let old_names = store.object_names();
        let names = after.object_names();
        assert forall|a: int| 0 <= a < after.tables.len() implies (
        #[trigger] after.tables[a]).plainly_named() by {
            assert(store.tables[a].plainly_named());
        }
        assert forall|x: int| 0 <= x < after.indexes.len() implies is_plain_name(
            (#[trigger] after.indexes[x]).name,
        ) by {
            if x < store.indexes.len() {
                assert(is_plain_name(store.indexes[x].name));
            }
        }
        assert forall|a: int, b: int|
            0 <= a < names.len() && 0 <= b < names.len() && a != b implies names[a]
            != names[b] by {
            if a != held {
                assert(names[a] == old_names[a]);
            }
            if b != held {
                assert(names[b] == old_names[b]);
            }
            if a == held || b == held {
                let other = if a == held { b } else { a };
                if other < tables {
                    assert(store.table_names()[other] == old_names[other]);
                } else {
                    assert(store.index_names()[other - tables] == old_names[other]);
                }
            }
        }
    }
}

/// In an admitted pass the store is consistent before each statement of a
/// table, and the statement is admitted.
proof fn lemma_table_admitted(store: SchemaView, batch: SchemaView, i: int)
    requires
        store.admits_tables(batch),
        0 <= i <= batch.tables.len(),
    ensures
        store.create_tables(batch.tables, i).consistent(),
        i < batch.tables.len() ==> store.create_tables(batch.tables, i).admits_table(
            batch.tables[i],
        ),
    decreases i,
{
    if i > 0 {
        lemma_table_admitted(store, batch, i - 1);
        lemma_create_table_consistent(
            store.create_tables(batch.tables, i - 1),
            batch.tables[i - 1],
        );
    }
    lemma_create_tables(store, batch.tables, i);
    if i < batch.tables.len() {
        assert(!store.has_index(batch.tables[i].name));
        assert(batch.tables[i].well_formed());
    }
}

/// In an admitted pass the store is consistent before each statement of an
/// index, and the statement is admitted.
proof fn lemma_index_admitted(store: SchemaView, batch: SchemaView, x: int)
    requires
        store.admits(batch),
        0 <= x <= batch.indexes.len(),
    ensures
        store.create_tables(batch.tables, batch.tables.len() as int).create_indexes(
            batch.indexes,
            x,
        ).consistent(),
        x < batch.indexes.len() ==> store.create_tables(
            batch.tables,
            batch.tables.len() as int,
        ).create_indexes(batch.indexes, x).admits_index(batch.indexes[x]),
    decreases x,
{
    let tables = batch.tables.len() as int;
    let created = store.create_tables(batch.tables, tables);
    let now = created.create_indexes(batch.indexes, x);
    if x > 0 {
        lemma_index_admitted(store, batch, x - 1);
        lemma_create_index_consistent(
            created.create_indexes(batch.indexes, x - 1),
            batch.indexes[x - 1],
        );
    } else {
        lemma_table_admitted(store, batch, tables);
    }
    lemma_create_tables(store, batch.tables, tables);
    lemma_create_indexes(created, batch.indexes, x);
    if x < batch.indexes.len() {
        let index = batch.indexes[x];
        assert(is_plain_name(index.name));
        assert(now.table_names() == created.table_names());
        assert(!now.has_table(index.name)) by {
            if created.has_table(index.name) {
                lemma_created_tables(store, batch.tables, tables, index.name);
                assert(!store.has_table(index.name));
                let k = choose|k: int| 0 <= k < tables && (#[trigger] batch.tables[k]).name
                    == index.name;
                assert(batch.object_names()[k] == batch.tables[k].name);
                assert(batch.object_names()[tables + x] == index.name);
            }
        }
        assert(now.has_table(index.table)) by {
            assert(batch.column_declared(index.table, index.column));
        }
        assert(store.index_lands(batch, x));
        if store.has_index(index.name) {
            let at = choose|a: int|
                0 <= a < store.index_names().len() && store.index_names()[a] == index.name;
            assert(now.index_names()[at] == index.name);
        } else {
            assert(created.column_declared(index.table, index.column));
            assert(now.tables == created.tables);
        }
    }
}

/// An admitted pass leaves the store consistent, and a further pass of the
/// same batch is admitted.
pub proof fn lemma_apply_admitted(store: SchemaView, batch: SchemaView)
    requires
        store.admits(batch),
    ensures
        store.apply(batch).consistent(),
        store.apply(batch).admits(batch),
{
    let tables = batch.tables.len() as int;
    let indexes = batch.indexes.len() as int;
    let created = store.create_tables(batch.tables, tables);
    let after = store.apply(batch);
    lemma_index_admitted(store, batch, indexes);
    lemma_create_tables(store, batch.tables, tables);
    lemma_create_indexes(created, batch.indexes, indexes);
    assert(after.table_names() == created.table_names());
    assert forall|i: int| 0 <= i < tables implies !after.has_index(
        (#[trigger] batch.tables[i]).name,
    ) by {
        let name = batch.tables[i].name;
        if after.has_index(name) {
            lemma_created_indexes(created, batch.indexes, indexes, name);
            assert(!store.has_index(name));
            let k = choose|k: int| 0 <= k < indexes && (#[trigger] batch.indexes[k]).name == name;
            assert(batch.object_names()[i] == name);
            assert(batch.object_names()[tables + k] == name);
        }
    }
    assert forall|x: int| 0 <= x < indexes implies !after.has_table(
        (#[trigger] batch.indexes[x]).name,
    ) by {
        let name = batch.indexes[x].name;
        if created.has_table(name) {
            lemma_created_tables(store, batch.tables, tables, name);
            assert(!store.has_table(name));
            let k = choose|k: int| 0 <= k < tables && (#[trigger] batch.tables[k]).name == name;
            assert(batch.object_names()[k] == name);
            assert(batch.object_names()[tables + x] == name);
        }
    }
    assert forall|x: int| 0 <= x < indexes implies #[trigger] after.index_lands(batch, x) by {
        assert(after.has_index(batch.indexes[x].name));
    }
}

/// A second pass of a batch is admitted where the first was, and changes
/// nothing: after the first pass the store holds an object of every name in
/// the batch, so every guard of the second pass finds its object.
pub proof fn lemma_apply_idempotent(store: SchemaView, batch: SchemaView)
    requires
        store.admits(batch),
    ensures
        store.apply(batch).admits(batch),
        store.apply(batch).apply(batch) == store.apply(batch),
{
    lemma_apply_admitted(store, batch);
    let tables = batch.tables.len() as int;
    let indexes = batch.indexes.len() as int;
    let created = store.create_tables(batch.tables, tables);
    let once = created.create_indexes(batch.indexes, indexes);
    lemma_create_tables(store, batch.tables, tables);
    lemma_create_indexes(created, batch.indexes, indexes);
    assert forall|k: int| 0 <= k < tables implies once.has_table(batch.tables[k].name) by {
        assert(created.has_table(batch.tables[k].name));
    }
    lemma_tables_present(once, batch.tables, tables);
    lemma_indexes_present(once, batch.indexes, indexes);
}

/// An admitted pass never replaces or removes what the store holds: every table and
/// every index that was there is there afterwards, unchanged and in its place.
pub proof fn lemma_apply_keeps(store: SchemaView, batch: SchemaView)
    requires
        store.admits(batch),
    ensures
        store.tables.is_prefix_of(store.apply(batch).tables),
        store.indexes.is_prefix_of(store.apply(batch).indexes),
{
    let tables = batch.tables.len() as int;
    let created = store.create_tables(batch.tables, tables);
    lemma_create_tables(store, batch.tables, tables);
    lemma_create_indexes(created, batch.indexes, batch.indexes.len() as int);
}

/// On an empty store, the first `n` tables of a batch whose tables differ in
/// name are all created, in order.
proof fn lemma_fresh_tables(tables: Seq<TableView>, n: int)
    requires
        0 <= n <= tables.len(),
        tables.map_values(|t: TableView| t.name).no_duplicates(),
    ensures
        SchemaView::empty().create_tables(tables, n) == (SchemaView {
            tables: tables.take(n),
            indexes: Seq::empty(),
        }),
    decreases n,
{
    if n > 0 {
        lemma_fresh_tables(tables, n - 1);
        let names = tables.map_values(|t: TableView| t.name);
        let before = SchemaView::empty().create_tables(tables, n - 1);
        assert(!before.has_table(tables[n - 1].name)) by {
            if before.has_table(tables[n - 1].name) {
                let at = choose|a: int|
                    0 <= a < before.table_names().len() && before.table_names()[a] == tables[n
                        - 1].name;
                assert(names[at] == names[n - 1]);
            }
        }
        assert(tables.take(n - 1).push(tables[n - 1]) =~= tables.take(n));
    } else {
        assert(tables.take(0) =~= Seq::<TableView>::empty());
    }
}

/// On a store without indexes, the first `n` indexes of a batch whose indexes
/// differ in name are all created, in order.
proof fn lemma_fresh_indexes(store: SchemaView, indexes: Seq<IndexView>, n: int)
    requires
        0 <= n <= indexes.len(),
        store.indexes.len() == 0,
        indexes.map_values(|i: IndexView| i.name).no_duplicates(),
    ensures
        store.create_indexes(indexes, n) == (SchemaView {
            tables: store.tables,
            indexes: indexes.take(n),
        }),
    decreases n,
{
    if n > 0 {
        lemma_fresh_indexes(store, indexes, n - 1);
        let names = indexes.map_values(|i: IndexView| i.name);
        let before = store.create_indexes(indexes, n - 1);
        assert(!before.has_index(indexes[n - 1].name)) by {
            if before.has_index(indexes[n - 1].name) {
                let at = choose|a: int|
                    0 <= a < before.index_names().len() && before.index_names()[a] == indexes[n
                        - 1].name;
                assert(names[at] == names[n - 1]);
            }
        }
        assert(indexes.take(n - 1).push(indexes[n - 1]) =~= indexes.take(n));
    } else {
        assert(indexes.take(0) =~= store.indexes);
    }
}

/// On an empty store, one pass of the batch of a well-formed schema is
/// admitted, and in the model it creates every object that the schema
/// declares, in order: afterwards the store holds the schema itself. This is
/// stated of the model. That the schema is well formed is necessary for the
/// store itself to take the batch, and not sufficient: a plain name may be a
/// word that the store reserves.
pub proof fn lemma_apply_fresh(batch: SchemaView)
    requires
        batch.well_formed(),
    ensures
        SchemaView::empty().admits(batch),
        SchemaView::empty().apply(batch) == batch,
{
    let tables = batch.tables.len() as int;
    let indexes = batch.indexes.len() as int;
    let names = batch.object_names();
    assert(batch.table_names().no_duplicates()) by {
        assert forall|a: int, b: int|
            0 <= a < tables && 0 <= b < tables && a != b implies batch.table_names()[a]
            != batch.table_names()[b] by {
            assert(names[a] == batch.table_names()[a]);
            assert(names[b] == batch.table_names()[b]);
        }
    }
    assert(batch.index_names().no_duplicates()) by {
        assert forall|a: int, b: int|
            0 <= a < indexes && 0 <= b < indexes && a != b implies batch.index_names()[a]
            != batch.index_names()[b] by {
            assert(names[tables + a] == batch.index_names()[a]);
            assert(names[tables + b] == batch.index_names()[b]);
        }
    }
    lemma_fresh_tables(batch.tables, tables);
    let created = SchemaView::empty().create_tables(batch.tables, tables);
    lemma_fresh_indexes(created, batch.indexes, indexes);
    assert(batch.tables.take(tables) =~= batch.tables);
    assert(batch.indexes.take(indexes) =~= batch.indexes);
    assert(SchemaView::empty().object_names() =~= Seq::<Seq<char>>::empty());
    assert forall|x: int| 0 <= x < indexes implies #[trigger] SchemaView::empty().index_lands(
        batch,
        x,
    ) by {
        assert(created.tables == batch.tables);
        assert(batch.column_declared(batch.indexes[x].table, batch.indexes[x].column));
    }
}

/// An admitted pass creates each table no earlier than the tables it
/// references: once the statement of table `i` has run, the store holds the
/// table that each foreign key of table `i` references.
pub proof fn lemma_referenced_table_held(store: SchemaView, batch: SchemaView, i: int, k: int)
    requires
        store.admits_tables(batch),
        0 <= i < batch.tables.len(),
        0 <= k < batch.tables[i].foreign_keys.len(),
    ensures
        store.create_tables(batch.tables, i + 1).has_table(
            batch.tables[i].foreign_keys[k].ref_table,
        ),
{
    lemma_create_tables(store, batch.tables, i + 1);
    assert(batch.references_resolve(i));
    let key = batch.tables[i].foreign_keys[k];
    assert(batch.key_declared(i + 1, key.ref_table, key.ref_column));
}

/// An admitted pass creates each index after the table it is on: once the
/// statements of the tables have run, the store holds the table of index `x`.
pub proof fn lemma_indexed_table_held(store: SchemaView, batch: SchemaView, x: int)
    requires
        store.admits_tables(batch),
        0 <= x < batch.indexes.len(),
    ensures
        store.create_tables(batch.tables, batch.tables.len() as int).has_table(
            batch.indexes[x].table,
        ),
{
    lemma_create_tables(store, batch.tables, batch.tables.len() as int);
    let index = batch.indexes[x];
    assert(batch.column_declared(index.table, index.column));
}

} // verus!
