//! The rows of a store that holds version 1, as far as its keys and its
//! foreign keys read them.
//!
//! A row is held here by its surrogate key and by what it references; the
//! texts of a row take no part in what the foreign keys decide. The store
//! deals out the keys itself, counting up from one and never giving a key a
//! second time. With its foreign keys enforced, the store rejects an entry
//! that references no category and a time entry that references no entry,
//! rejects the deletion of a category that an entry references, and deletes
//! the time entries of an entry together with it. Without enforcement it
//! takes and gives every row, and a reference may dangle.
//!
//! This is a model. It speaks of a store whose three tables are those of
//! version 1 as declared, and of rows that get their keys from the store:
//! every operation asks that the keys held are as the store deals them out,
//! and leaves them so.

use vstd::prelude::*;
use crate::initial::initial_schema_view;
use crate::schema::{ColumnType, ForeignKeyView, OnDelete};

verus! {

/// An entry: its key and the category it belongs to, if any.
#[derive(Clone, Copy, Debug, PartialEq, Eq)]
pub struct Entry {
    pub id: i64,
    pub category_id: Option<i64>,
}

/// A span of logged time: its key and the entry it is logged on.
#[derive(Clone, Copy, Debug, PartialEq, Eq)]
pub struct TimeEntry {
    pub id: i64,
    pub entry_id: i64,
}

/// The rows of the three tables in the order in which they were inserted,
/// the last key that each table has dealt out, and whether the store
/// enforces its foreign keys.
#[derive(Debug, PartialEq, Eq)]
pub struct Rows {
    pub foreign_keys: bool,
    pub categories: Vec<i64>,
    pub entries: Vec<Entry>,
    pub time_entries: Vec<TimeEntry>,
    pub last_category: i64,
    pub last_entry: i64,
    pub last_time_entry: i64,
}

/// The rows as contracts see them.
pub struct RowsView {
    pub foreign_keys: bool,
    pub categories: Seq<i64>,
    pub entries: Seq<Entry>,
    pub time_entries: Seq<TimeEntry>,
    pub last_category: i64,
    pub last_entry: i64,
    pub last_time_entry: i64,
}

impl View for Rows {
    type V = RowsView;

    open spec fn view(&self) -> RowsView {
        RowsView {
            foreign_keys: self.foreign_keys,
            categories: self.categories@,
            entries: self.entries@,
            time_entries: self.time_entries@,
            last_category: self.last_category,
            last_entry: self.last_entry,
            last_time_entry: self.last_time_entry,
        }
    }
}

/// The key of a category is the row itself.
pub open spec fn category_key() -> spec_fn(i64) -> i64 {
    |c: i64| c
}

/// The key of an entry.
pub open spec fn entry_key() -> spec_fn(Entry) -> i64 {
    |e: Entry| e.id
}

/// The key of a time entry.
pub open spec fn time_entry_key() -> spec_fn(TimeEntry) -> i64 {
    |t: TimeEntry| t.id
}

/// The keys of the rows are as the store deals them out: they count up along
/// the rows, from one at the least to `last` at the most.
pub open spec fn ascending<A>(rows: Seq<A>, key: spec_fn(A) -> i64, last: i64) -> bool {
    &&& 0 <= last
    &&& forall|i: int, j: int|
        0 <= i < j < rows.len() ==> key(#[trigger] rows[i]) < key(#[trigger] rows[j])
    &&& forall|i: int| 0 <= i < rows.len() ==> 1 <= key(#[trigger] rows[i]) <= last
}

/// The category is another than the one of this key.
pub open spec fn other_category(id: i64) -> spec_fn(i64) -> bool {
    |c: i64| c != id
}

/// The entry is another than the one of this key.
pub open spec fn other_entry(id: i64) -> spec_fn(Entry) -> bool {
    |e: Entry| e.id != id
}

/// The time entry is logged on another entry than the one of this key.
pub open spec fn logged_elsewhere(entry_id: i64) -> spec_fn(TimeEntry) -> bool {
    |t: TimeEntry| t.entry_id != entry_id
}

/// The categories but the one of this key.
pub open spec fn categories_without(rows: Seq<i64>, id: i64) -> Seq<i64> {
    rows.filter(other_category(id))
}

/// The entries but the one of this key.
pub open spec fn entries_without(rows: Seq<Entry>, id: i64) -> Seq<Entry> {
    rows.filter(other_entry(id))
}

/// The time entries but those logged on this entry.
pub open spec fn time_entries_off(rows: Seq<TimeEntry>, entry_id: i64) -> Seq<TimeEntry> {
    rows.filter(logged_elsewhere(entry_id))
}

impl RowsView {
    /// A store that holds no row and has dealt out no key.
    pub open spec fn empty(foreign_keys: bool) -> RowsView {
        RowsView {
            foreign_keys,
            categories: Seq::empty(),
            entries: Seq::empty(),
            time_entries: Seq::empty(),
            last_category: 0,
            last_entry: 0,
            last_time_entry: 0,
        }
    }

    /// The store holds a category of this key.
    pub open spec fn has_category(self, id: i64) -> bool {
        self.categories.contains(id)
    }

    /// The store holds an entry of this key.
    pub open spec fn has_entry(self, id: i64) -> bool {
        exists|i: int| 0 <= i < self.entries.len() && (#[trigger] self.entries[i]).id == id
    }

    /// An entry references the category of this key.
    pub open spec fn category_in_use(self, id: i64) -> bool {
        exists|i: int|
            0 <= i < self.entries.len() && (#[trigger] self.entries[i]).category_id == Some(id)
    }

    /// The keys of each table are as the store deals them out.
    pub open spec fn keyed(self) -> bool {
        &&& ascending(self.categories, category_key(), self.last_category)
        &&& ascending(self.entries, entry_key(), self.last_entry)
        &&& ascending(self.time_entries, time_entry_key(), self.last_time_entry)
    }

    /// No reference dangles: the category of every entry that has one is held,
    /// and so is the entry of every time entry.
    pub open spec fn intact(self) -> bool {
        &&& forall|i: int|
            0 <= i < self.entries.len() ==> match (#[trigger] self.entries[i]).category_id {
                Some(c) => self.has_category(c),
                None => true,
            }
        &&& forall|j: int|
            0 <= j < self.time_entries.len() ==> self.has_entry(
                (#[trigger] self.time_entries[j]).entry_id,
            )
    }

    /// The store takes a new category: the table has a key left.
    pub open spec fn takes_category(self) -> bool {
        self.last_category < i64::MAX
    }

    /// The store after it took a category.
    pub open spec fn with_category(self) -> RowsView {
        let id = (self.last_category + 1) as i64;
        RowsView { categories: self.categories.push(id), last_category: id, ..self }
    }

    /// The store takes a new entry: the table has a key left and, under
    /// enforcement, the category it references is held.
    pub open spec fn takes_entry(self, category_id: Option<i64>) -> bool {
        &&& self.last_entry < i64::MAX
        &&& self.foreign_keys ==> match category_id {
            Some(c) => self.has_category(c),
            None => true,
        }
    }

    /// The store after it took an entry.
    pub open spec fn with_entry(self, category_id: Option<i64>) -> RowsView {
        let id = (self.last_entry + 1) as i64;
        RowsView { entries: self.entries.push(Entry { id, category_id }), last_entry: id, ..self }
    }

    /// The store takes a new time entry: the table has a key left and, under
    /// enforcement, the entry it references is held.
    pub open spec fn takes_time_entry(self, entry_id: i64) -> bool {
        &&& self.last_time_entry < i64::MAX
        &&& self.foreign_keys ==> self.has_entry(entry_id)
    }

    /// The store after it took a time entry.
    pub open spec fn with_time_entry(self, entry_id: i64) -> RowsView {
        let id = (self.last_time_entry + 1) as i64;
        RowsView {
            time_entries: self.time_entries.push(TimeEntry { id, entry_id }),
            last_time_entry: id,
            ..self
        }
    }

    /// The store gives up the category of this key: under enforcement, no
    /// entry references it.
    pub open spec fn gives_category(self, id: i64) -> bool {
        !(self.foreign_keys && self.category_in_use(id))
    }

    /// The store after it gave up a category: the entries are as they were.
    pub open spec fn without_category(self, id: i64) -> RowsView {
        RowsView { categories: categories_without(self.categories, id), ..self }
    }

    /// The store after it gave up an entry: under enforcement the time
    /// entries of an entry that was held go with it, and no other row does.
    pub open spec fn without_entry(self, id: i64) -> RowsView {
        RowsView {
            entries: entries_without(self.entries, id),
            time_entries: if self.foreign_keys && self.has_entry(id) {
                time_entries_off(self.time_entries, id)
            } else {
                self.time_entries
            },
            ..self
        }
    }
}

impl Rows {
    /// A store that holds no row and has dealt out no key.
    pub fn new(foreign_keys: bool) -> (rows: Rows)
        ensures
            rows@ == RowsView::empty(foreign_keys),
            rows@.keyed(),
            rows@.intact(),
    {
        Rows {
            foreign_keys,
            categories: Vec::new(),
            entries: Vec::new(),
            time_entries: Vec::new(),
            last_category: 0,
            last_entry: 0,
            last_time_entry: 0,
        }
    }

    /// Tells whether the store holds a category of this key.
    pub fn has_category(&self, id: i64) -> (found: bool)
        ensures
            found == self@.has_category(id),
    {
        let n: usize = self.categories.len();
        let mut i: usize = 0;
        while i < n
            invariant
                i <= n,
                n == self.categories.len(),
                forall|a: int| 0 <= a < i ==> self.categories@[a] != id,
            decreases n - i,
        {
            if self.categories[i] == id {
                return true;
            }
            i += 1;
        }
        false
    }

    /// Tells whether the store holds an entry of this key.
    pub fn has_entry(&self, id: i64) -> (found: bool)
        ensures
            found == self@.has_entry(id),
    {
        let n: usize = self.entries.len();
        let mut i: usize = 0;
        while i < n
            invariant
                i <= n,
                n == self.entries.len(),
                forall|a: int| 0 <= a < i ==> (#[trigger] self.entries@[a]).id != id,
            decreases n - i,
        {
            if self.entries[i].id == id {
                return true;
            }
            i += 1;
        }
        false
    }

    /// Tells whether an entry references the category of this key.
    pub fn category_in_use(&self, id: i64) -> (found: bool)
        ensures
            found == self@.category_in_use(id),
    {
        let n: usize = self.entries.len();
        let mut i: usize = 0;
        while i < n
            invariant
                i <= n,
                n == self.entries.len(),
                forall|a: int| 0 <= a < i ==> (#[trigger] self.entries@[a]).category_id != Some(id),
            decreases n - i,
        {
            match self.entries[i].category_id {
                Some(c) => {
                    if c == id {
                        return true;
                    }
                },
                None => {},
            }
            i += 1;
        }
        false
    }

    /// Tells whether the keys of each table are as the store deals them out.
    pub fn is_keyed(&self) -> (ok: bool)
        ensures
            ok == self@.keyed(),
    {
        let mut entries: Vec<i64> = Vec::new();
        let mut i: usize = 0;
        while i < self.entries.len()
            invariant
                i <= self.entries.len(),
                entries.len() == i,
                forall|a: int| 0 <= a < i ==> entries[a] == (#[trigger] self.entries[a]).id,
            decreases self.entries.len() - i,
        {
            entries.push(self.entries[i].id);
            i += 1;
        }
        let mut time_entries: Vec<i64> = Vec::new();
        let mut j: usize = 0;
        while j < self.time_entries.len()
            invariant
                j <= self.time_entries.len(),
                time_entries.len() == j,
                forall|a: int|
                    0 <= a < j ==> time_entries[a] == (#[trigger] self.time_entries[a]).id,
            decreases self.time_entries.len() - j,
        {
            time_entries.push(self.time_entries[j].id);
            j += 1;
        }
        proof {
            lemma_keys(self.entries@, entry_key(), entries@, self.last_entry);
            lemma_keys(
                self.time_entries@,
                time_entry_key(),
                time_entries@,
                self.last_time_entry,
            );
        }
        keys_ascend(&self.categories, self.last_category) && keys_ascend(
            &entries,
            self.last_entry,
        ) && keys_ascend(&time_entries, self.last_time_entry)
    }

    /// Tells whether no reference dangles.
    pub fn is_intact(&self) -> (ok: bool)
        ensures
            ok == self@.intact(),
    {
        let entries: usize = self.entries.len();
        let mut i: usize = 0;
        while i < entries
            invariant
                i <= entries,
                entries == self.entries.len(),
                forall|a: int|
                    0 <= a < i ==> match (#[trigger] self@.entries[a]).category_id {
                        Some(c) => self@.has_category(c),
                        None => true,
                    },
            decreases entries - i,
        {
            match self.entries[i].category_id {
                Some(c) => {
                    if !self.has_category(c) {
                        assert(self@.entries[i as int].category_id == Some(c));
                        return false;
                    }
                },
                None => {},
            }
            i += 1;
        }
        let time_entries: usize = self.time_entries.len();
        let mut j: usize = 0;
        while j < time_entries
            invariant
                j <= time_entries,
                time_entries == self.time_entries.len(),
                forall|a: int|
                    0 <= a < j ==> self@.has_entry((#[trigger] self@.time_entries[a]).entry_id),
            decreases time_entries - j,
        {
            if !self.has_entry(self.time_entries[j].entry_id) {
                assert(!self@.has_entry(self@.time_entries[j as int].entry_id));
                return false;
            }
            j += 1;
        }
        true
    }

    /// Inserts a category and returns the key that the store gave it, or
    /// leaves the store as it is where the table has no key left.
    pub fn insert_category(&mut self) -> (key: Option<i64>)
        requires
            old(self)@.keyed(),
        ensures
            old(self)@.takes_category() ==> final(self)@ == old(self)@.with_category() && key
                == Some(final(self)@.last_category),
            !old(self)@.takes_category() ==> final(self)@ == old(self)@ && key is None,
            key matches Some(id) ==> final(self)@.has_category(id),
            final(self)@.keyed(),
            old(self)@.intact() ==> final(self)@.intact(),
    {
        if self.last_category == i64::MAX {
            return None;
        }
        proof {
            lemma_with_category(self@);
        }
        let id: i64 = self.last_category + 1;
        self.categories.push(id);
        self.last_category = id;
        Some(id)
    }

    /// Inserts an entry and returns the key that the store gave it, or leaves
    /// the store as it is where it rejects the entry.
    pub fn insert_entry(&mut self, category_id: Option<i64>) -> (key: Option<i64>)
        requires
            old(self)@.keyed(),
        ensures
            old(self)@.takes_entry(category_id) ==> final(self)@ == old(self)@.with_entry(
                category_id,
            ) && key == Some(final(self)@.last_entry),
            !old(self)@.takes_entry(category_id) ==> final(self)@ == old(self)@ && key is None,
            key matches Some(id) ==> final(self)@.has_entry(id),
            final(self)@.keyed(),
            old(self)@.foreign_keys && old(self)@.intact() ==> final(self)@.intact(),
    {
        if self.last_entry == i64::MAX {
            return None;
        }
        if self.foreign_keys {
            match category_id {
                Some(c) => {
                    if !self.has_category(c) {
                        return None;
                    }
                },
                None => {},
            }
        }
        proof {
            lemma_with_entry(self@, category_id);
        }
        let id: i64 = self.last_entry + 1;
        self.entries.push(Entry { id, category_id });
        self.last_entry = id;
        Some(id)
    }

    /// Inserts a time entry and returns the key that the store gave it, or
    /// leaves the store as it is where it rejects the time entry.
    pub fn insert_time_entry(&mut self, entry_id: i64) -> (key: Option<i64>)
        requires
            old(self)@.keyed(),
        ensures
            old(self)@.takes_time_entry(entry_id) ==> final(self)@ == old(self)@.with_time_entry(
                entry_id,
            ) && key == Some(final(self)@.last_time_entry),
            !old(self)@.takes_time_entry(entry_id) ==> final(self)@ == old(self)@ && key is None,
            final(self)@.keyed(),
            old(self)@.foreign_keys && old(self)@.intact() ==> final(self)@.intact(),
    {
        if self.last_time_entry == i64::MAX {
            return None;
        }
        if self.foreign_keys && !self.has_entry(entry_id) {
            return None;
        }
        proof {
            lemma_with_time_entry(self@, entry_id);
        }
        let id: i64 = self.last_time_entry + 1;
        self.time_entries.push(TimeEntry { id, entry_id });
        self.last_time_entry = id;
        Some(id)
    }

    /// Deletes the category of this key, or leaves the store as it is where
    /// it rejects the deletion. The entries are never touched.
    pub fn delete_category(&mut self, id: i64) -> (done: bool)
        requires
            old(self)@.keyed(),
        ensures
            done == old(self)@.gives_category(id),
            done ==> final(self)@ == old(self)@.without_category(id),
            done ==> !final(self)@.has_category(id),
            !done ==> final(self)@ == old(self)@,
            final(self)@.entries == old(self)@.entries,
            final(self)@.time_entries == old(self)@.time_entries,
            final(self)@.keyed(),
            old(self)@.foreign_keys && old(self)@.intact() ==> final(self)@.intact(),
    {
        if self.foreign_keys && self.category_in_use(id) {
            return false;
        }
        proof {
            lemma_without_category(self@, id);
        }
        let kept = drop_category(&self.categories, id);
        self.categories = kept;
        true
    }

    /// Deletes the entry of this key. Under enforcement the time entries
    /// logged on it are deleted with it, and no other row is.
    pub fn delete_entry(&mut self, id: i64)
        requires
            old(self)@.keyed(),
        ensures
            final(self)@ == old(self)@.without_entry(id),
            final(self)@.categories == old(self)@.categories,
            !final(self)@.has_entry(id),
            old(self)@.foreign_keys && old(self)@.has_entry(id) ==> forall|j: int|
                0 <= j < final(self)@.time_entries.len() ==> (
                #[trigger] final(self)@.time_entries[j]).entry_id != id,
            forall|j: int|
                0 <= j < old(self)@.time_entries.len() && old(self)@.time_entries[j].entry_id != id
                    ==> final(self)@.time_entries.contains(#[trigger] old(self)@.time_entries[j]),
            forall|j: int|
                0 <= j < final(self)@.time_entries.len() ==> old(self)@.time_entries.contains(
                    #[trigger] final(self)@.time_entries[j],
                ),
            forall|i: int|
                0 <= i < old(self)@.entries.len() && old(self)@.entries[i].id != id
                    ==> final(self)@.entries.contains(#[trigger] old(self)@.entries[i]),
            final(self)@.keyed(),
            old(self)@.foreign_keys && old(self)@.intact() ==> final(self)@.intact(),
    {
        proof {
            lemma_without_entry(self@, id);
        }
        if self.foreign_keys && self.has_entry(id) {
            let kept = drop_time_entries(&self.time_entries, id);
            self.time_entries = kept;
        }
        let kept = drop_entry(&self.entries, id);
        self.entries = kept;
    }
}

/// Tells whether keys count up, from one at the least to `last` at the most.
fn keys_ascend(keys: &Vec<i64>, last: i64) -> (ok: bool)
    ensures
        ok == ascending(keys@, category_key(), last),
{
    if last < 0 {
        return false;
    }
    let n: usize = keys.len();
    if n == 0 {
        return true;
    }
    if keys[0] < 1 {
        return false;
    }
    let mut i: usize = 1;
    while i < n
        invariant
            1 <= i <= n,
            n == keys.len(),
            1 <= keys[0],
            forall|a: int, b: int| 0 <= a < b < i ==> keys[a] < keys[b],
        decreases n - i,
    {
        if keys[i - 1] >= keys[i] {
            return false;
        }
        i += 1;
    }
    if keys[n - 1] > last {
        return false;
    }
    assert forall|a: int| 0 <= a < n implies 1 <= #[trigger] keys[a] <= last by {
        if 0 < a {
            assert(keys[0] < keys[a]);
        }
        if a < n - 1 {
            assert(keys[a] < keys[n - 1]);
        }
    }
    true
}

/// Rows count up by their keys exactly when their keys count up.
proof fn lemma_keys<A>(rows: Seq<A>, key: spec_fn(A) -> i64, keys: Seq<i64>, last: i64)
    requires
        keys.len() == rows.len(),
        forall|i: int| 0 <= i < rows.len() ==> keys[i] == key(#[trigger] rows[i]),
    ensures
        ascending(rows, key, last) == ascending(keys, category_key(), last),
{
    if ascending(rows, key, last) {
        assert forall|i: int, j: int| 0 <= i < j < keys.len() implies #[trigger] keys[i]
            < #[trigger] keys[j] by {
            assert(key(rows[i]) < key(rows[j]));
        }
        assert forall|i: int| 0 <= i < keys.len() implies 1 <= #[trigger] keys[i] <= last by {
            assert(1 <= key(rows[i]) <= last);
        }
    }
    if ascending(keys, category_key(), last) {
        assert forall|i: int, j: int| 0 <= i < j < rows.len() implies key(#[trigger] rows[i])
            < key(#[trigger] rows[j]) by {
            assert(keys[i] < keys[j]);
        }
        assert forall|i: int| 0 <= i < rows.len() implies 1 <= key(#[trigger] rows[i])
            <= last by {
            assert(1 <= keys[i] <= last);
        }
    }
}

fn drop_category(rows: &Vec<i64>, id: i64) -> (kept: Vec<i64>)
    ensures
        kept@ == categories_without(rows@, id),
{
    let mut kept: Vec<i64> = Vec::new();
    let mut i: usize = 0;
    proof {
        lemma_filter_none(rows@, other_category(id));
    }
    while i < rows.len()
        invariant
            i <= rows.len(),
            kept@ == categories_without(rows@.take(i as int), id),
        decreases rows.len() - i,
    {
        proof {
            lemma_filter_step(rows@, other_category(id), i as int);
        }
        if rows[i] != id {
            kept.push(rows[i]);
        }
        i += 1;
    }
    assert(rows@.take(i as int) =~= rows@);
    kept
}

fn drop_entry(rows: &Vec<Entry>, id: i64) -> (kept: Vec<Entry>)
    ensures
        kept@ == entries_without(rows@, id),
{
    let mut kept: Vec<Entry> = Vec::new();
    let mut i: usize = 0;
    proof {
        lemma_filter_none(rows@, other_entry(id));
    }
    while i < rows.len()
        invariant
            i <= rows.len(),
            kept@ == entries_without(rows@.take(i as int), id),
        decreases rows.len() - i,
    {
        proof {
            lemma_filter_step(rows@, other_entry(id), i as int);
        }
        if rows[i].id != id {
            kept.push(rows[i]);
        }
        i += 1;
    }
    assert(rows@.take(i as int) =~= rows@);
    kept
}

fn drop_time_entries(rows: &Vec<TimeEntry>, entry_id: i64) -> (kept: Vec<TimeEntry>)
    ensures
        kept@ == time_entries_off(rows@, entry_id),
{
    let mut kept: Vec<TimeEntry> = Vec::new();
    let mut i: usize = 0;
    proof {
        lemma_filter_none(rows@, logged_elsewhere(entry_id));
    }
    while i < rows.len()
        invariant
            i <= rows.len(),
            kept@ == time_entries_off(rows@.take(i as int), entry_id),
        decreases rows.len() - i,
    {
        proof {
            lemma_filter_step(rows@, logged_elsewhere(entry_id), i as int);
        }
        if rows[i].entry_id != entry_id {
            kept.push(rows[i]);
        }
        i += 1;
    }
    assert(rows@.take(i as int) =~= rows@);
    kept
}

/// Nothing is kept of no rows.
proof fn lemma_filter_none<A>(rows: Seq<A>, keep: spec_fn(A) -> bool)
    ensures
        rows.take(0).filter(keep) == Seq::<A>::empty(),
{
    reveal(Seq::filter);
    assert(rows.take(0) =~= Seq::<A>::empty());
}

/// What is kept of the first `i + 1` rows is what is kept of the first `i`,
/// and row `i` where it is kept.
proof fn lemma_filter_step<A>(rows: Seq<A>, keep: spec_fn(A) -> bool, i: int)
    requires
        0 <= i < rows.len(),
    ensures
        rows.take(i + 1).filter(keep) == if keep(rows[i]) {
            rows.take(i).filter(keep).push(rows[i])
        } else {
            rows.take(i).filter(keep)
        },
{
    reveal(Seq::filter);
    assert(rows.take(i + 1).drop_last() =~= rows.take(i));
}

/// What is kept of the rows: each kept row is one of the rows and meets the
/// condition, each row that meets it is kept, and the keys still count up.
proof fn lemma_filtered<A>(rows: Seq<A>, keep: spec_fn(A) -> bool, key: spec_fn(A) -> i64, last: i64)
    ensures
        forall|i: int|
            0 <= i < rows.filter(keep).len() ==> keep(#[trigger] rows.filter(keep)[i])
                && rows.contains(rows.filter(keep)[i]),
        forall|i: int|
            0 <= i < rows.len() && keep(rows[i]) ==> rows.filter(keep).contains(#[trigger] rows[i]),
        ascending(rows, key, last) ==> ascending(rows.filter(keep), key, last),
    decreases rows.len(),
{
    reveal(Seq::filter);
    if rows.len() > 0 {
        let front = rows.drop_last();
        let kept = front.filter(keep);
        let all = rows.filter(keep);
        lemma_filtered(front, keep, key, last);
        assert forall|i: int| 0 <= i < all.len() implies keep(#[trigger] all[i]) && rows.contains(
            all[i],
        ) by {
            if i < kept.len() {
                assert(all[i] == kept[i]);
                assert(front.contains(kept[i]));
                let k = choose|k: int| 0 <= k < front.len() && front[k] == kept[i];
                assert(rows[k] == all[i]);
            } else {
                assert(all[i] == rows[rows.len() - 1]);
            }
        }
        assert forall|i: int| 0 <= i < rows.len() && keep(rows[i]) implies all.contains(
            #[trigger] rows[i],
        ) by {
            if i < front.len() {
                assert(front[i] == rows[i]);
                assert(kept.contains(front[i]));
                let k = choose|k: int| 0 <= k < kept.len() && kept[k] == front[i];
                assert(all[k] == rows[i]);
            } else {
                assert(all[all.len() - 1] == rows[i]);
            }
        }
        if ascending(rows, key, last) {
            assert(ascending(front, key, last)) by {
                assert forall|i: int, j: int| 0 <= i < j < front.len() implies key(
                    #[trigger] front[i],
                ) < key(#[trigger] front[j]) by {
                    assert(front[i] == rows[i] && front[j] == rows[j]);
                }
                assert forall|i: int| 0 <= i < front.len() implies 1 <= key(#[trigger] front[i])
                    <= last by {
                    assert(front[i] == rows[i]);
                }
            }
            assert forall|i: int, j: int| 0 <= i < j < all.len() implies key(#[trigger] all[i])
                < key(#[trigger] all[j]) by {
                if j < kept.len() {
                    assert(all[i] == kept[i] && all[j] == kept[j]);
                } else {
                    assert(all[i] == kept[i]);
                    assert(front.contains(kept[i]));
                    let k = choose|k: int| 0 <= k < front.len() && front[k] == kept[i];
                    assert(rows[k] == all[i]);
                    assert(all[j] == rows[rows.len() - 1]);
                }
            }
            assert forall|i: int| 0 <= i < all.len() implies 1 <= key(#[trigger] all[i])
                <= last by {
                assert(rows.contains(all[i]));
                let k = choose|k: int| 0 <= k < rows.len() && rows[k] == all[i];
                assert(1 <= key(rows[k]) <= last);
            }
        }
    }
}

/// A row that gets the next key keeps the keys counting up.
proof fn lemma_pushed<A>(rows: Seq<A>, key: spec_fn(A) -> i64, last: i64, row: A)
    requires
        ascending(rows, key, last),
        last < i64::MAX,
        key(row) == last + 1,
    ensures
        ascending(rows.push(row), key, (last + 1) as i64),
{
    let after = rows.push(row);
    assert forall|i: int, j: int| 0 <= i < j < after.len() implies key(#[trigger] after[i]) < key(
        #[trigger] after[j],
    ) by {
        assert(after[i] == rows[i]);
        if j < rows.len() {
            assert(after[j] == rows[j]);
        }
    }
    assert forall|i: int| 0 <= i < after.len() implies 1 <= key(#[trigger] after[i]) <= last
        + 1 by {
        if i < rows.len() {
            assert(after[i] == rows[i]);
        }
    }
}

/// A category that the store takes gets the next key, and no reference that
/// was held comes to dangle.
pub proof fn lemma_with_category(rows: RowsView)
    requires
        rows.takes_category(),
    ensures
        rows.keyed() ==> rows.with_category().keyed(),
        rows.intact() ==> rows.with_category().intact(),
        rows.with_category().has_category(rows.with_category().last_category),
{
    let after = rows.with_category();
    assert(after.categories[rows.categories.len() as int] == after.last_category);
    if rows.keyed() {
        lemma_pushed(rows.categories, category_key(), rows.last_category, after.last_category);
    }
    if rows.intact() {
        assert forall|i: int| 0 <= i < after.entries.len() implies match (
        #[trigger] after.entries[i]).category_id {
            Some(c) => after.has_category(c),
            None => true,
        } by {
            match rows.entries[i].category_id {
                Some(c) => {
                    let k = choose|k: int| 0 <= k < rows.categories.len() && rows.categories[k] == c;
                    assert(after.categories[k] == c);
                },
                None => {},
            }
        }
    }
}

/// An entry that the store takes gets the next key. Under enforcement its
/// category is held, so no reference dangles afterwards if none did before.
pub proof fn lemma_with_entry(rows: RowsView, category_id: Option<i64>)
    requires
        rows.takes_entry(category_id),
    ensures
        rows.keyed() ==> rows.with_entry(category_id).keyed(),
        rows.foreign_keys && rows.intact() ==> rows.with_entry(category_id).intact(),
        rows.with_entry(category_id).has_entry(rows.with_entry(category_id).last_entry),
{
    let after = rows.with_entry(category_id);
    assert(after.entries[rows.entries.len() as int].id == after.last_entry);
    if rows.keyed() {
        lemma_pushed(
            rows.entries,
            entry_key(),
            rows.last_entry,
            Entry { id: after.last_entry, category_id },
        );
    }
    if rows.foreign_keys && rows.intact() {
        assert forall|j: int| 0 <= j < after.time_entries.len() implies after.has_entry(
            (#[trigger] after.time_entries[j]).entry_id,
        ) by {
            let e = rows.time_entries[j].entry_id;
            assert(rows.has_entry(e));
            let k = choose|k: int| 0 <= k < rows.entries.len() && (#[trigger] rows.entries[k]).id
                == e;
            assert(after.entries[k].id == e);
        }
    }
}

/// A time entry that the store takes gets the next key. Under enforcement
/// its entry is held, so no reference dangles afterwards if none did before.
pub proof fn lemma_with_time_entry(rows: RowsView, entry_id: i64)
    requires
        rows.takes_time_entry(entry_id),
    ensures
        rows.keyed() ==> rows.with_time_entry(entry_id).keyed(),
        rows.foreign_keys && rows.intact() ==> rows.with_time_entry(entry_id).intact(),
{
    let after = rows.with_time_entry(entry_id);
    if rows.keyed() {
        lemma_pushed(
            rows.time_entries,
            time_entry_key(),
            rows.last_time_entry,
            TimeEntry { id: after.last_time_entry, entry_id },
        );
    }
}

/// Giving up a category leaves the entries as they were. Under enforcement
/// the store gives up only a category that no entry references, so no
/// reference dangles afterwards if none did before; without enforcement the
/// references to the category are left to dangle.
pub proof fn lemma_without_category(rows: RowsView, id: i64)
    requires
        rows.gives_category(id),
    ensures
        rows.without_category(id).entries == rows.entries,
        rows.without_category(id).time_entries == rows.time_entries,
        !rows.without_category(id).has_category(id),
        rows.keyed() ==> rows.without_category(id).keyed(),
        rows.foreign_keys && rows.intact() ==> rows.without_category(id).intact(),
        !rows.foreign_keys && rows.category_in_use(id) ==> !rows.without_category(id).intact(),
{
    let after = rows.without_category(id);
    lemma_filtered(rows.categories, other_category(id), category_key(), rows.last_category);
    if after.has_category(id) {
        let k = choose|k: int| 0 <= k < after.categories.len() && after.categories[k] == id;
        assert(after.categories[k] != id);
    }
    if rows.foreign_keys && rows.intact() {
        assert forall|i: int| 0 <= i < after.entries.len() implies match (
        #[trigger] after.entries[i]).category_id {
            Some(c) => after.has_category(c),
            None => true,
        } by {
            match rows.entries[i].category_id {
                Some(c) => {
                    assert(c != id);
                    let k = choose|k: int| 0 <= k < rows.categories.len() && rows.categories[k] == c;
                    assert(after.categories.contains(rows.categories[k]));
                },
                None => {},
            }
        }
    }
    if !rows.foreign_keys && rows.category_in_use(id) {
        let i = choose|i: int|
            0 <= i < rows.entries.len() && (#[trigger] rows.entries[i]).category_id == Some(id);
        assert(after.entries[i].category_id == Some(id));
    }
}

/// Giving up an entry leaves the categories as they were. Under enforcement
/// the time entries logged on it go with it and every other row stays, so
/// no reference dangles afterwards if none did before.
pub proof fn lemma_without_entry(rows: RowsView, id: i64)
    ensures
        rows.without_entry(id).categories == rows.categories,
        !rows.without_entry(id).has_entry(id),
        rows.foreign_keys && rows.has_entry(id) ==> forall|j: int|
            0 <= j < rows.without_entry(id).time_entries.len() ==> (
            #[trigger] rows.without_entry(id).time_entries[j]).entry_id != id,
        forall|j: int|
            0 <= j < rows.time_entries.len() && rows.time_entries[j].entry_id != id
                ==> rows.without_entry(id).time_entries.contains(#[trigger] rows.time_entries[j]),
        forall|i: int|
            0 <= i < rows.entries.len() && rows.entries[i].id != id ==> rows.without_entry(
                id,
            ).entries.contains(#[trigger] rows.entries[i]),
        forall|j: int|
            0 <= j < rows.without_entry(id).time_entries.len() ==> rows.time_entries.contains(
                #[trigger] rows.without_entry(id).time_entries[j],
            ),
        rows.keyed() ==> rows.without_entry(id).keyed(),
        rows.foreign_keys && rows.intact() ==> rows.without_entry(id).intact(),
{
    let after = rows.without_entry(id);
    lemma_filtered(rows.entries, other_entry(id), entry_key(), rows.last_entry);
    lemma_filtered(
        rows.time_entries,
        logged_elsewhere(id),
        time_entry_key(),
        rows.last_time_entry,
    );
    if after.has_entry(id) {
        let k = choose|k: int| 0 <= k < after.entries.len() && (#[trigger] after.entries[k]).id == id;
        assert(after.entries[k].id != id);
    }
    assert forall|j: int| 0 <= j < after.time_entries.len() implies rows.time_entries.contains(
        #[trigger] after.time_entries[j],
    ) by {
        if !(rows.foreign_keys && rows.has_entry(id)) {
            assert(rows.time_entries[j] == after.time_entries[j]);
        }
    }
    assert forall|j: int|
        0 <= j < rows.time_entries.len() && rows.time_entries[j].entry_id
            != id implies after.time_entries.contains(#[trigger] rows.time_entries[j]) by {
        if !(rows.foreign_keys && rows.has_entry(id)) {
            assert(after.time_entries[j] == rows.time_entries[j]);
        }
    }
    if rows.foreign_keys && rows.intact() {
        assert forall|i: int| 0 <= i < after.entries.len() implies match (
        #[trigger] after.entries[i]).category_id {
            Some(c) => after.has_category(c),
            None => true,
        } by {
            assert(rows.entries.contains(after.entries[i]));
            let k = choose|k: int| 0 <= k < rows.entries.len() && rows.entries[k]
                == after.entries[i];
            assert(rows.entries[k].category_id == after.entries[i].category_id);
        }
        assert forall|j: int| 0 <= j < after.time_entries.len() implies after.has_entry(
            (#[trigger] after.time_entries[j]).entry_id,
        ) by {
            let t = after.time_entries[j];
            assert(rows.time_entries.contains(t));
            let m = choose|m: int| 0 <= m < rows.time_entries.len() && rows.time_entries[m] == t;
            assert(rows.has_entry(rows.time_entries[m].entry_id));
            let k = choose|k: int|
                0 <= k < rows.entries.len() && (#[trigger] rows.entries[k]).id == t.entry_id;
            assert(t.entry_id != id);
            assert(after.entries.contains(rows.entries[k]));
            let n = choose|n: int| 0 <= n < after.entries.len() && after.entries[n]
                == rows.entries[k];
            assert(after.entries[n].id == t.entry_id);
        }
    }
}

/// The declarations that the model rests on. In version 1 every table has
/// the surrogate key `id`. An entry references `categories(id)` through
/// `category_id`, which may be empty, and no clause says what becomes of the
/// entry when the category is deleted. A time entry references `entries(id)`
/// through `entry_id`, which may not be empty, and is deleted with its entry.
pub proof fn lemma_declared_references()
    ensures
        initial_schema_view().tables.len() == 3,
        forall|i: int|
            0 <= i < 3 ==> (#[trigger] initial_schema_view().tables[i]).columns[0].primary_key,
        initial_schema_view().tables[1].foreign_keys == seq![
            ForeignKeyView {
                column: "category_id"@,
                ref_table: "categories"@,
                ref_column: "id"@,
                on_delete: OnDelete::NoAction,
            },
        ],
        initial_schema_view().tables[1].columns[2].name == "category_id"@,
        initial_schema_view().tables[1].columns[2].ty == ColumnType::Integer,
        !initial_schema_view().tables[1].columns[2].not_null,
        initial_schema_view().tables[2].foreign_keys == seq![
            ForeignKeyView {
                column: "entry_id"@,
                ref_table: "entries"@,
                ref_column: "id"@,
                on_delete: OnDelete::Cascade,
            },
        ],
        initial_schema_view().tables[2].columns[1].name == "entry_id"@,
        initial_schema_view().tables[2].columns[1].ty == ColumnType::Integer,
        initial_schema_view().tables[2].columns[1].not_null,
        initial_schema_view().tables[0].foreign_keys.len() == 0,
{
}

} // verus!
