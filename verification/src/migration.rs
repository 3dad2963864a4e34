//! Versioned migrations: what the store is handed at start-up.
//!
//! The store applies the list in order, one pass, and records each version it
//! has applied. A list is in order when its versions strictly increase.

use vstd::prelude::*;
use crate::batch::{initial_batch_text, lemma_initial_batch_text};
use crate::ddl::{batch_text, render_batch};
use crate::initial::{initial_schema, initial_schema_view};
use crate::schema::{Schema, SchemaView};

verus! {

/// The direction of a migration.
#[derive(Clone, Copy, Debug, PartialEq, Eq, Structural)]
pub enum MigrationKind {
    Up,
    Down,
}

/// One step of the schema's history: a version, a description for people, a
/// direction and the statement batch to run.
#[derive(Debug, PartialEq, Eq)]
pub struct Migration {
    pub version: i64,
    pub description: &'static str,
    pub sql: String,
    pub kind: MigrationKind,
}

/// A migration as contracts see it.
pub struct MigrationView {
    pub version: int,
    pub description: Seq<char>,
    pub sql: Seq<char>,
    pub kind: MigrationKind,
}

impl View for Migration {
    type V = MigrationView;

    open spec fn view(&self) -> MigrationView {
        MigrationView {
            version: self.version as int,
            description: self.description@,
            sql: self.sql@,
            kind: self.kind,
        }
    }
}

/// The views of a list of migrations, in order.
pub open spec fn migration_views(ms: Seq<Migration>) -> Seq<MigrationView> {
    ms.map_values(|m: Migration| m@)
}

/// The upward migration that creates `schema`, each statement guarded so that
/// the batch can be run again.
pub open spec fn creation_view(
    version: int,
    description: Seq<char>,
    schema: SchemaView,
) -> MigrationView {
    MigrationView { version, description, sql: batch_text(schema), kind: MigrationKind::Up }
}

/// Version 1: "create initial tables".
pub open spec fn initial_migration_view() -> MigrationView {
    creation_view(1, "create initial tables"@, initial_schema_view())
}

/// Every migration has a greater version than those before it.
pub open spec fn strictly_increasing(ms: Seq<MigrationView>) -> bool {
    forall|i: int, j: int| 0 <= i < j < ms.len() ==> ms[i].version < ms[j].version
}

/// The logical identifier of the store that the migrations are applied to.
pub fn database_url() -> (url: &'static str)
    ensures
        url@ == "sqlite:timeloop.db"@,
{
    "sqlite:timeloop.db"
}

impl Clone for Migration {
    fn clone(&self) -> (copy: Self)
        ensures
            copy@ == self@,
    {
        Migration {
            version: self.version,
            description: self.description,
            sql: self.sql.clone(),
            kind: self.kind,
        }
    }
}

impl Migration {
    /// The upward migration that creates `schema`.
    pub fn create(version: i64, description: &'static str, schema: &Schema) -> (m: Migration)
        ensures
            m@ == creation_view(version as int, description@, schema@),
    {
        Migration { version, description, sql: render_batch(schema), kind: MigrationKind::Up }
    }
}

/// The migrations of the store, in the order in which they are applied:
/// the single migration that creates version 1 of the schema.
pub fn migrations() -> (ms: Vec<Migration>)
    ensures
        ms@.len() == 1,
        ms[0]@ == initial_migration_view(),
        ms[0].sql@ == initial_batch_text(),
        strictly_increasing(migration_views(ms@)),
{
    proof {
        lemma_initial_batch_text();
    }
    let schema = initial_schema();
    vec![Migration::create(1, "create initial tables", &schema)]
}

/// Tells whether the versions of a list strictly increase.
pub fn versions_increase(ms: &Vec<Migration>) -> (ok: bool)
    ensures
        ok == strictly_increasing(migration_views(ms@)),
{
    let n: usize = ms.len();
    if n == 0 {
        return true;
    }
    let mut i: usize = 1;
    while i < n
        invariant
            1 <= i <= n,
            n == ms.len(),
            forall|a: int, b: int| 0 <= a < b < i ==> ms[a].version < ms[b].version,
        decreases n - i,
    {
        if ms[i - 1].version >= ms[i].version {
            proof {
                let views = migration_views(ms@);
                assert(views[i - 1].version >= views[i as int].version);
            }
            return false;
        }
        i += 1;
    }
    proof {
        let views = migration_views(ms@);
        assert forall|a: int, b: int| 0 <= a < b < views.len() implies views[a].version
            < views[b].version by {
            assert(ms[a].version < ms[b].version);
        }
    }
    true
}

} // verus!
