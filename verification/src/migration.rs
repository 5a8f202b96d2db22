//! Migration of stored values between schema versions, forwards and backwards.

use crate::json::Json;
use crate::text::{dec, decimal};
use vstd::prelude::*;
use vstd::string::*;

verus! {

/// A step of a migration.
#[derive(Debug, Clone)]
pub struct MigrationStep {
    pub key: String,
    pub from_version: u64,
    pub to_version: u64,
    pub transform: MigrationTransform,
}

/// What a step does to a value.
#[derive(Debug, Clone)]
pub enum MigrationTransform {
    Identity,
    Custom(String),
}

/// Migrates a value by one version. No schema has changed so far, so the value
/// stays as it is.
fn migrate_one_step(data: &Json, from: u64) -> (r: Result<Json, String>)
    requires
        data.wf(),
    ensures
        r is Ok,
        r->Ok_0.wf(),
        r->Ok_0.tree() == data.tree(),
{
    Ok(data.copy())
}

/// Takes a value back by one version.
fn rollback_one_step(data: &Json, from: u64) -> (r: Result<Json, String>)
    requires
        data.wf(),
    ensures
        r is Ok,
        r->Ok_0.wf(),
        r->Ok_0.tree() == data.tree(),
{
    Ok(data.copy())
}

/// Migrates a value forwards. A target that is not later leaves the value as it is.
pub fn migrate(data: &Json, from_version: u64, to_version: u64) -> (r: Result<Json, String>)
    requires
        data.wf(),
    ensures
        r is Ok,
        r->Ok_0.wf(),
        r->Ok_0.tree() == data.tree(),
{
    let mut current = data.copy();
    let mut version: u64 = from_version;
    while version < to_version
        invariant
            from_version <= version,
            version <= to_version || version == from_version,
            current.wf(),
            current.tree() == data.tree(),
        decreases to_version - version,
    {
        match migrate_one_step(&current, version) {
            Ok(next) => {
                current = next;
            },
            Err(e) => {
                return Err(e);
            },
        }
        version += 1;
    }
    Ok(current)
}

/// Migrates a value backwards. A target that is later is refused.
pub fn rollback_migration(data: &Json, from_version: u64, to_version: u64) -> (r: Result<
    Json,
    String,
>)
    requires
        data.wf(),
    ensures
        r is Ok <==> from_version >= to_version,
        r is Ok ==> r->Ok_0.wf() && r->Ok_0.tree() == data.tree(),
        r is Err ==> r->Err_0@ == "Rollback requires from_version ("@ + dec(from_version as nat)
            + ") > to_version ("@ + dec(to_version as nat) + ")"@,
{
    if from_version < to_version {
        let mut m = "Rollback requires from_version (".to_owned();
        m.append(decimal(from_version).as_str());
        m.append(") > to_version (");
        m.append(decimal(to_version).as_str());
        m.append(")");
        return Err(m);
    }
    let mut current = data.copy();
    let mut version: u64 = from_version;
    while version > to_version
        invariant
            to_version <= version <= from_version,
            current.wf(),
            current.tree() == data.tree(),
        decreases version - to_version,
    {
        match rollback_one_step(&current, version) {
            Ok(next) => {
                current = next;
            },
            Err(e) => {
                return Err(e);
            },
        }
        version -= 1;
    }
    Ok(current)
}

/// Migration works in both directions: going back to the version that a value
/// came from succeeds and gives the value back.
pub proof fn law_rollback_undoes_migration(
    data: Json,
    from: u64,
    to: u64,
    up: Result<Json, String>,
    down: Result<Json, String>,
)
    requires
        from <= to,
        call_ensures(migrate, (&data, from, to), up),
        call_ensures(rollback_migration, (&up->Ok_0, to, from), down),
    ensures
        up is Ok,
        down is Ok,
        down->Ok_0.tree() == data.tree(),
{
}

/// Migrating in two stages is migrating once.
pub proof fn law_migration_composes(
    data: Json,
    a: u64,
    b: u64,
    c: u64,
    first: Result<Json, String>,
    second: Result<Json, String>,
    once: Result<Json, String>,
)
    requires
        call_ensures(migrate, (&data, a, b), first),
        call_ensures(migrate, (&first->Ok_0, b, c), second),
        call_ensures(migrate, (&data, a, c), once),
    ensures
        second is Ok,
        once is Ok,
        second->Ok_0.tree() == once->Ok_0.tree(),
{
}

} // verus!
