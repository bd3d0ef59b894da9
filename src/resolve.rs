//! Resolving each package's newest version from the version table.

use crate::package::{packages_view, table_wf, PackageRecord, PackageView, VersionRecord};
use crate::version::{is_newer, newer};
use std::collections::HashMap;
use vstd::prelude::*;

verus! {

broadcast use vstd::std_specs::hash::group_hash_axioms;

/// The version that the records of `table` give package `id`: scanning the
/// table in order, a record of `id` is kept when no record of `id` was kept
/// before it or when it is strictly newer than the one kept so far.
pub open spec fn resolved(table: Seq<VersionRecord>, id: u64) -> Option<Seq<char>>
    decreases table.len(),
{
    if table.len() == 0 {
        None
    } else {
        let prev = resolved(table.drop_last(), id);
        let r = table.last();
        if r.package_id == id && (prev is None || newer(prev->0, r.num@)) {
            Some(r.num@)
        } else {
            prev
        }
    }
}

/// Whether `m` maps each package id to the position in `table` of the record
/// that `resolved` keeps for it, and holds no other id.
pub open spec fn newest_positions(table: Seq<VersionRecord>, m: Map<u64, usize>) -> bool {
    forall|id: u64|
        {
            &&& m.contains_key(id) <==> (#[trigger] resolved(table, id)) is Some
            &&& m.contains_key(id) ==> {
                &&& m[id] < table.len()
                &&& table[m[id] as int].package_id == id
                &&& table[m[id] as int].num@ == resolved(table, id)->0
            }
        }
}

/// One pass over the version table: the position of each package's newest
/// record, at most one per package id.
pub fn newest_by_package(table: &Vec<VersionRecord>) -> (r: HashMap<u64, usize>)
    requires
        table_wf(table@),
    ensures
        newest_positions(table@, r@),
{
    let mut m: HashMap<u64, usize> = HashMap::new();
    let mut i: usize = 0;
    while i < table.len()
        invariant
            table_wf(table@),
            i <= table.len(),
            newest_positions(table@.take(i as int), m@),
        decreases table.len() - i,
    {
        let ghost before = m@;
        let rec = &table[i];
        proof {
            assert(table@.take(i + 1).drop_last() =~= table@.take(i as int));
            assert(table@[i as int].wf());
            assert(resolved(table@.take(i as int), rec.package_id) is Some <==> m@.contains_key(
                rec.package_id,
            ));
        }
        match m.get(&rec.package_id) {
            None => {
                m.insert(rec.package_id, i);
            },
            Some(j) => {
                let j: usize = *j;
                proof {
                    assert(table@[j as int].wf());
                }
                if is_newer(table[j].num.as_str(), rec.num.as_str()) {
                    m.insert(rec.package_id, i);
                }
            },
        }
        proof {
            assert forall|id: u64| true implies {
                &&& m@.contains_key(id) <==> (#[trigger] resolved(table@.take(i + 1), id)) is Some
                &&& m@.contains_key(id) ==> {
                    &&& m@[id] < table@.take(i + 1).len()
                    &&& table@.take(i + 1)[m@[id] as int].package_id == id
                    &&& table@.take(i + 1)[m@[id] as int].num@ == resolved(
                        table@.take(i + 1),
                        id,
                    )->0
                }
            } by {
                assert(resolved(table@.take(i as int), id) == resolved(
                    table@.take(i + 1).drop_last(),
                    id,
                ));
                assert(table@.take(i + 1).last() == table@[i as int]);
                if before.contains_key(id) {
                    assert(table@.take(i as int)[before[id] as int] == table@[before[id] as int]);
                }
            }
        }
        i = i + 1;
    }
    proof {
        assert(table@.take(table@.len() as int) =~= table@);
    }
    m
}

/// The version a package ends up with: the resolved one, or the one it had.
pub open spec fn version_after(table: Seq<VersionRecord>, p: PackageView) -> Seq<char> {
    match resolved(table, p.0) {
        Some(v) => v,
        None => p.4,
    }
}

/// A package after resolution: all as before but the version.
pub open spec fn with_resolved(table: Seq<VersionRecord>, p: PackageView) -> PackageView {
    (p.0, p.1, p.2, p.3, version_after(table, p))
}

/// Sets each package's version to the newest one that the table holds for
/// its id; a package with no record in the table keeps its version.
pub fn resolve_versions(packages: &mut Vec<PackageRecord>, table: &Vec<VersionRecord>)
    requires
        table_wf(table@),
    ensures
        packages_view(final(packages)@) == packages_view(old(packages)@).map_values(
            |p: PackageView| with_resolved(table@, p),
        ),
{
    let m = newest_by_package(table);
    let ghost start = packages@;
    let mut i: usize = 0;
    while i < packages.len()
        invariant
            newest_positions(table@, m@),
            i <= packages@.len(),
            packages@.len() == start.len(),
            forall|k: int| i <= k < start.len() ==> #[trigger] packages@[k] == start[k],
            forall|k: int|
                0 <= k < i ==> #[trigger] packages@[k]@ == with_resolved(table@, start[k]@),
        decreases packages@.len() - i,
    {
        let id = packages[i].id;
        proof {
            assert(resolved(table@, id) is Some <==> m@.contains_key(id));
        }
        match m.get(&id) {
            Some(j) => {
                let text = table[*j].num.clone();
                packages[i].version = text;
            },
            None => {},
        }
        assert(packages@[i as int]@ == with_resolved(table@, start[i as int]@));
        i = i + 1;
    }
    assert(packages_view(packages@) =~= packages_view(start).map_values(
        |p: PackageView| with_resolved(table@, p),
    ));
}

} // verus!
