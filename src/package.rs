//! The records the index is built from, and the ways a build can fail.

use vstd::prelude::*;

verus! {

/// One row of the package table.
#[derive(Debug)]
pub struct PackageRecord {
    pub id: u64,
    pub name: String,
    pub downloads: u64,
    pub description: Option<String>,
    /// The resolved version's text; the sentinel until resolution sets it.
    pub version: String,
}

/// One row of the version table.
#[derive(Debug)]
pub struct VersionRecord {
    pub package_id: u64,
    pub num: String,
}

/// What a package record holds: id, name, downloads, description, version.
pub type PackageView = (u64, Seq<char>, u64, Option<Seq<char>>, Seq<char>);

impl View for PackageRecord {
    type V = PackageView;

    open spec fn view(&self) -> PackageView {
        (
            self.id,
            self.name@,
            self.downloads,
            match self.description {
                Some(d) => Some(d@),
                None => None,
            },
            self.version@,
        )
    }
}

/// The views of a list of package records.
pub open spec fn packages_view(s: Seq<PackageRecord>) -> Seq<PackageView> {
    s.map_values(|p: PackageRecord| p@)
}

/// Why building the index failed.
#[derive(Clone, Copy, Debug, PartialEq, Eq, Structural)]
pub enum IndexError {
    /// A file could not be opened, read or written.
    IoFailure,
    /// A row did not fit its record's schema.
    MalformedRecord,
    /// Fewer packages were loaded than the index must hold.
    InsufficientPopulation,
}

impl VersionRecord {
    /// Whether the record's version text is a valid semantic version.
    pub open spec fn wf(&self) -> bool {
        crate::version::semver_valid(self.num@)
    }

    /// Makes a version record, refusing text that is no semantic version.
    pub fn new(package_id: u64, num: String) -> (r: Result<VersionRecord, IndexError>)
        ensures
            crate::version::semver_valid(num@) <==> r is Ok,
            r matches Ok(v) ==> v.package_id == package_id && v.num@ == num@ && v.wf(),
            r matches Err(e) ==> e == IndexError::MalformedRecord,
    {
        if crate::version::is_valid_version(num.as_str()) {
            Ok(VersionRecord { package_id, num })
        } else {
            Err(IndexError::MalformedRecord)
        }
    }
}

impl PackageRecord {
    /// Makes a package record whose version is the sentinel.
    pub fn new(id: u64, name: String, downloads: u64, description: Option<String>) -> (r:
        PackageRecord)
        ensures
            r.id == id,
            r.name@ == name@,
            r.downloads == downloads,
            r.description == description,
            r.version@ == crate::version::sentinel_version(),
    {
        PackageRecord { id, name, downloads, description, version: crate::version::default_version() }
    }
}

/// Whether every record of the table has valid version text.
pub open spec fn table_wf(table: Seq<VersionRecord>) -> bool {
    forall|i: int| 0 <= i < table.len() ==> (#[trigger] table[i]).wf()
}

/// Makes the version table from its rows (package id, version text), in
/// order; fails when some row's text is no semantic version.
pub fn load_versions(rows: Vec<(u64, String)>) -> (r: Result<Vec<VersionRecord>, IndexError>)
    ensures
        r is Ok <==> forall|i: int|
            0 <= i < rows@.len() ==> crate::version::semver_valid((#[trigger] rows@[i]).1@),
        r matches Ok(t) ==> {
            &&& table_wf(t@)
            &&& t@.len() == rows@.len()
            &&& forall|i: int|
                0 <= i < rows@.len() ==> (#[trigger] t@[i]).package_id == rows@[i].0 && t@[i].num@
                    == rows@[i].1@
        },
        r matches Err(e) ==> e == IndexError::MalformedRecord,
{
    let mut t: Vec<VersionRecord> = Vec::new();
    let mut i: usize = 0;
    while i < rows.len()
        invariant
            i <= rows@.len(),
            t@.len() == i,
            table_wf(t@),
            forall|j: int| 0 <= j < i ==> crate::version::semver_valid((#[trigger] rows@[j]).1@),
            forall|j: int|
                0 <= j < i ==> (#[trigger] t@[j]).package_id == rows@[j].0 && t@[j].num@
                    == rows@[j].1@,
        decreases rows@.len() - i,
    {
        let num = rows[i].1.clone();
        match VersionRecord::new(rows[i].0, num) {
            Ok(v) => {
                t.push(v);
            },
            Err(e) => {
                return Err(e);
            },
        }
        i = i + 1;
    }
    Ok(t)
}

} // verus!
