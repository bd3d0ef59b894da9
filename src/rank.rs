//! Ranking packages by popularity and keeping the most popular ones.

use crate::package::{packages_view, IndexError, PackageRecord, PackageView};
use vstd::prelude::*;

verus! {

/// Whether the packages stand in order of non-increasing downloads.
pub open spec fn by_downloads_desc(s: Seq<PackageRecord>) -> bool {
    forall|i: int, j: int| 0 <= i < j < s.len() ==> s[i].downloads >= s[j].downloads
}

/// Whether `after` takes its `i`-th package from position `pos[i]` of
/// `before`, each position once, and packages with equal downloads keep
/// their order.
pub open spec fn stable_positions(before: Seq<PackageRecord>, after: Seq<PackageRecord>, pos: Seq<int>) -> bool {
    &&& pos.len() == before.len()
    &&& forall|i: int| 0 <= i < pos.len() ==> 0 <= #[trigger] pos[i] < pos.len() && after[i] == before[pos[i]]
    &&& forall|i: int, j: int|
        0 <= i < j < pos.len() ==> pos[i] != pos[j] && (after[i].downloads == after[j].downloads ==> pos[i] < pos[j])
}

/// The order that the stable `slice::sort_by_key`, keyed on downloads from
/// most to fewest, puts packages in.
pub uninterp spec fn stable_by_downloads(s: Seq<PackageView>) -> Seq<PackageView>;

/// Relies on `slice::sort_by_key`: a stable sort that permutes the packages
/// into order of non-increasing downloads, packages with equal downloads
/// keeping their order (`pos[i]` is where the `i`-th came from); its result
/// depends on the packages alone.
#[verifier::external_body]
fn sort_by_downloads(v: &mut Vec<PackageRecord>)
    ensures
        packages_view(final(v)@) == stable_by_downloads(packages_view(old(v)@)),
        final(v)@.len() == old(v)@.len(),
        final(v)@.to_multiset() == old(v)@.to_multiset(),
        by_downloads_desc(final(v)@),
        exists|pos: Seq<int>| stable_positions(old(v)@, final(v)@, pos),
{
    v.sort_by_key(|p| core::cmp::Reverse(p.downloads))
}

/// Whether `r` is a most popular selection of `count` packages out of `all`,
/// in order of non-increasing downloads.
pub open spec fn top_packages(all: Seq<PackageRecord>, count: nat, r: Seq<PackageRecord>) -> bool {
    &&& r.len() == count
    &&& by_downloads_desc(r)
    &&& exists|rest: Seq<PackageRecord>|
        {
            &&& #[trigger] (r + rest).to_multiset() == all.to_multiset()
            &&& forall|i: int, j: int|
                0 <= i < r.len() && 0 <= j < rest.len() ==> r[i].downloads >= rest[j].downloads
        }
}

/// Sorts the packages by downloads, most first, and keeps the first
/// `max_size + 1` of them; fails when fewer than that many were given.
/// The sort is stable: packages with equal downloads keep their input order.
pub fn rank_packages(packages: Vec<PackageRecord>, max_size: usize) -> (r: Result<
    Vec<PackageRecord>,
    IndexError,
>)
    ensures
        r is Ok <==> packages@.len() > max_size,
        r matches Ok(v) ==> top_packages(packages@, max_size as nat + 1, v@) && packages_view(v@)
            == stable_by_downloads(packages_view(packages@)).take(max_size + 1),
        r matches Err(e) ==> e == IndexError::InsufficientPopulation,
{
    if packages.len() <= max_size {
        return Err(IndexError::InsufficientPopulation);
    }
    let mut sorted = packages;
    sort_by_downloads(&mut sorted);
    let ghost all = sorted@;
    sorted.truncate(max_size + 1);
    proof {
        let rest = all.skip(max_size + 1);
        assert(all =~= sorted@ + rest);
        assert((sorted@ + rest).to_multiset() == packages@.to_multiset());
        assert(forall|i: int, j: int|
            0 <= i < sorted@.len() && 0 <= j < rest.len() ==> all[i] == sorted@[i] && all[
                max_size + 1 + j] == rest[j]);
        assert(packages_view(sorted@) =~= packages_view(all).take(max_size + 1));
    }
    Ok(sorted)
}

} // verus!
