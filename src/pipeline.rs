//! The build before rendering: rank, resolve versions, collect the corpus.

use crate::collector::{id_tokens, short_description, WordCollector};
use crate::package::{packages_view, table_wf, IndexError, PackageRecord, PackageView, VersionRecord};
use crate::rank::{rank_packages, stable_by_downloads, top_packages};
use crate::resolve::{resolve_versions, with_resolved};
use vstd::prelude::*;

verus! {

/// The corpus words one package contributes: its identifier's tokens, then
/// its shortened description if it has one.
pub open spec fn package_words(p: PackageView) -> Seq<Seq<char>> {
    id_tokens(p.1) + match p.3 {
        Some(d) => seq![short_description(d)],
        None => Seq::empty(),
    }
}

/// The corpus of a list of packages, in list order.
pub open spec fn corpus_of(ps: Seq<PackageView>) -> Seq<Seq<char>>
    decreases ps.len(),
{
    if ps.len() == 0 {
        Seq::empty()
    } else {
        corpus_of(ps.drop_last()) + package_words(ps.last())
    }
}

/// Appends a package's words to the collector.
pub fn collect_package(collector: &mut WordCollector, p: &PackageRecord)
    ensures
        final(collector)@ == old(collector)@ + package_words(p@),
{
    collector.collect_crate_id(p.name.as_str());
    match &p.description {
        Some(d) => {
            collector.collect_crate_description(d.as_str());
        },
        None => {},
    }
    assert(collector@ =~= old(collector)@ + package_words(p@));
}

/// The corpus of the packages, in order.
pub fn collect_corpus(packages: &Vec<PackageRecord>) -> (r: WordCollector)
    ensures
        r@ == corpus_of(packages_view(packages@)),
{
    let ghost pv = packages_view(packages@);
    let mut c = WordCollector::new();
    let mut i: usize = 0;
    while i < packages.len()
        invariant
            i <= packages@.len(),
            pv == packages_view(packages@),
            c@ == corpus_of(pv.take(i as int)),
        decreases packages@.len() - i,
    {
        collect_package(&mut c, &packages[i]);
        proof {
            let t = pv.take(i + 1);
            assert(t.drop_last() =~= pv.take(i as int));
            assert(t.last() == packages@[i as int]@);
        }
        i = i + 1;
    }
    assert(pv.take(pv.len() as int) =~= pv);
    c
}

/// What ranking and version resolution produce from the loaded tables:
/// `r` is a most popular selection of `count` packages, each carrying the
/// version that `table` resolves for it.
pub open spec fn prepared(all: Seq<PackageRecord>, table: Seq<VersionRecord>, count: nat, r: Seq<PackageRecord>) -> bool {
    exists|ranked: Seq<PackageRecord>|
        {
            &&& #[trigger] top_packages(all, count, ranked)
            &&& r.len() == ranked.len()
            &&& forall|i: int|
                0 <= i < r.len() ==> {
                    #[trigger] r[i]@ == with_resolved(table, ranked[i]@)
                }
        }
}

/// The packages an index holds, as a function of the loaded tables: the
/// first `count` in the order of the stable sort by downloads, each with its
/// resolved version.
pub open spec fn built(all: Seq<PackageView>, table: Seq<VersionRecord>, count: nat) -> Seq<PackageView> {
    stable_by_downloads(all).take(count as int).map_values(|p: PackageView| with_resolved(table, p))
}

/// Ranks the packages, keeps the `max_size + 1` most downloaded, resolves
/// their versions from `versions`, and collects their corpus.
pub fn prepare_packages(
    packages: Vec<PackageRecord>,
    versions: &Vec<VersionRecord>,
    max_size: usize,
) -> (r: Result<(Vec<PackageRecord>, WordCollector), IndexError>)
    requires
        table_wf(versions@),
    ensures
        r is Ok <==> packages@.len() > max_size,
        r matches Ok(
            (ps, c),
        ) ==> {
            &&& prepared(packages@, versions@, max_size as nat + 1, ps@)
            &&& packages_view(ps@) == built(packages_view(packages@), versions@, max_size as nat + 1)
            &&& c@ == corpus_of(packages_view(ps@))
        },
        r matches Err(e) ==> e == IndexError::InsufficientPopulation,
{
    let ghost all = packages@;
    let mut ranked = match rank_packages(packages, max_size) {
        Ok(v) => v,
        Err(e) => {
            return Err(e);
        },
    };
    let ghost top = ranked@;
    resolve_versions(&mut ranked, versions);
    let corpus = collect_corpus(&ranked);
    assert(top_packages(all, max_size as nat + 1, top));
    assert forall|i: int| 0 <= i < ranked@.len() implies #[trigger] ranked@[i]@ == with_resolved(
        versions@,
        top[i]@,
    ) by {
        assert(packages_view(ranked@)[i] == ranked@[i]@);
        assert(packages_view(top)[i] == top[i]@);
    }
    Ok((ranked, corpus))
}

} // verus!
