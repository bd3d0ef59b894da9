//! Properties of the index that hold for every input.

use crate::collector::{keeps_piece, pieces, short_description, trimmed, MAX_DESCRIPTION_CHARS};
use crate::index::{index_entries, index_text, name_seen};
use crate::package::{PackageRecord, PackageView, VersionRecord};
use crate::rank::top_packages;
use crate::pipeline::{built, corpus_of};
use crate::resolve::resolved;
use vstd::prelude::*;

verus! {

/// Every key of the index is the name of some package of the list, and the
/// entry for a package whose name did not come earlier is in the index.
proof fn lemma_index_keys_from(ps: Seq<PackageView>)
    ensures
        forall|i: int|
            0 <= i < index_entries(ps).len() ==> exists|j: int|
                0 <= j < ps.len() && #[trigger] ps[j].1 == (#[trigger] index_entries(ps)[i]).0,
    decreases ps.len(),
{
    if ps.len() > 0 {
        let q = ps.drop_last();
        lemma_index_keys_from(q);
        assert forall|i: int| 0 <= i < index_entries(ps).len() implies exists|j: int|
            0 <= j < ps.len() && #[trigger] ps[j].1 == (#[trigger] index_entries(ps)[i]).0 by {
            if i < index_entries(q).len() {
                let j = choose|j: int| 0 <= j < q.len() && #[trigger] q[j].1 == index_entries(q)[i].0;
                assert(ps[j] == q[j]);
            } else {
                assert(ps[ps.len() - 1].1 == index_entries(ps)[i].0);
            }
        }
    }
}

/// Uniqueness: no two entries of the index have the same key.
pub proof fn lemma_index_keys_unique(ps: Seq<PackageView>)
    ensures
        forall|i: int, j: int|
            0 <= i < j < index_entries(ps).len() ==> index_entries(ps)[i].0 != index_entries(ps)[j].0,
    decreases ps.len(),
{
    if ps.len() > 0 {
        let q = ps.drop_last();
        lemma_index_keys_unique(q);
        lemma_index_keys_from(q);
        let n = ps.len() - 1;
        if !name_seen(ps, n) {
            assert forall|i: int| 0 <= i < index_entries(q).len() implies index_entries(q)[i].0
                != ps[n].1 by {
                let j = choose|j: int| 0 <= j < q.len() && #[trigger] q[j].1 == (#[trigger] index_entries(q)[i]).0;
                assert(ps[j] == q[j]);
                if index_entries(q)[i].0 == ps[n].1 {
                    assert(ps[j].1 == ps[n].1);
                }
            }
        }
    }
}

/// Size: when the packages have distinct names, the index has exactly one
/// entry per package, so a ranked list of `max_size + 1` packages gives
/// `max_size + 1` entries.
pub proof fn lemma_index_size(ps: Seq<PackageView>)
    requires
        forall|i: int, j: int| 0 <= i < j < ps.len() ==> ps[i].1 != ps[j].1,
    ensures
        index_entries(ps).len() == ps.len(),
    decreases ps.len(),
{
    if ps.len() > 0 {
        let q = ps.drop_last();
        lemma_index_size(q);
        assert(!name_seen(ps, ps.len() - 1));
    }
}

/// No-version fallback: a package id with no record in the table resolves to
/// nothing, so the package keeps its sentinel version.
pub proof fn lemma_no_record_no_version(table: Seq<VersionRecord>, id: u64)
    requires
        forall|i: int| 0 <= i < table.len() ==> (#[trigger] table[i]).package_id != id,
    ensures
        resolved(table, id) is None,
    decreases table.len(),
{
    if table.len() > 0 {
        lemma_no_record_no_version(table.drop_last(), id);
        assert(table.last() == table[table.len() - 1]);
    }
}

/// A package id with a record in the table resolves to the version of one
/// of its own records.
pub proof fn lemma_record_gives_version(table: Seq<VersionRecord>, id: u64)
    ensures
        (exists|i: int| 0 <= i < table.len() && (#[trigger] table[i]).package_id == id)
            ==> resolved(table, id) is Some,
        resolved(table, id) is Some ==> exists|i: int|
            0 <= i < table.len() && (#[trigger] table[i]).package_id == id && table[i].num@
                == resolved(table, id)->0,
    decreases table.len(),
{
    if table.len() > 0 {
        let q = table.drop_last();
        lemma_record_gives_version(q, id);
        let n = table.len() - 1;
        assert(table.last() == table[n]);
        if exists|i: int| 0 <= i < table.len() && (#[trigger] table[i]).package_id == id {
            let i = choose|i: int| 0 <= i < table.len() && (#[trigger] table[i]).package_id == id;
            if i < n {
                assert(q[i] == table[i]);
            }
        }
        if resolved(q, id) is Some {
            let i = choose|i: int|
                0 <= i < q.len() && (#[trigger] q[i]).package_id == id && q[i].num@ == resolved(q, id)->0;
            assert(table[i] == q[i]);
        }
    }
}

/// No piece of a text holds an underscore.
proof fn lemma_pieces_no_separator(s: Seq<char>)
    ensures
        forall|i: int, k: int|
            0 <= i < pieces(s).len() && 0 <= k < pieces(s)[i].len() ==> #[trigger] pieces(s)[i][k]
                != '_',
    decreases s.len(),
{
    if s.len() > 0 {
        lemma_pieces_no_separator(s.drop_last());
        lemma_pieces_nonempty(s.drop_last());
    }
}

/// A text has at least one piece.
proof fn lemma_pieces_nonempty(s: Seq<char>)
    ensures
        pieces(s).len() >= 1,
    decreases s.len(),
{
    if s.len() > 0 {
        lemma_pieces_nonempty(s.drop_last());
    }
}

/// Tokens of a folded identifier: each has at least three characters and
/// no underscore, and each is one of the identifier's pieces.
pub proof fn lemma_folded_tokens(folded: Seq<char>)
    ensures
        forall|i: int|
            0 <= i < pieces(folded).filter(keeps_piece()).len() ==> {
                let w = #[trigger] pieces(folded).filter(keeps_piece())[i];
                &&& w.len() >= 3
                &&& forall|k: int| 0 <= k < w.len() ==> w[k] != '_'
                &&& pieces(folded).contains(w)
            },
{
    let ps = pieces(folded);
    let f = ps.filter(keeps_piece());
    lemma_pieces_no_separator(folded);
    assert forall|i: int| 0 <= i < f.len() implies {
        let w = #[trigger] f[i];
        &&& w.len() >= 3
        &&& forall|k: int| 0 <= k < w.len() ==> w[k] != '_'
        &&& ps.contains(w)
    } by {
        ps.lemma_filter_pred(keeps_piece(), i);
        assert(f.contains(f[i]));
        ps.lemma_filter_contains_rev(keeps_piece(), f[i]);
        assert(ps.contains(f[i]));
        let j = choose|j: int| 0 <= j < ps.len() && ps[j] == f[i];
        assert forall|k: int| 0 <= k < f[i].len() implies f[i][k] != '_' by {
            assert(ps[j][k] != '_');
        }
    }
}

/// Ranking: a package that outdownloads the last one kept is kept, and one
/// that is outdownloaded by the last one kept is left out.
pub proof fn lemma_top_membership(
    all: Seq<PackageRecord>,
    count: nat,
    r: Seq<PackageRecord>,
    x: PackageRecord,
)
    requires
        top_packages(all, count, r),
        count > 0,
        all.contains(x),
    ensures
        x.downloads > r.last().downloads ==> r.contains(x),
        x.downloads < r.last().downloads ==> !r.contains(x),
{
    broadcast use vstd::seq_lib::group_to_multiset_ensures;

    let rest = choose|rest: Seq<PackageRecord>|
        {
            &&& #[trigger] (r + rest).to_multiset() == all.to_multiset()
            &&& forall|i: int, j: int|
                0 <= i < r.len() && 0 <= j < rest.len() ==> r[i].downloads >= rest[j].downloads
        };
    let both = r + rest;
    assert(both.to_multiset().count(x) > 0);
    assert(both.contains(x));
    let k = choose|k: int| 0 <= k < both.len() && both[k] == x;
    if k >= r.len() {
        assert(rest[k - r.len()] == x);
        assert(r.last().downloads >= x.downloads);
    } else {
        assert(r[k] == x);
    }
    if x.downloads < r.last().downloads && r.contains(x) {
        let i = choose|i: int| 0 <= i < r.len() && r[i] == x;
        assert(r[i].downloads >= r.last().downloads);
    }
}

/// Truncation: a corpus description never exceeds a hundred characters, is
/// the start of the trimmed text, and has exactly a hundred characters when
/// the trimmed text has at least that many.
pub proof fn lemma_short_description(value: Seq<char>)
    ensures
        short_description(value).len() <= MAX_DESCRIPTION_CHARS,
        short_description(value) == trimmed(value).take(short_description(value).len() as int),
        trimmed(value).len() >= MAX_DESCRIPTION_CHARS ==> short_description(value).len()
            == MAX_DESCRIPTION_CHARS,
{
    let t = trimmed(value);
    if t.len() <= MAX_DESCRIPTION_CHARS {
        assert(t == t.take(t.len() as int));
    }
}

/// Determinism: what the build yields is a function of the loaded tables,
/// so two builds from identical tables hold the same packages and give the
/// same corpus and the same rendered text.
pub proof fn lemma_build_deterministic(
    all: Seq<PackageView>,
    table: Seq<VersionRecord>,
    count: nat,
    mapping: Seq<(Seq<char>, Seq<char>)>,
    first: Seq<PackageView>,
    second: Seq<PackageView>,
)
    requires
        first == built(all, table, count),
        second == built(all, table, count),
    ensures
        first == second,
        corpus_of(first) == corpus_of(second),
        index_text(mapping, first) == index_text(mapping, second),
{
}

} // verus!
