//! Rendering the index as script text: a null alias, the substitution
//! dictionary, and the package index keyed by (possibly minified) name.

use crate::package::{packages_view, PackageRecord, PackageView};
use vstd::prelude::*;

verus! {

/// A lower-case hexadecimal digit, for `d < 16`.
pub open spec fn hex_digit(d: u32) -> char {
    seq!['0', '1', '2', '3', '4', '5', '6', '7', '8', '9', 'a', 'b', 'c', 'd', 'e', 'f'][d as int]
}

/// How a character stands inside a JSON string literal: a quote and a
/// backslash are escaped, control characters take their short escape or
/// `\u00XX`, and every other character stands as it is.
pub open spec fn json_char(c: char) -> Seq<char> {
    if c == '"' {
        seq!['\\', '"']
    } else if c == '\\' {
        seq!['\\', '\\']
    } else if c == '\u{8}' {
        seq!['\\', 'b']
    } else if c == '\t' {
        seq!['\\', 't']
    } else if c == '\n' {
        seq!['\\', 'n']
    } else if c == '\u{c}' {
        seq!['\\', 'f']
    } else if c == '\r' {
        seq!['\\', 'r']
    } else if (c as u32) < 0x20 {
        seq!['\\', 'u', '0', '0', hex_digit((c as u32) / 16), hex_digit((c as u32) % 16)]
    } else {
        seq![c]
    }
}

/// The JSON string literal for `s`: quotes round its escaped characters.
pub open spec fn json_string(s: Seq<char>) -> Seq<char> {
    seq!['"'] + s.map_values(|c: char| json_char(c)).flatten() + seq!['"']
}

/// Relies on `serde_json::to_string` on a string slice, which writes the
/// literal through its escape table (quote, backslash and control
/// characters escaped, lower-case hex digits). Serialising a `str` into
/// memory does not fail.
#[verifier::external_body]
fn quote(s: &str) -> (r: String)
    ensures
        r@ == json_string(s@),
{
    serde_json::to_string(s).unwrap()
}

/// What the index holds for a package: key, description, version.
pub type EntryView = (Seq<char>, Option<Seq<char>>, Seq<char>);

pub open spec fn entry_of(p: PackageView) -> EntryView {
    (p.1, p.3, p.4)
}

/// Whether a package before position `i` has the same name as the one at `i`.
pub open spec fn name_seen(s: Seq<PackageView>, i: int) -> bool {
    exists|j: int| 0 <= j < i && #[trigger] s[j].1 == s[i].1
}

/// The entries of the index: one per package, in order, where a package
/// whose name came earlier is left out (the first one of a name stays).
pub open spec fn index_entries(s: Seq<PackageView>) -> Seq<EntryView>
    decreases s.len(),
{
    if s.len() == 0 {
        Seq::empty()
    } else {
        let p = index_entries(s.drop_last());
        if name_seen(s, s.len() - 1) {
            p
        } else {
            p.push(entry_of(s.last()))
        }
    }
}

/// The parts joined with commas between them.
pub open spec fn joined(parts: Seq<Seq<char>>) -> Seq<char>
    decreases parts.len(),
{
    if parts.len() == 0 {
        Seq::empty()
    } else if parts.len() == 1 {
        parts[0]
    } else {
        joined(parts.drop_last()) + ","@ + parts.last()
    }
}

/// `"token":"substitute"`.
pub open spec fn pair_text(p: (Seq<char>, Seq<char>)) -> Seq<char> {
    json_string(p.0) + ":"@ + json_string(p.1)
}

/// `"key":["description",version]`, with `N` for an absent description.
pub open spec fn entry_text(e: EntryView) -> Seq<char> {
    json_string(e.0) + ":["@ + match e.1 {
        Some(d) => json_string(d),
        None => "N"@,
    } + ","@ + json_string(e.2) + "]"@
}

pub open spec fn mapping_view(m: Seq<(String, String)>) -> Seq<(Seq<char>, Seq<char>)> {
    m.map_values(|p: (String, String)| (p.0@, p.1@))
}

/// The whole script text for a dictionary and a list of packages.
pub open spec fn index_text(mapping: Seq<(Seq<char>, Seq<char>)>, packages: Seq<PackageView>) -> Seq<char> {
    "var N=null;var mapping={"@ + joined(mapping.map_values(|p: (Seq<char>, Seq<char>)| pair_text(p)))
        + "};var crateIndex={"@ + joined(index_entries(packages).map_values(|e: EntryView| entry_text(e)))
        + "};"@
}

/// The parts joined so far, one more appended.
proof fn lemma_joined_push(parts: Seq<Seq<char>>, x: Seq<char>)
    ensures
        joined(parts.push(x)) == if parts.len() == 0 {
            x
        } else {
            joined(parts) + ","@ + x
        },
{
    assert(parts.push(x).drop_last() =~= parts);
}

/// Whether some package before position `i` has the name of the one at `i`.
fn seen_before(packages: &Vec<PackageRecord>, i: usize) -> (r: bool)
    requires
        i < packages@.len(),
    ensures
        r == name_seen(packages_view(packages@), i as int),
{
    let ghost pv = packages_view(packages@);
    let mut j: usize = 0;
    while j < i
        invariant
            i < packages@.len(),
            j <= i,
            pv == packages_view(packages@),
            forall|k: int| 0 <= k < j ==> pv[k].1 != pv[i as int].1,
        decreases i - j,
    {
        if packages[j].name == packages[i].name {
            assert(pv[j as int].1 == pv[i as int].1);
            return true;
        }
        j = j + 1;
    }
    assert(!name_seen(pv, i as int)) by {
        if name_seen(pv, i as int) {
            let k = choose|k: int| 0 <= k < i && #[trigger] pv[k].1 == pv[i as int].1;
            assert(pv[k].1 != pv[i as int].1);
        }
    }
    false
}

/// Appends `"key":["description",version]` for a package.
fn push_entry(out: &mut String, p: &PackageRecord)
    ensures
        final(out)@ == old(out)@ + entry_text(entry_of(p@)),
{
    let ghost start = out@;
    let k = quote(p.name.as_str());
    out.append(k.as_str());
    out.append(":[");
    match &p.description {
        Some(d) => {
            let q = quote(d.as_str());
            out.append(q.as_str());
        },
        None => {
            out.append("N");
        },
    }
    out.append(",");
    let v = quote(p.version.as_str());
    out.append(v.as_str());
    out.append("]");
    assert(out@ =~= start + entry_text(entry_of(p@)));
}

/// Appends the dictionary's pairs, joined with commas.
fn append_pairs(out: &mut String, mapping: &Vec<(String, String)>)
    ensures
        final(out)@ == old(out)@ + joined(
            mapping_view(mapping@).map_values(|p: (Seq<char>, Seq<char>)| pair_text(p)),
        ),
{
    let ghost pairs = mapping_view(mapping@).map_values(|p: (Seq<char>, Seq<char>)| pair_text(p));
    let ghost head = out@;
    let mut i: usize = 0;
    while i < mapping.len()
        invariant
            i <= mapping@.len(),
            pairs == mapping_view(mapping@).map_values(|p: (Seq<char>, Seq<char>)| pair_text(p)),
            out@ == head + joined(pairs.take(i as int)),
        decreases mapping@.len() - i,
    {
        let ghost before = out@;
        if i > 0 {
            out.append(",");
        }
        let k = quote(mapping[i].0.as_str());
        out.append(k.as_str());
        out.append(":");
        let v = quote(mapping[i].1.as_str());
        out.append(v.as_str());
        proof {
            assert(pairs.take(i + 1) =~= pairs.take(i as int).push(pairs[i as int]));
            lemma_joined_push(pairs.take(i as int), pairs[i as int]);
            if i > 0 {
                assert(out@ =~= head + (joined(pairs.take(i as int)) + ","@ + pairs[i as int]));
            } else {
                assert(out@ =~= head + pairs[i as int]);
            }
        }
        i = i + 1;
    }
    assert(pairs.take(mapping@.len() as int) =~= pairs);
}

/// Appends one entry per package name, joined with commas.
fn append_entries(out: &mut String, packages: &Vec<PackageRecord>)
    ensures
        final(out)@ == old(out)@ + joined(
            index_entries(packages_view(packages@)).map_values(|e: EntryView| entry_text(e)),
        ),
{
    let ghost middle = out@;
    let ghost pv = packages_view(packages@);
    let mut n: usize = 0;
    let mut i: usize = 0;
    while i < packages.len()
        invariant
            i <= packages@.len(),
            pv == packages_view(packages@),
            n == index_entries(pv.take(i as int)).len(),
            n <= i,
            out@ == middle + joined(
                index_entries(pv.take(i as int)).map_values(|e: EntryView| entry_text(e)),
            ),
        decreases packages@.len() - i,
    {
        let ghost es = index_entries(pv.take(i as int));
        let ghost texts = es.map_values(|e: EntryView| entry_text(e));
        proof {
            let t = pv.take(i + 1);
            assert(t.drop_last() =~= pv.take(i as int));
            assert(t.last() == pv[i as int]);
            assert(name_seen(t, i as int) == name_seen(pv, i as int)) by {
                if name_seen(pv, i as int) {
                    let j = choose|j: int| 0 <= j < i && #[trigger] pv[j].1 == pv[i as int].1;
                    assert(t[j].1 == t[i as int].1);
                }
                if name_seen(t, i as int) {
                    let j = choose|j: int| 0 <= j < i && #[trigger] t[j].1 == t[i as int].1;
                    assert(pv[j].1 == pv[i as int].1);
                }
            }
        }
        if !seen_before(packages, i) {
            if n > 0 {
                out.append(",");
            }
            push_entry(out, &packages[i]);
            proof {
                let e = entry_of(pv[i as int]);
                assert(es.push(e).map_values(|e: EntryView| entry_text(e)) =~= texts.push(entry_text(e)));
                lemma_joined_push(texts, entry_text(e));
                if n > 0 {
                    assert(out@ =~= middle + (joined(texts) + ","@ + entry_text(e)));
                } else {
                    assert(out@ =~= middle + entry_text(e));
                }
            }
            n = n + 1;
        }
        i = i + 1;
    }
    assert(pv.take(pv.len() as int) =~= pv);
}

/// Renders the script text: the null alias, the dictionary `mapping` in its
/// order, and one index entry per package name, in package order.
pub fn generate_javascript_crates_index(mapping: &Vec<(String, String)>, packages: &Vec<PackageRecord>) -> (r: String)
    ensures
        r@ == index_text(mapping_view(mapping@), packages_view(packages@)),
{
    let mut out = String::new();
    out.append("var N=null;var mapping={");
    append_pairs(&mut out, mapping);
    out.append("};var crateIndex={");
    append_entries(&mut out, packages);
    out.append("};");
    assert(out@ =~= index_text(mapping_view(mapping@), packages_view(packages@)));
    out
}

} // verus!
