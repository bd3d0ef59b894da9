//! The token corpus: identifier pieces and shortened descriptions, in the
//! order the packages are processed.

use vstd::prelude::*;

verus! {

/// Case folding of `s` as `str::to_lowercase` does it.
pub uninterp spec fn lower_of(s: Seq<char>) -> Seq<char>;

/// `s` without leading and trailing whitespace, as `str::trim` gives it.
pub uninterp spec fn trimmed(s: Seq<char>) -> Seq<char>;

/// Relies on `str::to_lowercase`: the result depends on the text alone.
#[verifier::external_body]
fn lowercase(s: &str) -> (r: String)
    ensures
        r@ == lower_of(s@),
{
    s.to_lowercase()
}

/// Relies on `str::trim`: the result depends on the text alone.
#[verifier::external_body]
fn trim(s: &str) -> (r: &str)
    ensures
        r@ == trimmed(s@),
{
    s.trim()
}

/// Relies on `str::chars` collected into a vector: the characters of `s`.
#[verifier::external_body]
fn chars_of(s: &str) -> (r: Vec<char>)
    ensures
        r@ == s@,
{
    s.chars().collect()
}

/// Relies on `String: FromIterator<&char>`: the string of those characters.
#[verifier::external_body]
fn string_of(cs: &[char]) -> (r: String)
    ensures
        r@ == cs@,
{
    cs.iter().collect()
}

/// `s` with every hyphen replaced by an underscore.
pub open spec fn underscored(s: Seq<char>) -> Seq<char> {
    s.map_values(|c: char| if c == '-' { '_' } else { c })
}

/// The pieces of `s` between underscores, in order: one more piece than
/// `s` has underscores, empty pieces included.
pub open spec fn pieces(s: Seq<char>) -> Seq<Seq<char>>
    decreases s.len(),
{
    if s.len() == 0 {
        seq![Seq::empty()]
    } else {
        let p = pieces(s.drop_last());
        if s.last() == '_' {
            p.push(Seq::empty())
        } else {
            p.update(p.len() - 1, p.last().push(s.last()))
        }
    }
}

/// Whether a piece is long enough to be a token: at least three characters.
pub open spec fn long_enough(w: Seq<char>) -> bool {
    w.len() >= 3
}

/// The tokens of an identifier: hyphens read as underscores, the whole
/// case-folded, split at underscores, and pieces under three characters left
/// out.
pub open spec fn id_tokens(value: Seq<char>) -> Seq<Seq<char>> {
    pieces(lower_of(underscored(value))).filter(keeps_piece())
}

/// `long_enough` as a predicate on pieces.
pub open spec fn keeps_piece() -> spec_fn(Seq<char>) -> bool {
    |w: Seq<char>| long_enough(w)
}

/// The longest description kept in the corpus, in characters.
pub const MAX_DESCRIPTION_CHARS: usize = 100;

/// Text cut to its first hundred characters (a cut between characters never
/// splits one); shorter text stays whole.
pub open spec fn cut_text(t: Seq<char>) -> Seq<char> {
    if t.len() > MAX_DESCRIPTION_CHARS {
        t.take(MAX_DESCRIPTION_CHARS as int)
    } else {
        t
    }
}

/// A description as the corpus holds it: trimmed, then cut.
pub open spec fn short_description(value: Seq<char>) -> Seq<char> {
    cut_text(trimmed(value))
}

/// Collects the words of the corpus.
#[derive(Debug)]
pub struct WordCollector {
    pub words: Vec<String>,
}

impl View for WordCollector {
    type V = Seq<Seq<char>>;

    open spec fn view(&self) -> Seq<Seq<char>> {
        self.words@.map_values(|w: String| w@)
    }
}

impl WordCollector {
    /// An empty collector.
    pub fn new() -> (r: WordCollector)
        ensures
            r@ == Seq::<Seq<char>>::empty(),
    {
        let r = WordCollector { words: Vec::new() };
        assert(r@ =~= Seq::<Seq<char>>::empty());
        r
    }

    fn push_word(&mut self, w: String)
        ensures
            final(self)@ == old(self)@.push(w@),
    {
        self.words.push(w);
        assert(self@ =~= old(self)@.push(w@));
    }

    /// Appends the tokens of a package identifier: hyphens read as
    /// underscores, the whole case-folded, then split as
    /// `collect_folded_id` does.
    pub fn collect_crate_id(&mut self, value: &str)
        ensures
            final(self)@ == old(self)@ + id_tokens(value@),
    {
        let mut chars = chars_of(value);
        let mut k: usize = 0;
        while k < chars.len()
            invariant
                chars@.len() == value@.len(),
                k <= chars@.len(),
                forall|j: int| 0 <= j < k ==> chars@[j] == underscored(value@)[j],
                forall|j: int| k <= j < chars@.len() ==> chars@[j] == value@[j],
            decreases chars@.len() - k,
        {
            if chars[k] == '-' {
                chars.set(k, '_');
            }
            k = k + 1;
        }
        assert(chars@ =~= underscored(value@));
        let joined = string_of(chars.as_slice());
        let low_text = lowercase(joined.as_str());
        self.collect_folded_id(low_text.as_str());
    }

    /// Appends the pieces of an already case-folded identifier, split at
    /// underscores, that have at least three characters, in order.
    pub fn collect_folded_id(&mut self, folded: &str)
        ensures
            final(self)@ == old(self)@ + pieces(folded@).filter(keeps_piece()),
    {
        let low = chars_of(folded);
        let ghost text = low@;
        let ghost start = self@;
        let ghost pred = keeps_piece();
        let ghost mut done: Seq<Seq<char>> = Seq::empty();
        let mut cur: Vec<char> = Vec::new();
        let mut i: usize = 0;
        while i < low.len()
            invariant
                low@ == text,
                text == folded@,
                pred == keeps_piece(),
                i <= text.len(),
                pieces(text.take(i as int)) == done.push(cur@),
                self@ == start + done.filter(pred),
            decreases text.len() - i,
        {
            let c = low[i];
            proof {
                assert(text.take(i + 1).drop_last() =~= text.take(i as int));
                assert(text.take(i + 1).last() == c);
            }
            if c == '_' {
                proof {
                    assert(done.push(cur@).drop_last() =~= done);
                    assert(done.push(cur@).last() == cur@);
                    reveal(Seq::filter);
                    assert(done.push(cur@).filter(pred) == (if long_enough(cur@) {
                        done.filter(pred).push(cur@)
                    } else {
                        done.filter(pred)
                    }));
                }
                if cur.len() >= 3 {
                    let w = string_of(cur.as_slice());
                    self.push_word(w);
                    assert(self@ =~= start + done.filter(pred).push(cur@));
                }
                proof {
                    done = done.push(cur@);
                }
                cur = Vec::new();
                proof {
                    assert(cur@ =~= Seq::<char>::empty());
                }
            } else {
                let ghost old_cur = cur@;
                cur.push(c);
                proof {
                    assert(cur@.drop_last() =~= old_cur);
                    assert(done.push(old_cur).update(done.len() as int, old_cur.push(c))
                        =~= done.push(cur@));
                }
            }
            i = i + 1;
        }
        proof {
            assert(text.take(text.len() as int) =~= text);
            assert(done.push(cur@).drop_last() =~= done);
        }
        let ghost all = done.push(cur@);
        assert(all.drop_last() =~= done && all.last() == cur@);
        proof {
            reveal(Seq::filter);
        }
        assert(all.filter(pred) == (if long_enough(cur@) {
            done.filter(pred).push(cur@)
        } else {
            done.filter(pred)
        }));
        if cur.len() >= 3 {
            let w = string_of(cur.as_slice());
            self.push_word(w);
            assert(self@ =~= start + done.filter(pred).push(cur@));
        }
    }

    /// Appends a package description, trimmed and cut to at most a hundred
    /// characters.
    pub fn collect_crate_description(&mut self, value: &str)
        ensures
            final(self)@ == old(self)@.push(short_description(value@)),
    {
        let t = trim(value);
        self.collect_trimmed_description(t);
    }

    /// Appends an already trimmed description, cut to its first hundred
    /// characters when it is longer.
    pub fn collect_trimmed_description(&mut self, t: &str)
        ensures
            final(self)@ == old(self)@.push(cut_text(t@)),
    {
        let mut cs = chars_of(t);
        if cs.len() > MAX_DESCRIPTION_CHARS {
            cs.truncate(MAX_DESCRIPTION_CHARS);
        }
        let d = string_of(cs.as_slice());
        self.push_word(d);
    }
}

} // verus!
