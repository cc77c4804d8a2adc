//! The header mapping of a request: name/value pairs in arrival order,
//! read as a map in which the last occurrence of a name wins.
use vstd::prelude::*;

use crate::text::str_eq;

verus! {

/// One header as it arrived: name with its case preserved, value trimmed.
#[derive(Debug)]
pub struct HeaderPair {
    pub name: String,
    pub value: String,
}

/// The mapping that a sequence of (name, value) pairs denotes: pairs are
/// folded in order, so a later occurrence of a name overwrites an earlier one.
pub open spec fn map_of(pairs: Seq<(Seq<char>, Seq<char>)>) -> Map<Seq<char>, Seq<char>>
    decreases pairs.len(),
{
    if pairs.len() == 0 {
        Map::empty()
    } else {
        map_of(pairs.drop_last()).insert(pairs.last().0, pairs.last().1)
    }
}

/// Law: the mapping reads each name through its last occurrence alone. If no
/// later pair carries the same name, the mapping holds this pair's value,
/// whatever stands elsewhere in the sequence.
pub proof fn lemma_map_of_last_wins(pairs: Seq<(Seq<char>, Seq<char>)>, i: int)
    requires
        0 <= i < pairs.len(),
        forall|j: int| i < j < pairs.len() ==> pairs[j].0 != pairs[i].0,
    ensures
        map_of(pairs).contains_key(pairs[i].0),
        map_of(pairs)[pairs[i].0] == pairs[i].1,
    decreases pairs.len(),
{
    if i < pairs.len() - 1 {
        assert(pairs.drop_last()[i] == pairs[i]);
        lemma_map_of_last_wins(pairs.drop_last(), i);
    }
}

/// Law: a name that no pair carries is absent from the mapping.
pub proof fn lemma_map_of_absent(pairs: Seq<(Seq<char>, Seq<char>)>, name: Seq<char>)
    requires
        forall|j: int| 0 <= j < pairs.len() ==> pairs[j].0 != name,
    ensures
        !map_of(pairs).contains_key(name),
    decreases pairs.len(),
{
    if pairs.len() > 0 {
        lemma_map_of_absent(pairs.drop_last(), name);
    }
}

/// Law: a name some pair carries is present in the mapping.
pub proof fn lemma_map_of_present(pairs: Seq<(Seq<char>, Seq<char>)>, i: int)
    requires
        0 <= i < pairs.len(),
    ensures
        map_of(pairs).contains_key(pairs[i].0),
    decreases pairs.len(),
{
    if i < pairs.len() - 1 {
        assert(pairs.drop_last()[i] == pairs[i]);
        lemma_map_of_present(pairs.drop_last(), i);
    }
}

/// The headers of a request, keyed by name.
#[derive(Debug)]
pub struct Headers {
    pub pairs: Vec<HeaderPair>,
}

impl View for Headers {
    type V = Map<Seq<char>, Seq<char>>;

    open spec fn view(&self) -> Map<Seq<char>, Seq<char>> {
        map_of(self.pairs_view())
    }
}

impl Headers {
    /// The (name, value) pairs in the order they arrived.
    pub open spec fn pairs_view(&self) -> Seq<(Seq<char>, Seq<char>)> {
        self.pairs@.map_values(|p: HeaderPair| (p.name@, p.value@))
    }

    /// An empty header block.
    pub fn new() -> (h: Headers)
        ensures
            h.pairs_view() == Seq::<(Seq<char>, Seq<char>)>::empty(),
            h@ == Map::<Seq<char>, Seq<char>>::empty(),
    {
        let h = Headers { pairs: Vec::new() };
        proof {
            assert(h.pairs_view() =~= Seq::<(Seq<char>, Seq<char>)>::empty());
        }
        h
    }

    /// Records one more header; a name seen before is overwritten.
    pub fn insert(&mut self, name: String, value: String)
        ensures
            final (self).pairs_view() == old(self).pairs_view().push((name@, value@)),
            final (self)@ == old(self)@.insert(name@, value@),
    {
        let ghost n = name@;
        let ghost v = value@;
        self.pairs.push(HeaderPair { name, value });
        proof {
            assert(self.pairs_view() =~= old(self).pairs_view().push((n, v)));
            assert(self.pairs_view().drop_last() =~= old(self).pairs_view());
        }
    }

    /// Looks a header up by its exact name.
    pub fn get(&self, name: &str) -> (r: Option<&String>)
        ensures
            match r {
                Some(v) => self@.contains_key(name@) && v@ == self@[name@],
                None => !self@.contains_key(name@),
            },
    {
        let mut i: usize = self.pairs.len();
        while i > 0
            invariant
                i <= self.pairs.len(),
                forall|j: int| i <= j < self.pairs.len() ==> self.pairs_view()[j].0 != name@,
            decreases i,
        {
            i = i - 1;
            if str_eq(self.pairs[i].name.as_str(), name) {
                proof {
                    lemma_map_of_last_wins(self.pairs_view(), i as int);
                }
                return Some(&self.pairs[i].value);
            }
        }
        proof {
            lemma_map_of_absent(self.pairs_view(), name@);
        }
        None
    }

    /// How many headers arrived, occurrences of one name counted apart.
    pub fn len(&self) -> (n: usize)
        ensures
            n == self.pairs_view().len(),
    {
        self.pairs.len()
    }
}

} // verus!
