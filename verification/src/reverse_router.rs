//! The reverse router returns composed route paths by their name.

use vstd::prelude::*;
use crate::RouteError;

verus! {

/// The views of a sequence of owned string pairs.
pub open spec fn pair_views(s: Seq<(String, String)>) -> Seq<(Seq<char>, Seq<char>)> {
    s.map_values(|p: (String, String)| (p.0@, p.1@))
}

/// The map obtained by inserting every pair of `ps` in order, a later pair
/// overwriting an earlier one that shares its key.
pub open spec fn map_of_pairs(ps: Seq<(Seq<char>, Seq<char>)>) -> Map<Seq<char>, Seq<char>>
    decreases ps.len(),
{
    if ps.len() == 0 {
        Map::empty()
    } else {
        map_of_pairs(ps.drop_last()).insert(ps.last().0, ps.last().1)
    }
}

proof fn lemma_map_of_pairs_found(ps: Seq<(Seq<char>, Seq<char>)>, i: int, k: Seq<char>)
    requires
        0 <= i < ps.len(),
        ps[i].0 == k,
        forall|j: int| i < j < ps.len() ==> ps[j].0 != k,
    ensures
        map_of_pairs(ps).contains_key(k),
        map_of_pairs(ps)[k] == ps[i].1,
    decreases ps.len(),
{
    if i == ps.len() - 1 {
    } else {
        assert(ps.last().0 != k);
        lemma_map_of_pairs_found(ps.drop_last(), i, k);
    }
}

proof fn lemma_map_of_pairs_absent(ps: Seq<(Seq<char>, Seq<char>)>, k: Seq<char>)
    requires
        forall|j: int| 0 <= j < ps.len() ==> ps[j].0 != k,
    ensures
        !map_of_pairs(ps).contains_key(k),
    decreases ps.len(),
{
    if ps.len() == 0 {
    } else {
        lemma_map_of_pairs_absent(ps.drop_last(), k);
    }
}

/// Stores composed route paths by route name.
#[derive(Debug)]
pub struct ReverseRouter {
    entries: Vec<(String, String)>,
}

impl View for ReverseRouter {
    type V = Map<Seq<char>, Seq<char>>;

    closed spec fn view(&self) -> Map<Seq<char>, Seq<char>> {
        map_of_pairs(pair_views(self.entries@))
    }
}

impl ReverseRouter {
    /// Construct an empty named-routes index.
    pub fn new() -> (r: ReverseRouter)
        ensures
            r@ == Map::<Seq<char>, Seq<char>>::empty(),
    {
        ReverseRouter { entries: Vec::new() }
    }

    /// Insert a named route; a later insert for the same name overwrites an
    /// earlier one.
    pub fn insert(&mut self, name: &str, route: &str)
        ensures
            final(self)@ == old(self)@.insert(name@, route@),
    {
        self.entries.push((name.to_owned(), route.to_owned()));
        proof {
            assert(pair_views(self.entries@).drop_last() =~= pair_views(old(self).entries@));
            assert(pair_views(self.entries@).last() == (name@, route@));
        }
    }

    /// Resolve a named route to its stored composed path, or report that the
    /// name was never registered.  Substituting parameter values into the
    /// path is the consumer's concern; the path is returned as stored.
    pub fn resolve(&self, name: &str, _params: Params) -> (r: Result<String, RouteError>)
        ensures
            match r {
                Ok(route) => self@.contains_key(name@) && route@ == self@[name@],
                Err(e) => e == RouteError::NotFound && !self@.contains_key(name@),
            },
    {
        let target: String = name.to_owned();
        let mut i: usize = self.entries.len();
        while i > 0
            invariant
                i <= self.entries.len(),
                target@ == name@,
                forall|j: int|
                    i <= j < self.entries@.len() ==> pair_views(self.entries@)[j].0 != name@,
            decreases i,
        {
            i = i - 1;
            let hit: bool = self.entries[i].0 == target;
            if hit {
                proof {
                    lemma_map_of_pairs_found(pair_views(self.entries@), i as int, name@);
                }
                return Ok(self.entries[i].1.clone());
            }
        }
        proof {
            lemma_map_of_pairs_absent(pair_views(self.entries@), name@);
        }
        Err(RouteError::NotFound)
    }
}

/// Parameters intended for substitution into a resolved path, built from
/// plain key-value pairs.
#[derive(Debug, Clone, PartialEq)]
pub struct Params {
    entries: Vec<(String, String)>,
}

impl View for Params {
    type V = Map<Seq<char>, Seq<char>>;

    closed spec fn view(&self) -> Map<Seq<char>, Seq<char>> {
        map_of_pairs(pair_views(self.entries@))
    }
}

impl Params {
    /// Create new, empty params.
    pub fn new() -> (p: Params)
        ensures
            p@ == Map::<Seq<char>, Seq<char>>::empty(),
    {
        Params { entries: Vec::new() }
    }

    /// Insert a parameter; a later insert for the same name overwrites an
    /// earlier one.
    pub fn insert(&mut self, param: &str, value: &str)
        ensures
            final(self)@ == old(self)@.insert(param@, value@),
    {
        self.entries.push((param.to_owned(), value.to_owned()));
        proof {
            assert(pair_views(self.entries@).drop_last() =~= pair_views(old(self).entries@));
            assert(pair_views(self.entries@).last() == (param@, value@));
        }
    }
}

} // verus!
