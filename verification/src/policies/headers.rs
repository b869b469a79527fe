//! Request headers as the policies see them.
//!
//! A mapping from header name to value. Names are matched exactly: whoever
//! fills the mapping lower-cases them first.

use crate::text::same_text;
use vstd::prelude::*;

verus! {

/// The mapping that a list of name-value pairs stands for: of several pairs
/// with one name, the last counts.
pub open spec fn header_map(pairs: Seq<(Seq<char>, Seq<char>)>) -> Map<Seq<char>, Seq<char>>
    decreases pairs.len(),
{
    if pairs.len() == 0 {
        Map::empty()
    } else {
        header_map(pairs.drop_last()).insert(pairs.last().0, pairs.last().1)
    }
}

/// The texts of a list of name-value pairs.
pub open spec fn pair_texts(pairs: Seq<(String, String)>) -> Seq<(Seq<char>, Seq<char>)> {
    pairs.map_values(|p: (String, String)| (p.0@, p.1@))
}

/// The headers of one request.
#[derive(Debug)]
pub struct RequestHeaders {
    entries: Vec<(String, String)>,
}

impl View for RequestHeaders {
    type V = Map<Seq<char>, Seq<char>>;

    closed spec fn view(&self) -> Map<Seq<char>, Seq<char>> {
        header_map(pair_texts(self.entries@))
    }
}

impl RequestHeaders {
    /// No headers.
    pub fn new() -> (headers: Self)
        ensures
            headers@ == Map::<Seq<char>, Seq<char>>::empty(),
    {
        RequestHeaders { entries: Vec::new() }
    }

    /// The headers that `pairs` stands for; of several pairs with one name,
    /// the last counts.
    pub fn from_pairs(pairs: Vec<(String, String)>) -> (headers: Self)
        ensures
            headers@ == header_map(pair_texts(pairs@)),
    {
        RequestHeaders { entries: pairs }
    }

    /// Sets header `name` to `value`, in place of any value it had.
    pub fn insert(&mut self, name: String, value: String)
        ensures
            final(self)@ == old(self)@.insert(name@, value@),
    {
        proof {
            let added = self.entries@.push((name, value));
            assert(pair_texts(added).drop_last() == pair_texts(self.entries@));
            assert(pair_texts(added).last() == (name@, value@));
        }
        self.entries.push((name, value));
    }

    /// The value of header `name`, if it is set.
    pub fn get(&self, name: &str) -> (value: Option<&str>)
        ensures
            value is Some <==> self@.contains_key(name@),
            value is Some ==> value.unwrap()@ == self@[name@],
    {
        let mut i: usize = self.entries.len();
        proof {
            let pairs = pair_texts(self.entries@);
            assert(pairs.take(i as int) == pairs);
        }
        while i > 0
            invariant
                i <= self.entries.len(),
                header_map(pair_texts(self.entries@)).contains_key(name@) == header_map(
                    pair_texts(self.entries@).take(i as int),
                ).contains_key(name@),
                header_map(pair_texts(self.entries@)).contains_key(name@) ==> header_map(
                    pair_texts(self.entries@),
                )[name@] == header_map(pair_texts(self.entries@).take(i as int))[name@],
            decreases i,
        {
            proof {
                let pairs = pair_texts(self.entries@);
                assert(pairs.take(i as int).drop_last() == pairs.take(i - 1));
                assert(pairs.take(i as int).last() == pairs[i - 1]);
            }
            i -= 1;
            if same_text(self.entries[i].0.as_str(), name) {
                return Some(self.entries[i].1.as_str());
            }
        }
        None
    }
}

} // verus!
