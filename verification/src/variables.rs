//! The variables of a session, as the parser sees them.

use vstd::prelude::*;

verus! {

/// The value that the newest entry for `key` gives, if there is one.
pub open spec fn newest(entries: Seq<(Seq<char>, Seq<char>)>, key: Seq<char>) -> Option<Seq<char>>
    decreases entries.len(),
{
    if entries.len() == 0 {
        None
    } else if entries.last().0 == key {
        Some(entries.last().1)
    } else {
        newest(entries.drop_last(), key)
    }
}

/// A table of variables: names with their values.
pub struct Variables {
    entries: Vec<(String, String)>,
}

impl View for Variables {
    type V = Map<Seq<char>, Seq<char>>;

    closed spec fn view(&self) -> Map<Seq<char>, Seq<char>> {
        Map::new(
            |key: Seq<char>| newest(self.entries.deep_view(), key) is Some,
            |key: Seq<char>| newest(self.entries.deep_view(), key).unwrap(),
        )
    }
}

impl Variables {
    /// A table without variables.
    pub fn new() -> (variables: Variables)
        ensures
            variables@ == Map::<Seq<char>, Seq<char>>::empty(),
    {
        Variables { entries: Vec::new() }
    }

    /// Gives the variable `key` the value `value`, whether or not it had
    /// one.
    pub fn set(&mut self, key: String, value: String)
        ensures
            final(self)@ == old(self)@.insert(key@, value@),
    {
        let ghost before = self.entries.deep_view();
        self.entries.push((key, value));
        proof {
            let after = self.entries.deep_view();
            assert(after.drop_last() == before);
        }
    }

    /// The value of the variable `key`, if it has one.
    pub fn get(&self, key: &String) -> (value: Option<String>)
        ensures
            value.deep_view() == if self@.dom().contains(key@) {
                Some(self@[key@])
            } else {
                None
            },
    {
        let ghost all = self.entries.deep_view();
        let mut i: usize = self.entries.len();
        assert(all.take(i as int) == all);
        while i > 0
            invariant
                i <= self.entries.len(),
                all == self.entries.deep_view(),
                newest(all.take(i as int), key@) == newest(all, key@),
            decreases i,
        {
            i -= 1;
            proof {
                let upto = all.take(i + 1);
                assert(upto.drop_last() == all.take(i as int));
            }
            if self.entries[i].0 == *key {
                return Some(self.entries[i].1.clone());
            }
        }
        None
    }
}

} // verus!
