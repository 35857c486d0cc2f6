//! Variable storage: a mapping from names to values.
use crate::token::{LiteralValue, Val};
use vstd::prelude::*;

verus! {

/// The mapping that a list of definitions gives, the last definition of a name winning.
pub open spec fn bindings(s: Seq<(Seq<char>, Val)>) -> Map<Seq<char>, Val>
    decreases s.len(),
{
    if s.len() == 0 {
        Map::empty()
    } else {
        bindings(s.drop_last()).insert(s.last().0, s.last().1)
    }
}

/// A mapping from variable names to values, held as the list of its
/// definitions in order.
pub struct Environment {
    values: Vec<(String, LiteralValue)>,
}

impl View for Environment {
    type V = Map<Seq<char>, Val>;

    closed spec fn view(&self) -> Map<Seq<char>, Val> {
        bindings(self.values@.map_values(|p: (String, LiteralValue)| (p.0@, p.1@)))
    }
}

impl Environment {
    pub fn new() -> (r: Environment)
        ensures
            r@ == Map::<Seq<char>, Val>::empty(),
    {
        Environment { values: Vec::new() }
    }

    /// Binds `name` to `value`, replacing any earlier binding of it.
    pub fn define(&mut self, name: String, value: LiteralValue)
        ensures
            final(self)@ == old(self)@.insert(name@, value@),
    {
        let ghost before = self.values@;
        self.values.push((name, value));
        assert(self.values@.map_values(|p: (String, LiteralValue)| (p.0@, p.1@)).drop_last()
            =~= before.map_values(|p: (String, LiteralValue)| (p.0@, p.1@)));
    }

    /// The value bound to `name`.
    pub fn get(&self, name: String) -> (r: Result<LiteralValue, String>)
        ensures
            match r {
                Ok(v) => self@.contains_key(name@) && v@ == self@[name@],
                Err(msg) => !self@.contains_key(name@) && msg@ == "Variable declaration not found "@,
            },
    {
        let ghost s = self.values@.map_values(|p: (String, LiteralValue)| (p.0@, p.1@));
        let mut i = self.values.len();
        assert(s.take(i as int) =~= s);
        while i > 0
            invariant
                i <= self.values@.len(),
                s == self.values@.map_values(|p: (String, LiteralValue)| (p.0@, p.1@)),
                bindings(s).contains_key(name@) == bindings(s.take(i as int)).contains_key(name@),
                bindings(s).contains_key(name@) ==> bindings(s)[name@] == bindings(
                    s.take(i as int),
                )[name@],
            decreases i,
        {
            assert(s.take(i as int).drop_last() =~= s.take(i - 1));
            if self.values[i - 1].0 == name {
                return Ok(self.values[i - 1].1.duplicate());
            }
            i = i - 1;
        }
        assert(s.take(0) =~= Seq::<(Seq<char>, Val)>::empty());
        Err(String::from_str("Variable declaration not found "))
    }
}

} // verus!
