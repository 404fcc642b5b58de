//! A football team whose members can be walked through one by one.

use vstd::prelude::*;

verus! {

/// A team: its members in roster order.
pub struct FootballTeam {
    members: Vec<String>,
}

impl FootballTeam {
    /// The members, in roster order.
    pub closed spec fn spec_members(&self) -> Seq<String> {
        self.members@
    }

    /// A team with exactly these members.
    pub fn new(members: Vec<String>) -> (t: FootballTeam)
        ensures
            t.spec_members() == members@,
    {
        FootballTeam { members }
    }

    /// A look at the members, in roster order.
    pub fn members(&self) -> (r: &Vec<String>)
        ensures
            r@ == self.spec_members(),
    {
        &self.members
    }

    /// Hands the members out, in roster order.
    pub fn into_members(self) -> (r: Vec<String>)
        ensures
            r@ == self.spec_members(),
    {
        self.members
    }
}

} // verus!
