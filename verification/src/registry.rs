//! The registry of active agents: which trip each agent that is on the
//! map right now belongs to.

use crate::ids::{AgentID, TripID};
use vstd::prelude::*;

verus! {

/// A finite map from agents to trips, kept as a list in the order of the
/// agents.
#[derive(Clone, Debug, PartialEq, Eq)]
pub struct ActiveAgents {
    entries: Vec<(AgentID, TripID)>,
}

/// Whether no agent occurs twice in `s`.
pub open spec fn distinct_agents(s: Seq<(AgentID, TripID)>) -> bool {
    forall|i: int, j: int| 0 <= i < j < s.len() ==> (#[trigger] s[i]).0 != (#[trigger] s[j]).0
}

/// Whether the agents of `s` stand in their order, each before the next.
pub open spec fn sorted_agents(s: Seq<(AgentID, TripID)>) -> bool {
    forall|i: int, j: int|
        0 <= i < j < s.len() ==> (#[trigger] s[i]).0.spec_precedes((#[trigger] s[j]).0)
}

/// Whether `a` occurs in `s`.
pub open spec fn has_agent(s: Seq<(AgentID, TripID)>, a: AgentID) -> bool {
    exists|i: int| 0 <= i < s.len() && (#[trigger] s[i]).0 == a
}

/// A place at which `a` occurs in `s`, if it occurs.
pub open spec fn place_of(s: Seq<(AgentID, TripID)>, a: AgentID) -> int {
    choose|i: int| 0 <= i < s.len() && (#[trigger] s[i]).0 == a
}

/// The map that the list `s` stands for.
pub open spec fn as_map(s: Seq<(AgentID, TripID)>) -> Map<AgentID, TripID> {
    Map::new(|a: AgentID| has_agent(s, a), |a: AgentID| s[place_of(s, a)].1)
}

/// The agents of `s`, in its order.
pub open spec fn agents_of(s: Seq<(AgentID, TripID)>) -> Seq<AgentID> {
    Seq::new(s.len(), |i: int| s[i].0)
}

/// In a list without repeated agents, every agent has one place.
pub proof fn lemma_place(s: Seq<(AgentID, TripID)>, i: int)
    requires
        distinct_agents(s),
        0 <= i < s.len(),
    ensures
        has_agent(s, s[i].0),
        place_of(s, s[i].0) == i,
        as_map(s).dom().contains(s[i].0),
        as_map(s)[s[i].0] == s[i].1,
{
    let a = s[i].0;
    assert(has_agent(s, a));
    let j = place_of(s, a);
    assert(0 <= j < s.len() && s[j].0 == a);
    if j < i {
        assert(s[j].0 != s[i].0);
    } else if i < j {
        assert(s[i].0 != s[j].0);
    }
}

/// In a list that stands in the order of its agents, no agent occurs twice.
pub proof fn lemma_sorted(s: Seq<(AgentID, TripID)>)
    requires
        sorted_agents(s),
    ensures
        distinct_agents(s),
{
    assert forall|i: int, j: int| 0 <= i < j < s.len() implies (#[trigger] s[i]).0 != (
    #[trigger] s[j]).0 by {
        AgentID::order_is_total(s[i].0, s[j].0, s[j].0);
    }
}

proof fn lemma_insert(s: Seq<(AgentID, TripID)>, at: int, a: AgentID, t: TripID)
    requires
        sorted_agents(s),
        0 <= at <= s.len(),
        forall|j: int| 0 <= j < at ==> (#[trigger] s[j]).0.spec_precedes(a),
        at < s.len() ==> !s[at].0.spec_precedes(a),
        !has_agent(s, a),
    ensures
        sorted_agents(s.insert(at, (a, t))),
        as_map(s.insert(at, (a, t))) == as_map(s).insert(a, t),
{
    let s2 = s.insert(at, (a, t));
    lemma_sorted(s);
    assert forall|i: int, j: int| 0 <= i < j < s2.len() implies (#[trigger] s2[i]).0.spec_precedes(
        (#[trigger] s2[j]).0,
    ) by {
        let i0 = if i < at { i } else { i - 1 };
        let j0 = if j < at { j } else { j - 1 };
        if i == at {
            assert(s[at].0 != a);
            AgentID::order_is_total(a, s[at].0, s[j0].0);
            if j0 > at {
                assert(s[at].0.spec_precedes(s[j0].0));
            }
        } else if j == at {
            assert(s[i0].0.spec_precedes(a));
        } else {
            assert(s[i0].0.spec_precedes(s[j0].0));
        }
    }
    lemma_sorted(s2);
    assert forall|k: AgentID| #[trigger]
        as_map(s2).dom().contains(k) == as_map(s).insert(a, t).dom().contains(k) by {
        if has_agent(s2, k) {
            let i = place_of(s2, k);
            if i != at {
                let i0 = if i < at { i } else { i - 1 };
                assert(s[i0].0 == k);
            }
        }
        if k == a {
            assert(s2[at].0 == a);
        } else if has_agent(s, k) {
            let i = place_of(s, k);
            let i2 = if i < at { i } else { i + 1 };
            assert(s2[i2].0 == k);
        }
    }
    assert forall|k: AgentID| #[trigger]
        as_map(s2).dom().contains(k) implies as_map(s2)[k] == as_map(s).insert(a, t)[k] by {
        let i = place_of(s2, k);
        lemma_place(s2, i);
        if k != a {
            assert(i != at);
            let i0 = if i < at { i } else { i - 1 };
            lemma_place(s, i0);
        } else {
            lemma_place(s2, at);
        }
    }
    assert(as_map(s2) =~= as_map(s).insert(a, t));
}

proof fn lemma_remove(s: Seq<(AgentID, TripID)>, i: int)
    requires
        distinct_agents(s),
        0 <= i < s.len(),
    ensures
        distinct_agents(s.remove(i)),
        as_map(s.remove(i)) == as_map(s).remove(s[i].0),
{
    let s2 = s.remove(i);
    let a = s[i].0;
    assert forall|x: int, y: int| 0 <= x < y < s2.len() implies (#[trigger] s2[x]).0 != (
    #[trigger] s2[y]).0 by {
        let x0 = if x < i { x } else { x + 1 };
        let y0 = if y < i { y } else { y + 1 };
        assert(s[x0].0 != s[y0].0);
    }
    assert forall|k: AgentID| #[trigger]
        as_map(s2).dom().contains(k) == as_map(s).remove(a).dom().contains(k) by {
        if has_agent(s2, k) {
            let x = place_of(s2, k);
            let x0 = if x < i { x } else { x + 1 };
            assert(s[x0].0 == k);
            lemma_place(s, x0);
            lemma_place(s, i);
        }
        if k != a && has_agent(s, k) {
            let x0 = place_of(s, k);
            let x = if x0 < i { x0 } else { x0 - 1 };
            assert(s2[x].0 == k);
        }
    }
    assert forall|k: AgentID| #[trigger]
        as_map(s2).dom().contains(k) implies as_map(s2)[k] == as_map(s).remove(a)[k] by {
        let x = place_of(s2, k);
        lemma_place(s2, x);
        let x0 = if x < i { x } else { x + 1 };
        lemma_place(s, x0);
    }
    assert(as_map(s2) =~= as_map(s).remove(a));
}

proof fn lemma_remove_sorted(s: Seq<(AgentID, TripID)>, i: int)
    requires
        sorted_agents(s),
        0 <= i < s.len(),
    ensures
        sorted_agents(s.remove(i)),
{
    let s2 = s.remove(i);
    assert forall|x: int, y: int| 0 <= x < y < s2.len() implies (#[trigger] s2[x]).0.spec_precedes(
        (#[trigger] s2[y]).0,
    ) by {
        let x0 = if x < i { x } else { x + 1 };
        let y0 = if y < i { y } else { y + 1 };
        assert(s[x0].0.spec_precedes(s[y0].0));
    }
}

proof fn lemma_size(s: Seq<(AgentID, TripID)>)
    requires
        distinct_agents(s),
    ensures
        as_map(s).dom().finite(),
        as_map(s).dom().len() == s.len(),
        agents_of(s).no_duplicates(),
        agents_of(s).to_set() == as_map(s).dom(),
{
    let keys = agents_of(s);
    assert forall|i: int, j: int| 0 <= i < keys.len() && 0 <= j < keys.len() && i != j implies keys[i]
        != keys[j] by {
        if i < j {
            assert(s[i].0 != s[j].0);
        } else {
            assert(s[j].0 != s[i].0);
        }
    }
    assert forall|k: AgentID| #[trigger] keys.to_set().contains(k) == as_map(s).dom().contains(k) by {
        if keys.to_set().contains(k) {
            let i = choose|i: int| 0 <= i < keys.len() && keys[i] == k;
            assert(s[i].0 == k);
        }
        if has_agent(s, k) {
            let i = place_of(s, k);
            assert(keys[i] == k);
        }
    }
    assert(keys.to_set() =~= as_map(s).dom());
    keys.unique_seq_to_set();
}

impl ActiveAgents {
    /// The bindings in the order in which they are kept.
    pub closed spec fn entries(&self) -> Seq<(AgentID, TripID)> {
        self.entries@
    }

    /// The bindings stand in the order of their agents, so that no agent
    /// is bound twice.
    pub open spec fn wf(&self) -> bool {
        sorted_agents(self.entries())
    }

    /// The registry without any binding.
    pub fn new() -> (r: ActiveAgents)
        ensures
            r.wf(),
            r@ == Map::<AgentID, TripID>::empty(),
            r.entries().len() == 0,
    {
        let r = ActiveAgents { entries: Vec::new() };
        assert(r@ =~= Map::<AgentID, TripID>::empty());
        r
    }

    /// Whether the agents of `list` stand in their order, each before the
    /// next, so that the list can be a registry.
    pub fn is_sorted(list: &Vec<(AgentID, TripID)>) -> (b: bool)
        ensures
            b == sorted_agents(list@),
    {
        let mut i: usize = 1;
        while i < list.len()
            invariant
                1 <= i,
                forall|x: int, y: int|
                    0 <= x < y < i && y < list@.len() ==> (#[trigger] list@[x]).0.spec_precedes(
                        (#[trigger] list@[y]).0,
                    ),
            decreases list@.len() - i,
        {
            if !list[i - 1].0.precedes(list[i].0) {
                return false;
            }
            proof {
                assert forall|x: int, y: int| 0 <= x < y < i + 1 implies (
                #[trigger] list@[x]).0.spec_precedes((#[trigger] list@[y]).0) by {
                    if y == i && x < i - 1 {
                        AgentID::order_is_total(list@[x].0, list@[i - 1].0, list@[i as int].0);
                    }
                }
            }
            i += 1;
        }
        true
    }

    /// The trip that `agent` is bound to in `list`, if it is bound.
    pub fn lookup_in(list: &Vec<(AgentID, TripID)>, agent: AgentID) -> (t: Option<TripID>)
        requires
            sorted_agents(list@),
        ensures
            t == if as_map(list@).dom().contains(agent) {
                Some(as_map(list@)[agent])
            } else {
                None
            },
    {
        let mut i: usize = 0;
        while i < list.len()
            invariant
                i <= list@.len(),
                sorted_agents(list@),
                forall|j: int| 0 <= j < i ==> (#[trigger] list@[j]).0 != agent,
            decreases list@.len() - i,
        {
            if list[i].0 == agent {
                proof {
                    lemma_sorted(list@);
                    lemma_place(list@, i as int);
                }
                return Some(list[i].1);
            }
            i += 1;
        }
        None
    }

    /// The registry that holds the bindings of `list`.
    pub fn from_entries(list: Vec<(AgentID, TripID)>) -> (r: ActiveAgents)
        requires
            sorted_agents(list@),
        ensures
            r.wf(),
            r.entries() == list@,
            r@ == as_map(list@),
    {
        ActiveAgents { entries: list }
    }

    /// The bindings, in the order of their agents.
    pub fn into_entries(self) -> (list: Vec<(AgentID, TripID)>)
        requires
            self.wf(),
        ensures
            sorted_agents(list@),
            list@ == self.entries(),
            as_map(list@) == self@,
    {
        self.entries
    }

    /// The trip that `agent` is bound to, if it is bound.
    pub fn lookup(&self, agent: AgentID) -> (t: Option<TripID>)
        requires
            self.wf(),
        ensures
            t == if self@.dom().contains(agent) {
                Some(self@[agent])
            } else {
                None
            },
    {
        Self::lookup_in(&self.entries, agent)
    }

    /// Binds `agent` to `trip`.
    pub fn bind(&mut self, agent: AgentID, trip: TripID)
        requires
            old(self).wf(),
            !old(self)@.dom().contains(agent),
        ensures
            final(self).wf(),
            final(self)@ == old(self)@.insert(agent, trip),
    {
        let mut i: usize = 0;
        while i < self.entries.len() && self.entries[i].0.precedes(agent)
            invariant
                i <= self.entries@.len(),
                *self == *old(self),
                forall|j: int| 0 <= j < i ==> (#[trigger] self.entries@[j]).0.spec_precedes(agent),
            decreases self.entries@.len() - i,
        {
            i += 1;
        }
        proof {
            lemma_insert(self.entries@, i as int, agent, trip);
        }
        self.entries.insert(i, (agent, trip));
    }

    /// Takes the binding of `agent` away and returns the trip it was bound
    /// to; `None`, and nothing changes, if it was not bound.
    pub fn unbind(&mut self, agent: AgentID) -> (t: Option<TripID>)
        requires
            old(self).wf(),
        ensures
            final(self).wf(),
            final(self)@ == old(self)@.remove(agent),
            t == if old(self)@.dom().contains(agent) {
                Some(old(self)@[agent])
            } else {
                None
            },
    {
        let mut i: usize = 0;
        while i < self.entries.len()
            invariant
                i <= self.entries@.len(),
                self.wf(),
                *self == *old(self),
                forall|j: int| 0 <= j < i ==> (#[trigger] self.entries@[j]).0 != agent,
            decreases self.entries@.len() - i,
        {
            if self.entries[i].0 == agent {
                proof {
                    lemma_sorted(self.entries@);
                    lemma_place(self.entries@, i as int);
                    lemma_remove(self.entries@, i as int);
                    lemma_remove_sorted(self.entries@, i as int);
                }
                let e = self.entries.remove(i);
                return Some(e.1);
            }
            i += 1;
        }
        assert(self@ =~= old(self)@.remove(agent));
        None
    }

    /// How many agents are bound.
    pub fn len(&self) -> (n: usize)
        requires
            self.wf(),
        ensures
            self@.dom().finite(),
            n == self@.dom().len(),
            n == self.entries().len(),
    {
        proof {
            lemma_sorted(self.entries@);
            lemma_size(self.entries@);
        }
        self.entries.len()
    }

    /// The bound agents, in their order.
    pub fn agents(&self) -> (v: Vec<AgentID>)
        requires
            self.wf(),
        ensures
            v@ == agents_of(self.entries()),
            forall|i: int, j: int|
                0 <= i < j < v@.len() ==> (#[trigger] v@[i]).spec_precedes(#[trigger] v@[j]),
            v@.no_duplicates(),
            v@.to_set() == self@.dom(),
    {
        let mut v: Vec<AgentID> = Vec::new();
        let mut i: usize = 0;
        while i < self.entries.len()
            invariant
                i <= self.entries@.len(),
                v@.len() == i,
                forall|j: int| 0 <= j < i ==> v@[j] == (#[trigger] self.entries@[j]).0,
            decreases self.entries@.len() - i,
        {
            v.push(self.entries[i].0);
            i += 1;
        }
        proof {
            assert(v@ =~= agents_of(self.entries@));
            lemma_sorted(self.entries@);
            lemma_size(self.entries@);
        }
        v
    }

    /// The trips of the bound agents, in the order of `agents`.
    pub fn trips(&self) -> (v: Vec<TripID>)
        requires
            self.wf(),
        ensures
            v@.len() == self.entries().len(),
            forall|i: int|
                0 <= i < v@.len() ==> v@[i] == self@[#[trigger] agents_of(self.entries())[i]],
    {
        let mut v: Vec<TripID> = Vec::new();
        let mut i: usize = 0;
        while i < self.entries.len()
            invariant
                i <= self.entries@.len(),
                v@.len() == i,
                forall|j: int| 0 <= j < i ==> v@[j] == (#[trigger] self.entries@[j]).1,
            decreases self.entries@.len() - i,
        {
            v.push(self.entries[i].1);
            i += 1;
        }
        proof {
            assert forall|i: int| 0 <= i < v@.len() implies v@[i] == self@[#[trigger] agents_of(
                self.entries(),
            )[i]] by {
                lemma_sorted(self.entries@);
                lemma_place(self.entries@, i);
            }
        }
        v
    }
}

impl View for ActiveAgents {
    type V = Map<AgentID, TripID>;

    closed spec fn view(&self) -> Map<AgentID, TripID> {
        as_map(self.entries@)
    }
}

} // verus!
