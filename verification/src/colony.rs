//! The ant colony: a structure-of-arrays collection of ants and the
//! colony's accumulated food.

use vstd::prelude::*;

use crate::map::Pos;
use crate::rng::Rand;
use crate::AntDirection;

verus! {

/// The four mutually exclusive behavioural states of an ant.
#[derive(Debug, Clone, Copy, PartialEq, Eq, Hash, Structural)]
pub enum AntState {
    Seeker,
    Returner,
    Noob,
    Follower,
}

/// Per-ant attributes as parallel arrays indexed by a dense slot index.
/// Ants are never removed, so an ant's id and its slot index coincide.
#[derive(Clone)]
pub struct AntCollection {
    pub id: Vec<i32>,
    pub speed: Vec<i32>,
    pub position: Vec<Pos>,
    pub direction: Vec<AntDirection>,
    pub state: Vec<AntState>,
    pub travel: Vec<Vec<Pos>>,
    pub steps: Vec<i32>,
}

impl AntCollection {
    /// The number of ants.
    pub open spec fn spec_len(self) -> int {
        self.state@.len() as int
    }

    /// All parallel arrays agree in length, and ids are the dense slot
    /// indices they were assigned at insertion.
    pub open spec fn wf(self) -> bool {
        &&& self.id@.len() == self.spec_len()
        &&& self.speed@.len() == self.spec_len()
        &&& self.position@.len() == self.spec_len()
        &&& self.direction@.len() == self.spec_len()
        &&& self.travel@.len() == self.spec_len()
        &&& self.steps@.len() == self.spec_len()
        &&& self.spec_len() <= i32::MAX
        &&& forall|i: int| 0 <= i < self.spec_len() ==> self.id@[i] == i
    }

    pub fn new() -> (r: AntCollection)
        ensures
            r.wf(),
            r.spec_len() == 0,
    {
        AntCollection {
            id: Vec::new(),
            speed: Vec::new(),
            position: Vec::new(),
            direction: Vec::new(),
            state: Vec::new(),
            travel: Vec::new(),
            steps: Vec::new(),
        }
    }

    /// Appends one ant with the next dense id, an empty travel history and
    /// a zero step counter.
    pub fn push(&mut self, speed: i32, position: Pos, direction: AntDirection, state: AntState)
        requires
            old(self).wf(),
            old(self).spec_len() < i32::MAX,
        ensures
            final(self).wf(),
            final(self).spec_len() == old(self).spec_len() + 1,
            final(self).id@ == old(self).id@.push(old(self).spec_len() as i32),
            final(self).speed@ == old(self).speed@.push(speed),
            final(self).position@ == old(self).position@.push(position),
            final(self).direction@ == old(self).direction@.push(direction),
            final(self).state@ == old(self).state@.push(state),
            final(self).steps@ == old(self).steps@.push(0i32),
            final(self).travel@.len() == old(self).travel@.len() + 1,
            final(self).travel@[old(self).spec_len()]@ == Seq::<Pos>::empty(),
            forall|j: int|
                0 <= j < old(self).spec_len() ==> #[trigger] final(self).travel@[j] == old(
                    self,
                ).travel@[j],
    {
        let next_id = self.id.len() as i32;
        self.id.push(next_id);
        self.speed.push(speed);
        self.position.push(position);
        self.direction.push(direction);
        self.state.push(state);
        self.travel.push(Vec::new());
        self.steps.push(0);
    }

    /// Counts the ants in each state by one full scan. The four counts
    /// always sum to the total ant count.
    pub fn state_count(&self) -> (r: StateCounts)
        requires
            self.wf(),
        ensures
            r.seeker == count_state(self.state@, AntState::Seeker),
            r.returner == count_state(self.state@, AntState::Returner),
            r.follower == count_state(self.state@, AntState::Follower),
            r.noob == count_state(self.state@, AntState::Noob),
            r.seeker + r.returner + r.follower + r.noob == self.spec_len(),
    {
        let mut counts = StateCounts { seeker: 0, returner: 0, follower: 0, noob: 0 };
        let mut i: usize = 0;
        proof {
            assert(self.state@.take(0) =~= Seq::<AntState>::empty());
        }
        while i < self.state.len()
            invariant
                0 <= i <= self.state@.len(),
                self.state@.len() <= i32::MAX,
                counts.seeker == count_state(self.state@.take(i as int), AntState::Seeker),
                counts.returner == count_state(self.state@.take(i as int), AntState::Returner),
                counts.follower == count_state(self.state@.take(i as int), AntState::Follower),
                counts.noob == count_state(self.state@.take(i as int), AntState::Noob),
                counts.seeker >= 0 && counts.returner >= 0 && counts.follower >= 0 && counts.noob
                    >= 0,
                counts.seeker + counts.returner + counts.follower + counts.noob == i,
            decreases self.state@.len() - i,
        {
            proof {
                lemma_count_take_step(self.state@, i as int, AntState::Seeker);
                lemma_count_take_step(self.state@, i as int, AntState::Returner);
                lemma_count_take_step(self.state@, i as int, AntState::Follower);
                lemma_count_take_step(self.state@, i as int, AntState::Noob);
            }
            match self.state[i] {
                AntState::Seeker => {
                    counts.seeker = counts.seeker + 1;
                },
                AntState::Returner => {
                    counts.returner = counts.returner + 1;
                },
                AntState::Follower => {
                    counts.follower = counts.follower + 1;
                },
                AntState::Noob => {
                    counts.noob = counts.noob + 1;
                },
            }
            i = i + 1;
        }
        proof {
            assert(self.state@.take(self.state@.len() as int) =~= self.state@);
        }
        counts
    }
}

/// The number of ants per behavioural state, as reported once per tick.
#[derive(Debug, Clone, Copy, PartialEq, Eq, Structural)]
pub struct StateCounts {
    pub seeker: i32,
    pub returner: i32,
    pub follower: i32,
    pub noob: i32,
}

impl StateCounts {
    /// The count recorded for one state.
    pub fn get(&self, state: AntState) -> (r: i32)
        ensures
            r == self.spec_get(state),
    {
        match state {
            AntState::Seeker => self.seeker,
            AntState::Returner => self.returner,
            AntState::Follower => self.follower,
            AntState::Noob => self.noob,
        }
    }

    pub open spec fn spec_get(self, state: AntState) -> i32 {
        match state {
            AntState::Seeker => self.seeker,
            AntState::Returner => self.returner,
            AntState::Follower => self.follower,
            AntState::Noob => self.noob,
        }
    }
}

/// How many entries of `s` are in state `st`.
pub open spec fn count_state(s: Seq<AntState>, st: AntState) -> int
    decreases s.len(),
{
    if s.len() == 0 {
        0
    } else {
        count_state(s.drop_last(), st) + if s.last() == st {
            1int
        } else {
            0int
        }
    }
}

/// Extending the scanned prefix by one element adjusts one count.
proof fn lemma_count_take_step(s: Seq<AntState>, i: int, st: AntState)
    requires
        0 <= i < s.len(),
    ensures
        count_state(s.take(i + 1), st) == count_state(s.take(i), st) + if s[i] == st {
            1int
        } else {
            0int
        },
{
    assert(s.take(i + 1).drop_last() =~= s.take(i));
    assert(s.take(i + 1).last() == s[i]);
}

/// Every ant is in exactly one of the four states, so the per-state counts
/// partition the colony: they sum to the length of the state array.
pub proof fn lemma_state_counts_total(s: Seq<AntState>)
    ensures
        count_state(s, AntState::Seeker) + count_state(s, AntState::Returner) + count_state(
            s,
            AntState::Follower,
        ) + count_state(s, AntState::Noob) == s.len(),
    decreases s.len(),
{
    if s.len() > 0 {
        lemma_state_counts_total(s.drop_last());
    }
}

/// The colony: its ants and the total food they have brought home, which
/// never decreases.
pub struct Colony {
    pub ants: AntCollection,
    pub food: i32,
}

impl Colony {
    pub open spec fn wf(self) -> bool {
        &&& self.ants.wf()
        &&& self.food >= 0
    }

    pub fn new() -> (r: Colony)
        ensures
            r.wf(),
            r.food == 0,
            r.ants.spec_len() == 0,
    {
        Colony { ants: AntCollection::new(), food: 0 }
    }

    /// Inserts one ant with a uniformly drawn facing direction.
    pub fn add_ant(&mut self, speed: i32, position: Pos, state: AntState, rng: &mut Rand)
        requires
            old(self).wf(),
            old(self).ants.spec_len() < i32::MAX,
        ensures
            final(self).wf(),
            final(self).food == old(self).food,
            final(self).ants.spec_len() == old(self).ants.spec_len() + 1,
            final(self).ants.position@ == old(self).ants.position@.push(position),
            final(self).ants.speed@ == old(self).ants.speed@.push(speed),
            final(self).ants.state@ == old(self).ants.state@.push(state),
            final(self).ants.steps@ == old(self).ants.steps@.push(0i32),
            final(self).ants.travel@.len() == old(self).ants.travel@.len() + 1,
            final(self).ants.travel@[old(self).ants.spec_len()]@ == Seq::<Pos>::empty(),
            forall|j: int|
                0 <= j < old(self).ants.spec_len() ==> #[trigger] final(self).ants.travel@[j]
                    == old(self).ants.travel@[j],
    {
        let direction = AntDirection::from_index(rng.next_below(4));
        self.ants.push(speed, position, direction, state);
    }
}

} // verus!
