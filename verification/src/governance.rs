//! Time-bounded proposals and their votes.
//!
//! A proposal accepts votes from its creation until it is closed or its
//! voting window has run out. Nothing watches the clock: a proposal whose
//! window has run out is closed by the first vote that finds it so.
//!
//! Votes are counted, not attributed: whoever calls `vote` twice is counted
//! twice.

use std::collections::HashMap;
use std::time::Duration;
use std::time::Instant;
use vstd::prelude::*;

verus! {

/// `std::time::Instant`, a reading of the monotonic clock. The library only
/// carries such readings; it never looks inside one.
#[verifier::external_type_specification]
#[verifier::external_body]
pub struct ExInstant(std::time::Instant);

/// The length of a `Duration` in nanoseconds, as `Duration::as_nanos`
/// reports it.
pub uninterp spec fn duration_nanos(d: Duration) -> u128;

/// `Duration::as_nanos`: the whole length of the duration in nanoseconds.
/// The result depends on the duration alone.
#[verifier::external_body]
fn as_nanos(d: &Duration) -> (nanos: u128)
    ensures
        nanos == duration_nanos(*d),
{
    d.as_nanos()
}

/// `Instant::now`: the current reading of the monotonic clock. Nothing is
/// claimed of it.
#[verifier::external_body]
fn clock_now() -> (now: Instant) {
    Instant::now()
}

/// `Instant::elapsed`: the time that has passed since `start` was read.
/// Nothing is claimed of it.
#[verifier::external_body]
fn elapsed_since(start: &Instant) -> (elapsed: Duration) {
    start.elapsed()
}

/// A proposal with its tallies, the moment of its creation and the length of
/// its voting window.
pub struct Proposal {
    pub id: u32,
    pub description: String,
    pub votes_for: u32,
    pub votes_against: u32,
    pub is_active: bool,
    pub created_at: Instant,
    pub voting_duration: Duration,
}

impl Proposal {
    /// This proposal, closed.
    pub open spec fn closed(self) -> Proposal {
        Proposal { is_active: false, ..self }
    }

    /// This proposal with one more vote, for or against.
    pub open spec fn with_vote(self, vote_for: bool) -> Proposal {
        if vote_for {
            Proposal { votes_for: (self.votes_for + 1) as u32, ..self }
        } else {
            Proposal { votes_against: (self.votes_against + 1) as u32, ..self }
        }
    }

    /// Whether one more vote of this kind still fits the 32-bit counter.
    pub open spec fn has_room(self, vote_for: bool) -> bool {
        if vote_for {
            self.votes_for < u32::MAX
        } else {
            self.votes_against < u32::MAX
        }
    }
}

/// A copy of a proposal, field by field.
fn copy_of(p: &Proposal) -> (c: Proposal)
    ensures
        c == *p,
{
    Proposal {
        id: p.id,
        description: p.description.clone(),
        votes_for: p.votes_for,
        votes_against: p.votes_against,
        is_active: p.is_active,
        created_at: p.created_at,
        voting_duration: p.voting_duration,
    }
}

/// The active proposals with ids below `bound`, in the order of their ids.
pub open spec fn active_below(proposals: Map<u32, Proposal>, bound: u32) -> Seq<Proposal>
    decreases bound,
{
    if bound <= 1 {
        Seq::empty()
    } else {
        let id = (bound - 1) as u32;
        let rest = active_below(proposals, id);
        if proposals.contains_key(id) && proposals[id].is_active {
            rest.push(proposals[id])
        } else {
            rest
        }
    }
}

/// `active_below` lists the active proposals with ids from 1 up to the bound:
/// each of them once, and nothing else.
pub proof fn lemma_active_below(proposals: Map<u32, Proposal>, bound: u32)
    requires
        forall|id: u32| #[trigger] proposals.contains_key(id) ==> proposals[id].id == id,
    ensures
        forall|i: int|
            0 <= i < active_below(proposals, bound).len() ==> {
                let p = #[trigger] active_below(proposals, bound)[i];
                &&& 1 <= p.id < bound
                &&& proposals.contains_key(p.id)
                &&& proposals[p.id] == p
                &&& p.is_active
            },
        forall|i: int, j: int|
            0 <= i < j < active_below(proposals, bound).len() ==> active_below(
                proposals,
                bound,
            )[i].id < active_below(proposals, bound)[j].id,
        forall|id: u32|
            1 <= id < bound && #[trigger] proposals.contains_key(id) && proposals[id].is_active
                ==> active_below(proposals, bound).contains(proposals[id]),
    decreases bound,
{
    if bound > 1 {
        let id = (bound - 1) as u32;
        lemma_active_below(proposals, id);
        let rest = active_below(proposals, id);
        let all = active_below(proposals, bound);
        assert forall|k: u32|
            1 <= k < bound && #[trigger] proposals.contains_key(k)
                && proposals[k].is_active implies all.contains(proposals[k]) by {
            if k < id {
                let i = choose|i: int| 0 <= i < rest.len() && rest[i] == proposals[k];
                assert(all[i] == proposals[k]);
            } else {
                assert(all[all.len() - 1] == proposals[k]);
            }
        }
    }
}

/// Whether a voting window of `window` nanoseconds has run out once
/// `elapsed` nanoseconds have passed. A window of no length has always run
/// out.
pub open spec fn window_expired(elapsed: u128, window: u128) -> bool {
    window == 0 || elapsed > window
}

/// The proposals on file and the id that the next one will get.
pub struct Governance {
    proposals: HashMap<u32, Proposal>,
    next_id: u32,
}

impl Governance {
    /// The proposals by their ids.
    pub closed spec fn proposals(&self) -> Map<u32, Proposal> {
        self.proposals@
    }

    /// The id that the next proposal will get.
    pub closed spec fn next_id(&self) -> u32 {
        self.next_id
    }

    /// The invariant: ids are handed out from 1 upwards without gaps, and
    /// each proposal is filed under its own id.
    pub open spec fn wf(&self) -> bool {
        &&& self.next_id() >= 1
        &&& forall|id: u32| #[trigger]
            self.proposals().contains_key(id) <==> 1 <= id < self.next_id()
        &&& forall|id: u32| #[trigger]
            self.proposals().contains_key(id) ==> self.proposals()[id].id == id
    }

    /// How the proposals on file may change: none is lost, a closed one
    /// stays closed, and no tally goes down; what a proposal is about, when
    /// it was created and how long its window is never change.
    pub open spec fn follows(before: Map<u32, Proposal>, after: Map<u32, Proposal>) -> bool {
        forall|id: u32| #[trigger]
            before.contains_key(id) ==> {
                &&& after.contains_key(id)
                &&& after[id].id == before[id].id
                &&& after[id].description == before[id].description
                &&& after[id].created_at == before[id].created_at
                &&& after[id].voting_duration == before[id].voting_duration
                &&& after[id].votes_for >= before[id].votes_for
                &&& after[id].votes_against >= before[id].votes_against
                &&& !before[id].is_active ==> !after[id].is_active
            }
    }

    /// What one vote does, given the time that has passed since the
    /// proposal was created.
    pub open spec fn voted(
        before: Map<u32, Proposal>,
        after: Map<u32, Proposal>,
        r: Result<(), String>,
        proposal_id: u32,
        vote_for: bool,
        elapsed: u128,
    ) -> bool {
        if !before.contains_key(proposal_id) {
            &&& r matches Err(e)
            &&& e@ == "Proposal not found."@
            &&& after == before
        } else if !before[proposal_id].is_active {
            &&& r matches Err(e)
            &&& e@ == "Proposal is no longer active."@
            &&& after == before
        } else if window_expired(elapsed, duration_nanos(before[proposal_id].voting_duration)) {
            &&& r matches Err(e)
            &&& e@ == "Voting period has expired."@
            &&& after == before.insert(proposal_id, before[proposal_id].closed())
        } else {
            &&& r is Ok
            &&& after == before.insert(proposal_id, before[proposal_id].with_vote(vote_for))
        }
    }

    /// No proposals; the first will get the id 1.
    pub fn new() -> (g: Self)
        ensures
            g.wf(),
            g.proposals() == Map::<u32, Proposal>::empty(),
            g.next_id() == 1,
    {
        Governance { proposals: HashMap::new(), next_id: 1 }
    }

    /// Files a new, active proposal with no votes, stamped with the current
    /// time, and returns its id: the ids are 1, 2, 3 and so on.
    ///
    /// Ids are 32 bits wide; the caller must not create more proposals than
    /// there are ids.
    pub fn create_proposal(&mut self, description: String, voting_duration: Duration) -> (id: u32)
        requires
            old(self).wf(),
            old(self).next_id() < u32::MAX,
        ensures
            final(self).wf(),
            Self::follows(old(self).proposals(), final(self).proposals()),
            id == old(self).next_id(),
            final(self).next_id() == id + 1,
            final(self).proposals() == old(self).proposals().insert(
                id,
                final(self).proposals()[id],
            ),
            final(self).proposals().contains_key(id),
            final(self).proposals()[id] == (Proposal {
                id,
                description,
                votes_for: 0,
                votes_against: 0,
                is_active: true,
                created_at: final(self).proposals()[id].created_at,
                voting_duration,
            }),
    {
        broadcast use vstd::std_specs::hash::group_hash_axioms;

        let id = self.next_id;
        let proposal = Proposal {
            id,
            description,
            votes_for: 0,
            votes_against: 0,
            is_active: true,
            created_at: clock_now(),
            voting_duration,
        };
        self.proposals.insert(id, proposal);
        self.next_id = id + 1;
        proof {
            assert forall|k: u32| #[trigger]
                self.proposals().contains_key(k) <==> 1 <= k < self.next_id() by {
                assert(old(self).proposals().contains_key(k) <==> 1 <= k < id);
            }
            assert forall|k: u32| #[trigger]
                self.proposals().contains_key(k) implies self.proposals()[k].id == k by {
                if k != id {
                    assert(old(self).proposals().contains_key(k));
                }
            }
        }
        id
    }

    /// Casts one vote on a proposal, given the number of nanoseconds that
    /// have passed since the proposal was created.
    ///
    /// Fails for an unknown proposal and for a closed one. If the voting
    /// window has run out, the proposal is closed and the vote fails.
    /// Otherwise the vote is counted. The counters are 32 bits wide; the
    /// caller must not vote past `u32::MAX`.
    pub fn vote_after(&mut self, proposal_id: u32, vote_for: bool, elapsed: u128) -> (r: Result<
        (),
        String,
    >)
        requires
            old(self).wf(),
            old(self).proposals().contains_key(proposal_id) ==> old(
                self,
            ).proposals()[proposal_id].has_room(vote_for),
        ensures
            final(self).wf(),
            final(self).next_id() == old(self).next_id(),
            Self::follows(old(self).proposals(), final(self).proposals()),
            Self::voted(
                old(self).proposals(),
                final(self).proposals(),
                r,
                proposal_id,
                vote_for,
                elapsed,
            ),
    {
        broadcast use vstd::std_specs::hash::group_hash_axioms;

        let found = self.proposals.get(&proposal_id);
        match found {
            None => Err("Proposal not found.".to_string()),
            Some(p) => {
                if !p.is_active {
                    return Err("Proposal is no longer active.".to_string());
                }
                let window = as_nanos(&p.voting_duration);
                if window == 0 || elapsed > window {
                    let closed = Proposal {
                        id: p.id,
                        description: p.description.clone(),
                        votes_for: p.votes_for,
                        votes_against: p.votes_against,
                        is_active: false,
                        created_at: p.created_at,
                        voting_duration: p.voting_duration,
                    };
                    self.proposals.insert(proposal_id, closed);
                    return Err("Voting period has expired.".to_string());
                }
                let counted = Proposal {
                    id: p.id,
                    description: p.description.clone(),
                    votes_for: if vote_for {
                        p.votes_for + 1
                    } else {
                        p.votes_for
                    },
                    votes_against: if vote_for {
                        p.votes_against
                    } else {
                        p.votes_against + 1
                    },
                    is_active: true,
                    created_at: p.created_at,
                    voting_duration: p.voting_duration,
                };
                self.proposals.insert(proposal_id, counted);
                Ok(())
            },
        }
    }

    /// Casts one vote on a proposal, now.
    ///
    /// Reads the clock to learn how long ago the proposal was created, and
    /// then does what `vote_after` does with that reading. Whatever the clock
    /// says, a vote on a proposal with a voting window of no length fails and
    /// closes it.
    pub fn vote(&mut self, proposal_id: u32, vote_for: bool) -> (r: Result<(), String>)
        requires
            old(self).wf(),
            old(self).proposals().contains_key(proposal_id) ==> old(
                self,
            ).proposals()[proposal_id].has_room(vote_for),
        ensures
            final(self).wf(),
            final(self).next_id() == old(self).next_id(),
            Self::follows(old(self).proposals(), final(self).proposals()),
            exists|elapsed: u128|
                Self::voted(
                    old(self).proposals(),
                    final(self).proposals(),
                    r,
                    proposal_id,
                    vote_for,
                    elapsed,
                ),
            old(self).proposals().contains_key(proposal_id) && old(
                self,
            ).proposals()[proposal_id].is_active && duration_nanos(
                old(self).proposals()[proposal_id].voting_duration,
            ) == 0 ==> {
                &&& r matches Err(e)
                &&& e@ == "Voting period has expired."@
                &&& final(self).proposals() == old(self).proposals().insert(
                    proposal_id,
                    old(self).proposals()[proposal_id].closed(),
                )
            },
    {
        broadcast use vstd::std_specs::hash::group_hash_axioms;

        let elapsed = match self.proposals.get(&proposal_id) {
            Some(p) => as_nanos(&elapsed_since(&p.created_at)),
            None => 0,
        };
        self.vote_after(proposal_id, vote_for, elapsed)
    }

    /// Closes a proposal. Closing a closed proposal changes nothing and
    /// succeeds; an unknown proposal is an error.
    pub fn close_proposal(&mut self, proposal_id: u32) -> (r: Result<(), String>)
        requires
            old(self).wf(),
        ensures
            final(self).wf(),
            final(self).next_id() == old(self).next_id(),
            Self::follows(old(self).proposals(), final(self).proposals()),
            !old(self).proposals().contains_key(proposal_id) ==> {
                &&& r matches Err(e)
                &&& e@ == "Proposal not found."@
                &&& final(self).proposals() == old(self).proposals()
            },
            old(self).proposals().contains_key(proposal_id) ==> {
                &&& r is Ok
                &&& final(self).proposals() == old(self).proposals().insert(
                    proposal_id,
                    old(self).proposals()[proposal_id].closed(),
                )
            },
    {
        broadcast use vstd::std_specs::hash::group_hash_axioms;

        match self.proposals.get(&proposal_id) {
            Some(p) => {
                let mut closed = copy_of(p);
                closed.is_active = false;
                self.proposals.insert(proposal_id, closed);
                proof {
                    assert(self.proposals() =~= old(self).proposals().insert(
                        proposal_id,
                        old(self).proposals()[proposal_id].closed(),
                    ));
                    assert forall|k: u32| #[trigger]
                        self.proposals().contains_key(k) <==> 1 <= k < self.next_id() by {
                        assert(old(self).proposals().contains_key(k) <==> 1 <= k < old(
                            self,
                        ).next_id());
                    }
                    assert forall|k: u32| #[trigger]
                        self.proposals().contains_key(k) implies self.proposals()[k].id == k by {
                        assert(old(self).proposals().contains_key(k));
                    }
                }
                Ok(())
            },
            None => Err("Proposal not found.".to_string()),
        }
    }

    /// The id that the next proposal will get.
    pub fn get_next_id(&self) -> (id: u32)
        ensures
            id == self.next_id(),
    {
        self.next_id
    }

    /// A copy of the proposal with this id, if there is one.
    pub fn get_proposal(&self, proposal_id: u32) -> (r: Option<Proposal>)
        ensures
            match r {
                Some(p) => self.proposals().contains_key(proposal_id) && p
                    == self.proposals()[proposal_id],
                None => !self.proposals().contains_key(proposal_id),
            },
    {
        broadcast use vstd::std_specs::hash::group_hash_axioms;

        match self.proposals.get(&proposal_id) {
            Some(p) => Some(copy_of(p)),
            None => None,
        }
    }

    /// The proposal with this id as it stands, with its tallies, if there is
    /// one.
    pub fn get_results(&self, proposal_id: u32) -> (r: Option<Proposal>)
        ensures
            match r {
                Some(p) => self.proposals().contains_key(proposal_id) && p
                    == self.proposals()[proposal_id],
                None => !self.proposals().contains_key(proposal_id),
            },
    {
        self.get_proposal(proposal_id)
    }

    /// Copies of the proposals that are active, in the order of their ids.
    /// The copies do not change when the proposals later do.
    pub fn get_active_proposals(&self) -> (active: Vec<Proposal>)
        requires
            self.wf(),
        ensures
            active@ == active_below(self.proposals(), self.next_id()),
    {
        broadcast use vstd::std_specs::hash::group_hash_axioms;

        let mut active: Vec<Proposal> = Vec::new();
        let mut id: u32 = 1;
        while id < self.next_id
            invariant
                self.wf(),
                1 <= id <= self.next_id,
                active@ == active_below(self.proposals(), id),
            decreases self.next_id - id,
        {
            match self.proposals.get(&id) {
                Some(p) => {
                    if p.is_active {
                        active.push(copy_of(p));
                    }
                },
                None => {},
            }
            id += 1;
        }
        active
    }
}

} // verus!
