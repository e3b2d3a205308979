//! Proposals with recorded votes.
//!
//! Each vote on a known proposal is counted, and the voter's latest choice is
//! kept on record. The count and the record are separate: a voter who votes
//! twice is counted twice and recorded once, with the later choice.

use crate::ordered_map::StringMap;
use vstd::prelude::*;

verus! {

/// A proposal and its tallies.
pub struct Proposal {
    pub id: String,
    pub description: String,
    pub votes_for: u32,
    pub votes_against: u32,
}

/// What a proposal is, mathematically.
pub ghost struct ProposalView {
    pub id: Seq<char>,
    pub description: Seq<char>,
    pub votes_for: u32,
    pub votes_against: u32,
}

impl View for Proposal {
    type V = ProposalView;

    open spec fn view(&self) -> ProposalView {
        ProposalView {
            id: self.id@,
            description: self.description@,
            votes_for: self.votes_for,
            votes_against: self.votes_against,
        }
    }
}

impl ProposalView {
    /// This proposal with one more vote, for or against.
    pub open spec fn with_vote(self, support: bool) -> ProposalView {
        if support {
            ProposalView { votes_for: (self.votes_for + 1) as u32, ..self }
        } else {
            ProposalView { votes_against: (self.votes_against + 1) as u32, ..self }
        }
    }

    /// Whether one more vote of this kind still fits the 32-bit counter.
    pub open spec fn has_room(self, support: bool) -> bool {
        if support {
            self.votes_for < u32::MAX
        } else {
            self.votes_against < u32::MAX
        }
    }
}

/// A voter's choice.
pub struct Vote {
    pub voter: String,
    pub support: bool,
}

/// What a vote is, mathematically.
pub ghost struct VoteView {
    pub voter: Seq<char>,
    pub support: bool,
}

impl View for Vote {
    type V = VoteView;

    open spec fn view(&self) -> VoteView {
        VoteView { voter: self.voter@, support: self.support }
    }
}

/// Whether `voter` has a vote on record in `record`.
pub open spec fn has_voted(record: Seq<VoteView>, voter: Seq<char>) -> bool {
    exists|i: int| 0 <= i < record.len() && #[trigger] record[i].voter == voter
}

/// The record after `vote` has been cast: in the place of the voter's earlier
/// vote if there is one, at the end otherwise.
pub open spec fn recorded(record: Seq<VoteView>, vote: VoteView) -> Seq<VoteView> {
    if has_voted(record, vote.voter) {
        let i = choose|i: int| 0 <= i < record.len() && #[trigger] record[i].voter == vote.voter;
        record.update(i, vote)
    } else {
        record.push(vote)
    }
}

/// The proposals on file, and for each the votes on record.
pub struct Governance {
    proposals: StringMap<Proposal>,
    votes: StringMap<StringMap<Vote>>,
}

/// The votes in a ballot box, in the order of each voter's first vote.
spec fn record_of(b: StringMap<Vote>) -> Seq<VoteView> {
    Seq::new(b.values().len(), |i: int| b.values()[i]@)
}

/// Each vote in a ballot box is filed under its voter.
spec fn box_wf(b: StringMap<Vote>) -> bool {
    &&& b.wf()
    &&& forall|i: int| 0 <= i < b.keys().len() ==> b.keys()[i] == (#[trigger] b.values()[i]).voter@
}

impl Governance {
    /// The proposals by their ids.
    pub closed spec fn proposals(&self) -> Map<Seq<char>, ProposalView> {
        Map::new(
            |id: Seq<char>| self.proposals@.contains_key(id),
            |id: Seq<char>| self.proposals@[id]@,
        )
    }

    /// The votes on record for each proposal that was ever voted on, in the
    /// order of each voter's first vote.
    pub closed spec fn votes(&self) -> Map<Seq<char>, Seq<VoteView>> {
        Map::new(
            |id: Seq<char>| self.votes@.contains_key(id),
            |id: Seq<char>| record_of(self.votes@[id]),
        )
    }

    /// The invariant: proposal ids occur once, and on each proposal's record
    /// each voter occurs once.
    pub closed spec fn wf(&self) -> bool {
        &&& self.proposals.wf()
        &&& self.votes.wf()
        &&& forall|i: int| 0 <= i < self.votes.values().len() ==> box_wf(#[trigger] self.votes.values()[i])
    }

    /// On every record each voter occurs once.
    pub proof fn lemma_one_vote_per_voter(&self)
        requires
            self.wf(),
        ensures
            forall|id: Seq<char>, i: int, j: int|
                self.votes().contains_key(id) && 0 <= i < j < self.votes()[id].len() ==> (
                #[trigger] self.votes()[id][i]).voter != (#[trigger] self.votes()[id][j]).voter,
    {
        assert forall|id: Seq<char>, i: int, j: int|
            self.votes().contains_key(id) && 0 <= i < j < self.votes()[id].len() implies (
        #[trigger] self.votes()[id][i]).voter != (#[trigger] self.votes()[id][j]).voter by {
            let k = self.votes.keys().index_of(id);
            assert(0 <= k < self.votes.keys().len() && self.votes.keys()[k] == id);
            self.votes.lemma_view_at(k);
            let b = self.votes.values()[k];
            assert(box_wf(b));
            assert(b.keys()[i] == b.values()[i].voter@);
            assert(b.keys()[j] == b.values()[j].voter@);
        }
    }

    /// No proposals and no votes.
    pub fn new() -> (g: Self)
        ensures
            g.wf(),
            g.proposals() == Map::<Seq<char>, ProposalView>::empty(),
            g.votes() == Map::<Seq<char>, Seq<VoteView>>::empty(),
    {
        let g = Governance { proposals: StringMap::new(), votes: StringMap::new() };
        assert(g.proposals() =~= Map::<Seq<char>, ProposalView>::empty());
        assert(g.votes() =~= Map::<Seq<char>, Seq<VoteView>>::empty());
        g
    }

    /// Files a proposal with no votes under `id`, in place of any proposal
    /// that was filed under that id before. Votes on record stay on record.
    pub fn create_proposal(&mut self, id: String, description: String)
        requires
            old(self).wf(),
        ensures
            final(self).wf(),
            final(self).proposals() == old(self).proposals().insert(
                id@,
                ProposalView { id: id@, description: description@, votes_for: 0, votes_against: 0 },
            ),
            final(self).votes() == old(self).votes(),
    {
        let proposal = Proposal { id: id.clone(), description, votes_for: 0, votes_against: 0 };
        self.proposals.insert(id, proposal);
        proof {
            assert(self.proposals() =~= old(self).proposals().insert(
                id@,
                ProposalView { id: id@, description: description@, votes_for: 0, votes_against: 0 },
            ));
        }
    }

    /// The record that a proposal has before anyone has voted on it is
    /// empty.
    pub open spec fn record_before(votes: Map<Seq<char>, Seq<VoteView>>, id: Seq<char>) -> Seq<
        VoteView,
    > {
        if votes.contains_key(id) {
            votes[id]
        } else {
            Seq::empty()
        }
    }

    /// Casts `voter`'s vote on a proposal.
    ///
    /// On a known proposal the vote is counted, and it is put on record in
    /// the place of the voter's earlier vote, if there is one. A vote on an
    /// unknown proposal changes nothing. The counters are 32 bits wide; the
    /// caller must not vote past `u32::MAX`.
    pub fn vote(&mut self, proposal_id: String, voter: String, support: bool)
        requires
            old(self).wf(),
            old(self).proposals().contains_key(proposal_id@) ==> old(
                self,
            ).proposals()[proposal_id@].has_room(support),
        ensures
            final(self).wf(),
            !old(self).proposals().contains_key(proposal_id@) ==> {
                &&& final(self).proposals() == old(self).proposals()
                &&& final(self).votes() == old(self).votes()
            },
            old(self).proposals().contains_key(proposal_id@) ==> {
                &&& final(self).proposals() == old(self).proposals().insert(
                    proposal_id@,
                    old(self).proposals()[proposal_id@].with_vote(support),
                )
                &&& final(self).votes() == old(self).votes().insert(
                    proposal_id@,
                    recorded(
                        Self::record_before(old(self).votes(), proposal_id@),
                        VoteView { voter: voter@, support },
                    ),
                )
            },
    {
        match self.proposals.position(&proposal_id) {
            None => {},
            Some(i) => {
                proof {
                    self.proposals.lemma_view_at(i as int);
                }
                let p = self.proposals.value_at_mut(i);
                if support {
                    p.votes_for = p.votes_for + 1;
                } else {
                    p.votes_against = p.votes_against + 1;
                }
                proof {
                    assert(self.proposals() =~= old(self).proposals().insert(
                        proposal_id@,
                        old(self).proposals()[proposal_id@].with_vote(support),
                    ));
                }
                let vote = Vote { voter: voter.clone(), support };
                let ghost cast = VoteView { voter: voter@, support };
                match self.votes.position(&proposal_id) {
                    Some(j) => {
                        proof {
                            self.votes.lemma_view_at(j as int);
                        }
                        let ghost before = self.votes.values()[j as int];
                        let ballots = self.votes.value_at_mut(j);
                        ballots.insert(voter, vote);
                        proof {
                            let after = self.votes.values()[j as int];
                            lemma_recorded(before, after, vote);
                            assert(self.votes() =~= old(self).votes().insert(
                                proposal_id@,
                                recorded(Self::record_before(old(self).votes(), proposal_id@), cast),
                            ));
                        }
                    },
                    None => {
                        let mut ballots: StringMap<Vote> = StringMap::new();
                        let ghost before = ballots;
                        ballots.push_new(voter, vote);
                        proof {
                            lemma_recorded(before, ballots, vote);
                            assert(record_of(before) =~= Seq::<VoteView>::empty());
                            assert(!old(self).votes().contains_key(proposal_id@));
                        }
                        self.votes.push_new(proposal_id, ballots);
                        proof {
                            assert(self.votes@[proposal_id@] == ballots);
                            assert(self.votes() =~= old(self).votes().insert(
                                proposal_id@,
                                recorded(Self::record_before(old(self).votes(), proposal_id@), cast),
                            ));
                        }
                    },
                }
            },
        }
    }

    /// A copy of the proposal filed under `proposal_id`, if there is one.
    pub fn get_results(&self, proposal_id: &str) -> (r: Option<Proposal>)
        requires
            self.wf(),
        ensures
            match r {
                Some(p) => self.proposals().contains_key(proposal_id@) && p@
                    == self.proposals()[proposal_id@],
                None => !self.proposals().contains_key(proposal_id@),
            },
    {
        let key = proposal_id.to_string();
        match self.proposals.get(&key) {
            Some(p) => Some(
                Proposal {
                    id: p.id.clone(),
                    description: p.description.clone(),
                    votes_for: p.votes_for,
                    votes_against: p.votes_against,
                },
            ),
            None => None,
        }
    }

    /// Copies of the votes on record for a proposal, in the order of each
    /// voter's first vote; nothing for a proposal that nobody has voted on.
    pub fn get_votes(&self, proposal_id: &str) -> (r: Option<Vec<Vote>>)
        requires
            self.wf(),
        ensures
            match r {
                Some(list) => self.votes().contains_key(proposal_id@) && Seq::new(
                    list@.len(),
                    |i: int| list@[i]@,
                ) == self.votes()[proposal_id@],
                None => !self.votes().contains_key(proposal_id@),
            },
    {
        let key = proposal_id.to_string();
        match self.votes.position(&key) {
            Some(j) => {
                proof {
                    self.votes.lemma_view_at(j as int);
                }
                let ballots = self.votes.value_at(j);
                let n = ballots.len();
                let mut list: Vec<Vote> = Vec::new();
                let mut i: usize = 0;
                while i < n
                    invariant
                        ballots.wf(),
                        n == ballots.keys().len(),
                        i <= n,
                        list@.len() == i,
                        forall|k: int| 0 <= k < i ==> (#[trigger] list@[k])@ == ballots.values()[k]@,
                    decreases n - i,
                {
                    let v = ballots.value_at(i);
                    list.push(Vote { voter: v.voter.clone(), support: v.support });
                    i += 1;
                }
                proof {
                    assert(Seq::new(list@.len(), |i: int| list@[i]@) =~= record_of(*ballots));
                }
                Some(list)
            },
            None => None,
        }
    }
}

/// Putting a vote into a ballot box under its voter's name records it.
proof fn lemma_recorded(before: StringMap<Vote>, after: StringMap<Vote>, vote: Vote)
    requires
        box_wf(before),
        after.wf(),
        before@.contains_key(vote.voter@) ==> after.keys() == before.keys() && after.values()
            == before.values().update(before.keys().index_of(vote.voter@), vote),
        !before@.contains_key(vote.voter@) ==> after.keys() == before.keys().push(vote.voter@)
            && after.values() == before.values().push(vote),
    ensures
        box_wf(after),
        record_of(after) == recorded(record_of(before), vote@),
{
    let record = record_of(before);
    if before@.contains_key(vote.voter@) {
        let k = before.keys().index_of(vote.voter@);
        assert(0 <= k < before.keys().len() && before.keys()[k] == vote.voter@);
        assert(record[k].voter == vote.voter@);
        assert(has_voted(record, vote.voter@));
        let i = choose|i: int| 0 <= i < record.len() && #[trigger] record[i].voter == vote.voter@;
        assert(before.keys()[i] == before.values()[i].voter@);
        assert(i == k);
        assert(record_of(after) =~= record.update(k, vote@));
    } else {
        if has_voted(record, vote.voter@) {
            let i = choose|i: int|
                0 <= i < record.len() && #[trigger] record[i].voter == vote.voter@;
            assert(before.keys()[i] == before.values()[i].voter@);
            assert(before.keys().contains(vote.voter@));
        }
        assert(record_of(after) =~= record.push(vote@));
    }
}

} // verus!
