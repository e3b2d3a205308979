//! An insertion-ordered set of strings.
//!
//! A vector in which no string occurs twice. Its view is a mathematical set;
//! the number of members is the length of the vector.

use vstd::prelude::*;

verus! {

/// The set: its members in order of insertion.
pub struct StringSet {
    members: Vec<String>,
}

impl View for StringSet {
    type V = Set<Seq<char>>;

    open spec fn view(&self) -> Set<Seq<char>> {
        self.members().to_set()
    }
}

impl StringSet {
    /// The members, in order of insertion.
    pub closed spec fn members(&self) -> Seq<Seq<char>> {
        Seq::new(self.members@.len(), |i: int| self.members@[i]@)
    }

    /// No member occurs twice.
    pub open spec fn wf(&self) -> bool {
        self.members().no_duplicates()
    }

    /// The number of members is the cardinality of the view.
    pub proof fn lemma_len(&self)
        requires
            self.wf(),
        ensures
            self@.finite(),
            self@.len() == self.members().len(),
    {
        self.members().unique_seq_to_set();
    }

    /// An empty set.
    pub fn new() -> (s: Self)
        ensures
            s.wf(),
            s.members() == Seq::<Seq<char>>::empty(),
            s@ == Set::<Seq<char>>::empty(),
    {
        let s = StringSet { members: Vec::new() };
        assert(s.members() =~= Seq::<Seq<char>>::empty());
        assert(s@ =~= Set::<Seq<char>>::empty());
        s
    }

    /// The number of members.
    pub fn len(&self) -> (n: usize)
        requires
            self.wf(),
        ensures
            n == self.members().len(),
            n == self@.len(),
    {
        proof {
            self.lemma_len();
        }
        self.members.len()
    }

    /// Whether `member` is in the set.
    pub fn contains(&self, member: &String) -> (b: bool)
        requires
            self.wf(),
        ensures
            b == self@.contains(member@),
    {
        let mut i: usize = 0;
        while i < self.members.len()
            invariant
                i <= self.members@.len(),
                forall|j: int| 0 <= j < i ==> self.members()[j] != member@,
            decreases self.members@.len() - i,
        {
            if self.members[i] == *member {
                assert(self.members()[i as int] == member@);
                return true;
            }
            i += 1;
        }
        false
    }

    /// Adds `member` unless it is there already. Returns whether it was added.
    pub fn insert(&mut self, member: String) -> (added: bool)
        requires
            old(self).wf(),
        ensures
            final(self).wf(),
            added == !old(self)@.contains(member@),
            final(self)@ == old(self)@.insert(member@),
            added ==> final(self).members() == old(self).members().push(member@),
            !added ==> final(self).members() == old(self).members(),
    {
        if self.contains(&member) {
            proof {
                assert(self@ =~= old(self)@.insert(member@));
            }
            false
        } else {
            self.members.push(member);
            proof {
                assert(self.members() =~= old(self).members().push(member@));
                assert forall|q: Seq<char>| self@.contains(q) == old(self)@.insert(
                    member@,
                ).contains(q) by {
                    if self.members().contains(q) {
                        let j = self.members().index_of(q);
                        assert(0 <= j < self.members().len() && self.members()[j] == q);
                        if j < old(self).members().len() {
                            assert(old(self).members()[j] == q);
                        }
                    }
                    if old(self).members().contains(q) {
                        let j = old(self).members().index_of(q);
                        assert(0 <= j < old(self).members().len() && old(self).members()[j] == q);
                        assert(self.members()[j] == q);
                    }
                    if q == member@ {
                        assert(self.members()[old(self).members().len() as int] == q);
                    }
                }
                assert(self@ =~= old(self)@.insert(member@));
            }
            true
        }
    }

    /// The set of the strings in `list`, each kept at its first occurrence.
    pub fn from_vec(list: Vec<String>) -> (s: Self)
        ensures
            s.wf(),
            s@ == Seq::new(list@.len(), |i: int| list@[i]@).to_set(),
    {
        let ghost all = Seq::new(list@.len(), |i: int| list@[i]@);
        let mut s = StringSet::new();
        let mut i: usize = 0;
        while i < list.len()
            invariant
                i <= list@.len(),
                s.wf(),
                all == Seq::new(list@.len(), |i: int| list@[i]@),
                s@ == all.take(i as int).to_set(),
            decreases list@.len() - i,
        {
            s.insert(list[i].clone());
            proof {
                assert(all.take(i + 1) =~= all.take(i as int).push(all[i as int]));
                assert(all.take(i + 1).to_set() =~= all.take(i as int).to_set().insert(
                    all[i as int],
                )) by {
                    let a = all.take(i as int);
                    let b = all.take(i + 1);
                    assert forall|q: Seq<char>| b.to_set().contains(q) == a.to_set().insert(
                        all[i as int],
                    ).contains(q) by {
                        if b.contains(q) {
                            let j = b.index_of(q);
                            assert(0 <= j < b.len() && b[j] == q);
                            if j < i {
                                assert(a[j] == q);
                            }
                        }
                        if a.contains(q) {
                            let j = a.index_of(q);
                            assert(0 <= j < a.len() && a[j] == q);
                            assert(b[j] == q);
                        }
                        if q == all[i as int] {
                            assert(b[i as int] == q);
                        }
                    }
                }
            }
            i += 1;
        }
        proof {
            assert(all.take(list@.len() as int) =~= all);
        }
        s
    }

    /// A copy of the members, in order of insertion.
    pub fn to_vec(&self) -> (list: Vec<String>)
        requires
            self.wf(),
        ensures
            Seq::new(list@.len(), |i: int| list@[i]@) == self.members(),
    {
        let mut list: Vec<String> = Vec::new();
        let mut i: usize = 0;
        while i < self.members.len()
            invariant
                i <= self.members@.len(),
                list@.len() == i,
                forall|j: int| 0 <= j < i ==> (#[trigger] list@[j])@ == self.members()[j],
            decreases self.members@.len() - i,
        {
            list.push(self.members[i].clone());
            i += 1;
        }
        proof {
            assert(Seq::new(list@.len(), |i: int| list@[i]@) =~= self.members());
        }
        list
    }
}

} // verus!
