//! Tutorials by id. Each change of a tutorial raises its version.

use crate::ordered_map::IdMap;
use crate::ids::{is_random_uuid, new_uuid};
use crate::text::text_of;
use crate::text_search::{contains_text, occurs_in};
use vstd::prelude::*;

verus! {

/// A tutorial: a text with a title, by an author, at some version.
pub struct Tutorial {
    pub id: u128,
    pub title: String,
    pub content: String,
    pub author: String,
    pub version: u32,
}

/// What a tutorial is, mathematically.
pub ghost struct TutorialView {
    pub id: u128,
    pub title: Seq<char>,
    pub content: Seq<char>,
    pub author: Seq<char>,
    pub version: u32,
}

impl View for Tutorial {
    type V = TutorialView;

    open spec fn view(&self) -> TutorialView {
        TutorialView {
            id: self.id,
            title: self.title@,
            content: self.content@,
            author: self.author@,
            version: self.version,
        }
    }
}

impl TutorialView {
    /// Whether a search for `query` finds this tutorial: whether its title
    /// or its author holds the query.
    pub open spec fn matches_query(self, query: Seq<char>) -> bool {
        occurs_in(query, self.title) || occurs_in(query, self.author)
    }

    /// This tutorial after an update: with the new title and the new
    /// content, where one is given, and the next version.
    pub open spec fn updated(self, title: Option<Seq<char>>, content: Option<Seq<char>>) -> Self {
        TutorialView {
            id: self.id,
            title: match title {
                Some(t) => t,
                None => self.title,
            },
            content: match content {
                Some(c) => c,
                None => self.content,
            },
            author: self.author,
            version: (self.version + 1) as u32,
        }
    }
}

/// The tutorials among the first `n` of `all` that a search for `query`
/// finds, in their order.
pub open spec fn found_among(all: Seq<TutorialView>, query: Seq<char>, n: nat) -> Seq<TutorialView>
    decreases n,
{
    if n == 0 {
        Seq::empty()
    } else {
        let rest = found_among(all, query, (n - 1) as nat);
        if all[n - 1].matches_query(query) {
            rest.push(all[n - 1])
        } else {
            rest
        }
    }
}

/// The tutorials on file.
pub struct TutorialManager {
    tutorials: IdMap<Tutorial>,
}

impl TutorialManager {
    /// The tutorials by their ids.
    pub closed spec fn tutorials(&self) -> Map<u128, TutorialView> {
        Map::new(|id: u128| self.tutorials@.contains_key(id), |id: u128| self.tutorials@[id]@)
    }

    /// The tutorials in the order in which their ids were first used.
    pub closed spec fn listing(&self) -> Seq<TutorialView> {
        Seq::new(self.tutorials.values().len(), |i: int| self.tutorials.values()[i]@)
    }

    /// The invariant: each tutorial is filed under its own id, and each id
    /// is listed once.
    pub closed spec fn wf(&self) -> bool {
        &&& self.tutorials.wf()
        &&& forall|i: int|
            0 <= i < self.tutorials.keys().len() ==> (#[trigger] self.tutorials.values()[i]).id
                == self.tutorials.keys()[i]
    }

    /// The listing holds the tutorials of the map, one for each id.
    pub proof fn lemma_listing(&self)
        requires
            self.wf(),
        ensures
            forall|i: int|
                0 <= i < self.listing().len() ==> {
                    let t = #[trigger] self.listing()[i];
                    self.tutorials().contains_key(t.id) && self.tutorials()[t.id] == t
                },
            forall|i: int, j: int|
                0 <= i < j < self.listing().len() ==> (#[trigger] self.listing()[i]).id != (
                #[trigger] self.listing()[j]).id,
            forall|id: u128| #[trigger]
                self.tutorials().contains_key(id) ==> self.listing().contains(self.tutorials()[id]),
    {
        assert forall|i: int| 0 <= i < self.listing().len() implies {
            let t = #[trigger] self.listing()[i];
            self.tutorials().contains_key(t.id) && self.tutorials()[t.id] == t
        } by {
            self.tutorials.lemma_view_at(i);
        }
        assert forall|id: u128| #[trigger] self.tutorials().contains_key(id) implies self.listing().contains(
            self.tutorials()[id],
        ) by {
            let i = self.tutorials.keys().index_of(id);
            assert(0 <= i < self.tutorials.keys().len() && self.tutorials.keys()[i] == id);
            self.tutorials.lemma_view_at(i);
            assert(self.listing()[i] == self.tutorials()[id]);
        }
    }

    /// A manager with no tutorials.
    pub fn new() -> (m: Self)
        ensures
            m.wf(),
            m.tutorials() == Map::<u128, TutorialView>::empty(),
            m.listing() == Seq::<TutorialView>::empty(),
    {
        let m = TutorialManager { tutorials: IdMap::new() };
        assert(m.tutorials() =~= Map::<u128, TutorialView>::empty());
        assert(m.listing() =~= Seq::<TutorialView>::empty());
        m
    }

    /// Files a tutorial under its id, in place of any tutorial that had the
    /// id before.
    pub fn put_tutorial(&mut self, tutorial: Tutorial)
        requires
            old(self).wf(),
        ensures
            final(self).wf(),
            final(self).tutorials() == old(self).tutorials().insert(tutorial.id, tutorial@),
            !old(self).tutorials().contains_key(tutorial.id) ==> final(self).listing() == old(
                self,
            ).listing().push(tutorial@),
    {
        let id = tutorial.id;
        self.tutorials.insert(id, tutorial);
        proof {
            assert(self.tutorials() =~= old(self).tutorials().insert(id, tutorial@));
            if !old(self).tutorials().contains_key(id) {
                assert(self.listing() =~= old(self).listing().push(tutorial@));
            }
        }
    }

    /// Files a new tutorial, at version 1, under a fresh random id and
    /// returns the id.
    pub fn add_tutorial(&mut self, title: String, content: String, author: String) -> (id: u128)
        requires
            old(self).wf(),
        ensures
            final(self).wf(),
            is_random_uuid(id),
            final(self).tutorials() == old(self).tutorials().insert(
                id,
                TutorialView { id, title: title@, content: content@, author: author@, version: 1 },
            ),
    {
        let id = new_uuid();
        self.put_tutorial(Tutorial { id, title, content, author, version: 1 });
        id
    }

    /// Gives a tutorial a new title, a new content, or both, and raises its
    /// version. An unknown tutorial is an error. Versions are counted in 32
    /// bits; the caller must not update past `u32::MAX`.
    pub fn update_tutorial(
        &mut self,
        tutorial_id: u128,
        title: Option<String>,
        content: Option<String>,
    ) -> (r: Result<(), String>)
        requires
            old(self).wf(),
            old(self).tutorials().contains_key(tutorial_id) ==> old(
                self,
            ).tutorials()[tutorial_id].version < u32::MAX,
        ensures
            final(self).wf(),
            !old(self).tutorials().contains_key(tutorial_id) ==> {
                &&& r matches Err(e)
                &&& e@ == "Tutorial not found."@
                &&& final(self).tutorials() == old(self).tutorials()
                &&& final(self).listing() == old(self).listing()
            },
            old(self).tutorials().contains_key(tutorial_id) ==> {
                &&& r is Ok
                &&& final(self).tutorials() == old(self).tutorials().insert(
                    tutorial_id,
                    old(self).tutorials()[tutorial_id].updated(text_of(title), text_of(content)),
                )
            },
    {
        match self.tutorials.position(&tutorial_id) {
            Some(i) => {
                proof {
                    self.tutorials.lemma_view_at(i as int);
                }
                let tutorial = self.tutorials.value_at_mut(i);
                match title {
                    Some(new_title) => {
                        tutorial.title = new_title;
                    },
                    None => {},
                }
                match content {
                    Some(new_content) => {
                        tutorial.content = new_content;
                    },
                    None => {},
                }
                tutorial.version = tutorial.version + 1;
                proof {
                    assert(self.tutorials() =~= old(self).tutorials().insert(
                        tutorial_id,
                        old(self).tutorials()[tutorial_id].updated(text_of(title), text_of(content)),
                    ));
                }
                Ok(())
            },
            None => Err("Tutorial not found.".to_string()),
        }
    }

    /// The tutorial filed under this id, if there is one.
    pub fn get_tutorial(&self, tutorial_id: u128) -> (r: Option<&Tutorial>)
        requires
            self.wf(),
        ensures
            match r {
                Some(t) => self.tutorials().contains_key(tutorial_id) && t@
                    == self.tutorials()[tutorial_id],
                None => !self.tutorials().contains_key(tutorial_id),
            },
    {
        self.tutorials.get(&tutorial_id)
    }

    /// All tutorials, in the order in which their ids were first used.
    pub fn list_tutorials(&self) -> (list: Vec<&Tutorial>)
        requires
            self.wf(),
        ensures
            Seq::new(list@.len(), |i: int| list@[i]@) == self.listing(),
    {
        let n = self.tutorials.len();
        let mut list: Vec<&Tutorial> = Vec::new();
        let mut i: usize = 0;
        while i < n
            invariant
                self.tutorials.wf(),
                n == self.tutorials.keys().len(),
                i <= n,
                list@.len() == i,
                forall|k: int| 0 <= k < i ==> (#[trigger] list@[k])@ == self.tutorials.values()[k]@,
            decreases n - i,
        {
            list.push(self.tutorials.value_at(i));
            i += 1;
        }
        proof {
            assert(Seq::new(list@.len(), |i: int| list@[i]@) =~= self.listing());
        }
        list
    }

    /// The tutorials whose title or author holds `query`, in the order in
    /// which their ids were first used.
    pub fn search_tutorials(&self, query: &str) -> (list: Vec<&Tutorial>)
        requires
            self.wf(),
        ensures
            Seq::new(list@.len(), |i: int| list@[i]@) == found_among(
                self.listing(),
                query@,
                self.listing().len(),
            ),
    {
        let n = self.tutorials.len();
        let mut list: Vec<&Tutorial> = Vec::new();
        let mut i: usize = 0;
        while i < n
            invariant
                self.tutorials.wf(),
                n == self.tutorials.keys().len(),
                n == self.listing().len(),
                i <= n,
                Seq::new(list@.len(), |k: int| list@[k]@) == found_among(
                    self.listing(),
                    query@,
                    i as nat,
                ),
            decreases n - i,
        {
            let tutorial = self.tutorials.value_at(i);
            let ghost before = Seq::new(list@.len(), |k: int| list@[k]@);
            if contains_text(tutorial.title.as_str(), query) || contains_text(
                tutorial.author.as_str(),
                query,
            ) {
                list.push(tutorial);
                proof {
                    assert(Seq::new(list@.len(), |k: int| list@[k]@) =~= before.push(tutorial@));
                }
            }
            i += 1;
        }
        list
    }
}

} // verus!
