//! Webinars by id, each announced and later marked as held.

use crate::ordered_map::IdMap;
use crate::ids::{is_random_uuid, new_uuid};
use crate::text_search::{contains_text, occurs_in};
use vstd::prelude::*;

verus! {

/// A webinar: announced for a date, and later marked as held.
pub struct Webinar {
    pub id: u128,
    pub title: String,
    pub description: String,
    pub presenter: String,
    pub date: String,
    pub is_completed: bool,
}

/// What a webinar is, mathematically.
pub ghost struct WebinarView {
    pub id: u128,
    pub title: Seq<char>,
    pub description: Seq<char>,
    pub presenter: Seq<char>,
    pub date: Seq<char>,
    pub is_completed: bool,
}

impl View for Webinar {
    type V = WebinarView;

    open spec fn view(&self) -> WebinarView {
        WebinarView {
            id: self.id,
            title: self.title@,
            description: self.description@,
            presenter: self.presenter@,
            date: self.date@,
            is_completed: self.is_completed,
        }
    }
}

impl WebinarView {
    /// Whether a search for `query` finds this webinar: whether its title
    /// or its presenter holds the query.
    pub open spec fn matches_query(self, query: Seq<char>) -> bool {
        occurs_in(query, self.title) || occurs_in(query, self.presenter)
    }

    /// This webinar, held.
    pub open spec fn completed(self) -> Self {
        WebinarView { is_completed: true, ..self }
    }
}

/// The webinars among the first `n` of `all` that a search for `query`
/// finds, in their order.
pub open spec fn found_among(all: Seq<WebinarView>, query: Seq<char>, n: nat) -> Seq<WebinarView>
    decreases n,
{
    if n == 0 {
        Seq::empty()
    } else {
        let rest = found_among(all, query, (n - 1) as nat);
        if all[n - 1].matches_query(query) {
            rest.push(all[n - 1])
        } else {
            rest
        }
    }
}

/// The webinars on file.
pub struct WebinarManager {
    webinars: IdMap<Webinar>,
}

impl WebinarManager {
    /// The webinars by their ids.
    pub closed spec fn webinars(&self) -> Map<u128, WebinarView> {
        Map::new(|id: u128| self.webinars@.contains_key(id), |id: u128| self.webinars@[id]@)
    }

    /// The webinars in the order in which their ids were first used.
    pub closed spec fn listing(&self) -> Seq<WebinarView> {
        Seq::new(self.webinars.values().len(), |i: int| self.webinars.values()[i]@)
    }

    /// The invariant: each webinar is filed under its own id, and each id
    /// is listed once.
    pub closed spec fn wf(&self) -> bool {
        &&& self.webinars.wf()
        &&& forall|i: int|
            0 <= i < self.webinars.keys().len() ==> (#[trigger] self.webinars.values()[i]).id
                == self.webinars.keys()[i]
    }

    /// The listing holds the webinars of the map, one for each id.
    pub proof fn lemma_listing(&self)
        requires
            self.wf(),
        ensures
            forall|i: int|
                0 <= i < self.listing().len() ==> {
                    let t = #[trigger] self.listing()[i];
                    self.webinars().contains_key(t.id) && self.webinars()[t.id] == t
                },
            forall|i: int, j: int|
                0 <= i < j < self.listing().len() ==> (#[trigger] self.listing()[i]).id != (
                #[trigger] self.listing()[j]).id,
            forall|id: u128| #[trigger]
                self.webinars().contains_key(id) ==> self.listing().contains(self.webinars()[id]),
    {
        assert forall|i: int| 0 <= i < self.listing().len() implies {
            let t = #[trigger] self.listing()[i];
            self.webinars().contains_key(t.id) && self.webinars()[t.id] == t
        } by {
            self.webinars.lemma_view_at(i);
        }
        assert forall|id: u128| #[trigger] self.webinars().contains_key(id) implies self.listing().contains(
            self.webinars()[id],
        ) by {
            let i = self.webinars.keys().index_of(id);
            assert(0 <= i < self.webinars.keys().len() && self.webinars.keys()[i] == id);
            self.webinars.lemma_view_at(i);
            assert(self.listing()[i] == self.webinars()[id]);
        }
    }

    /// A manager with no webinars.
    pub fn new() -> (m: Self)
        ensures
            m.wf(),
            m.webinars() == Map::<u128, WebinarView>::empty(),
            m.listing() == Seq::<WebinarView>::empty(),
    {
        let m = WebinarManager { webinars: IdMap::new() };
        assert(m.webinars() =~= Map::<u128, WebinarView>::empty());
        assert(m.listing() =~= Seq::<WebinarView>::empty());
        m
    }

    /// Files a webinar under its id, in place of any webinar that had the
    /// id before.
    pub fn put_webinar(&mut self, webinar: Webinar)
        requires
            old(self).wf(),
        ensures
            final(self).wf(),
            final(self).webinars() == old(self).webinars().insert(webinar.id, webinar@),
            !old(self).webinars().contains_key(webinar.id) ==> final(self).listing() == old(
                self,
            ).listing().push(webinar@),
    {
        let id = webinar.id;
        self.webinars.insert(id, webinar);
        proof {
            assert(self.webinars() =~= old(self).webinars().insert(id, webinar@));
            if !old(self).webinars().contains_key(id) {
                assert(self.listing() =~= old(self).listing().push(webinar@));
            }
        }
    }

    /// Announces a webinar under a fresh random id and returns the id.
    pub fn add_webinar(
        &mut self,
        title: String,
        description: String,
        presenter: String,
        date: String,
    ) -> (id: u128)
        requires
            old(self).wf(),
        ensures
            final(self).wf(),
            is_random_uuid(id),
            final(self).webinars() == old(self).webinars().insert(
                id,
                WebinarView {
                    id,
                    title: title@,
                    description: description@,
                    presenter: presenter@,
                    date: date@,
                    is_completed: false,
                },
            ),
    {
        let id = new_uuid();
        self.put_webinar(
            Webinar { id, title, description, presenter, date, is_completed: false },
        );
        id
    }

    /// Marks a webinar as held. An unknown webinar is an error.
    pub fn complete_webinar(&mut self, webinar_id: u128) -> (r: Result<(), String>)
        requires
            old(self).wf(),
        ensures
            final(self).wf(),
            !old(self).webinars().contains_key(webinar_id) ==> {
                &&& r matches Err(e)
                &&& e@ == "Webinar not found."@
                &&& final(self).webinars() == old(self).webinars()
                &&& final(self).listing() == old(self).listing()
            },
            old(self).webinars().contains_key(webinar_id) ==> {
                &&& r is Ok
                &&& final(self).webinars() == old(self).webinars().insert(
                    webinar_id,
                    old(self).webinars()[webinar_id].completed(),
                )
            },
    {
        match self.webinars.position(&webinar_id) {
            Some(i) => {
                proof {
                    self.webinars.lemma_view_at(i as int);
                }
                let webinar = self.webinars.value_at_mut(i);
                webinar.is_completed = true;
                proof {
                    assert(self.webinars() =~= old(self).webinars().insert(
                        webinar_id,
                        old(self).webinars()[webinar_id].completed(),
                    ));
                }
                Ok(())
            },
            None => Err("Webinar not found.".to_string()),
        }
    }

    /// The webinar filed under this id, if there is one.
    pub fn get_webinar(&self, webinar_id: u128) -> (r: Option<&Webinar>)
        requires
            self.wf(),
        ensures
            match r {
                Some(t) => self.webinars().contains_key(webinar_id) && t@
                    == self.webinars()[webinar_id],
                None => !self.webinars().contains_key(webinar_id),
            },
    {
        self.webinars.get(&webinar_id)
    }

    /// All webinars, in the order in which their ids were first used.
    pub fn list_webinars(&self) -> (list: Vec<&Webinar>)
        requires
            self.wf(),
        ensures
            Seq::new(list@.len(), |i: int| list@[i]@) == self.listing(),
    {
        let n = self.webinars.len();
        let mut list: Vec<&Webinar> = Vec::new();
        let mut i: usize = 0;
        while i < n
            invariant
                self.webinars.wf(),
                n == self.webinars.keys().len(),
                i <= n,
                list@.len() == i,
                forall|k: int| 0 <= k < i ==> (#[trigger] list@[k])@ == self.webinars.values()[k]@,
            decreases n - i,
        {
            list.push(self.webinars.value_at(i));
            i += 1;
        }
        proof {
            assert(Seq::new(list@.len(), |i: int| list@[i]@) =~= self.listing());
        }
        list
    }

    /// The webinars whose title or presenter holds `query`, in the order in
    /// which their ids were first used.
    pub fn search_webinars(&self, query: &str) -> (list: Vec<&Webinar>)
        requires
            self.wf(),
        ensures
            Seq::new(list@.len(), |i: int| list@[i]@) == found_among(
                self.listing(),
                query@,
                self.listing().len(),
            ),
    {
        let n = self.webinars.len();
        let mut list: Vec<&Webinar> = Vec::new();
        let mut i: usize = 0;
        while i < n
            invariant
                self.webinars.wf(),
                n == self.webinars.keys().len(),
                n == self.listing().len(),
                i <= n,
                Seq::new(list@.len(), |k: int| list@[k]@) == found_among(
                    self.listing(),
                    query@,
                    i as nat,
                ),
            decreases n - i,
        {
            let webinar = self.webinars.value_at(i);
            let ghost before = Seq::new(list@.len(), |k: int| list@[k]@);
            if contains_text(webinar.title.as_str(), query) || contains_text(
                webinar.presenter.as_str(),
                query,
            ) {
                list.push(webinar);
                proof {
                    assert(Seq::new(list@.len(), |k: int| list@[k]@) =~= before.push(webinar@));
                }
            }
            i += 1;
        }
        list
    }
}

} // verus!
