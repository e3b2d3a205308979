//! An append-only log of timestamped messages.

use vstd::prelude::*;

verus! {

/// One logged message and the moment it was logged, in milliseconds since
/// the Unix epoch (UTC).
pub struct Event {
    pub timestamp: i64,
    pub message: String,
}

/// The log.
pub struct EventLogger {
    events: Vec<Event>,
}

/// Reads the wall clock through `chrono::Utc::now` and converts the answer to
/// milliseconds since the Unix epoch. Nothing is claimed of the value: it is
/// whatever the machine's clock says.
#[verifier::external_body]
fn utc_now_millis() -> (millis: i64) {
    chrono::Utc::now().timestamp_millis()
}

impl EventLogger {
    /// The logged events, oldest first.
    pub closed spec fn events(&self) -> Seq<Event> {
        self.events@
    }

    /// The logged messages, oldest first.
    pub open spec fn messages(&self) -> Seq<Seq<char>> {
        Seq::new(self.events().len(), |i: int| self.events()[i].message@)
    }

    /// An empty log.
    pub fn new() -> (logger: Self)
        ensures
            logger.events() == Seq::<Event>::empty(),
            logger.messages() == Seq::<Seq<char>>::empty(),
    {
        let logger = EventLogger { events: Vec::new() };
        assert(logger.messages() =~= Seq::<Seq<char>>::empty());
        logger
    }

    /// Appends `message`, stamped with the current time.
    pub fn log_event(&mut self, message: String)
        ensures
            final(self).events().len() == old(self).events().len() + 1,
            final(self).events().drop_last() == old(self).events(),
            final(self).events().last().message == message,
            final(self).messages() == old(self).messages().push(message@),
    {
        let event = Event { timestamp: utc_now_millis(), message };
        self.events.push(event);
        proof {
            assert(self.events().drop_last() =~= old(self).events());
            assert(self.messages() =~= old(self).messages().push(message@));
        }
    }

    /// A copy of the log as it stands.
    pub fn get_events(&self) -> (copy: Vec<Event>)
        ensures
            copy@ == self.events(),
    {
        let mut copy: Vec<Event> = Vec::new();
        let mut i: usize = 0;
        while i < self.events.len()
            invariant
                i <= self.events@.len(),
                copy@ == self.events@.take(i as int),
            decreases self.events@.len() - i,
        {
            let e = &self.events[i];
            copy.push(Event { timestamp: e.timestamp, message: e.message.clone() });
            proof {
                assert(copy@ =~= self.events@.take(i + 1));
            }
            i += 1;
        }
        proof {
            assert(self.events@.take(self.events@.len() as int) =~= self.events@);
        }
        copy
    }

    /// The number of logged events.
    pub fn len(&self) -> (n: usize)
        ensures
            n == self.events().len(),
    {
        self.events.len()
    }

    /// The message of the event at index `i`.
    pub fn message_at(&self, i: usize) -> (m: &String)
        requires
            i < self.events().len(),
        ensures
            m@ == self.messages()[i as int],
    {
        &self.events[i].message
    }

    /// Forgets every event.
    pub fn clear_events(&mut self)
        ensures
            final(self).events() == Seq::<Event>::empty(),
            final(self).messages() == Seq::<Seq<char>>::empty(),
    {
        self.events.clear();
        proof {
            assert(self.messages() =~= Seq::<Seq<char>>::empty());
        }
    }
}

} // verus!
