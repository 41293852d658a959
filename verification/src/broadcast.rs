//! The event broadcaster: one publisher, any number of listeners, each with
//! a bounded backlog of its own. A full backlog loses its oldest event; the
//! publisher never waits.

use std::collections::VecDeque;
use vstd::prelude::*;
use vstd::string::*;

verus! {

/// The backlog that a broadcaster is made with unless told otherwise.
pub const DEFAULT_CAPACITY: usize = 10000;

/// The mathematical content of a broadcaster: the bound on each backlog,
/// and for each subscribed listener the events that it has yet to take,
/// oldest first.
pub struct BroadcastModel {
    pub capacity: nat,
    pub backlogs: Map<nat, Seq<Seq<char>>>,
}

/// The last `capacity` of `events`, or all of them if they are fewer.
pub open spec fn keep_last(events: Seq<Seq<char>>, capacity: nat) -> Seq<Seq<char>> {
    if events.len() <= capacity {
        events
    } else {
        events.skip(events.len() - capacity)
    }
}

impl BroadcastModel {
    /// A broadcaster without listeners.
    pub open spec fn empty(capacity: nat) -> BroadcastModel {
        BroadcastModel { capacity, backlogs: Map::empty() }
    }

    /// Whether `listener` is subscribed.
    pub open spec fn is_subscribed(self, listener: nat) -> bool {
        self.backlogs.contains_key(listener)
    }

    /// The least number that no subscribed listener bears.
    pub open spec fn is_next_free(self, listener: nat) -> bool {
        &&& !self.is_subscribed(listener)
        &&& forall|below: nat| below < listener ==> self.is_subscribed(below)
    }

    /// After `listener` has subscribed: it starts with an empty backlog, and
    /// nothing else changes.
    pub open spec fn subscribed(self, listener: nat) -> BroadcastModel {
        BroadcastModel {
            capacity: self.capacity,
            backlogs: self.backlogs.insert(listener, Seq::empty()),
        }
    }

    /// After `listener` has left: its backlog is gone, and nothing else
    /// changes.
    pub open spec fn unsubscribed(self, listener: nat) -> BroadcastModel {
        BroadcastModel { capacity: self.capacity, backlogs: self.backlogs.remove(listener) }
    }

    /// After `event` was published: every subscribed listener has it at the
    /// end of its backlog, and a backlog that was full has lost its oldest
    /// event.
    pub open spec fn published(self, event: Seq<char>) -> BroadcastModel {
        BroadcastModel {
            capacity: self.capacity,
            backlogs: Map::new(
                |listener: nat| self.backlogs.contains_key(listener),
                |listener: nat| keep_last(self.backlogs[listener].push(event), self.capacity),
            ),
        }
    }

    /// The event that `listener` takes next: the oldest of its backlog, if
    /// it is subscribed and has any.
    pub open spec fn next_event(self, listener: nat) -> Option<Seq<char>> {
        if self.is_subscribed(listener) && self.backlogs[listener].len() > 0 {
            Some(self.backlogs[listener][0])
        } else {
            None
        }
    }

    /// After `listener` has taken its next event.
    pub open spec fn taken(self, listener: nat) -> BroadcastModel {
        if self.is_subscribed(listener) && self.backlogs[listener].len() > 0 {
            BroadcastModel {
                capacity: self.capacity,
                backlogs: self.backlogs.insert(listener, self.backlogs[listener].drop_first()),
            }
        } else {
            self
        }
    }

    /// After each of `events` was published, in turn.
    pub open spec fn published_all(self, events: Seq<Seq<char>>) -> BroadcastModel
        decreases events.len(),
    {
        if events.len() == 0 {
            self
        } else {
            self.published_all(events.drop_last()).published(events.last())
        }
    }

    /// Whether every backlog is within the bound.
    pub open spec fn bounded(self) -> bool {
        forall|listener: nat| #[trigger]
            self.backlogs.contains_key(listener) ==> self.backlogs[listener].len()
                <= self.capacity
    }
}

/// The contents of a queue of events.
pub open spec fn events_view(queue: Seq<String>) -> Seq<Seq<char>> {
    queue.map_values(|event: String| event@)
}

/// The backlogs of the listeners, by slot: a free slot holds none.
spec fn slots_model(slots: Seq<Option<VecDeque<String>>>) -> Map<nat, Seq<Seq<char>>> {
    Map::new(
        |listener: nat| listener < slots.len() && slots[listener as int] is Some,
        |listener: nat| events_view(slots[listener as int]->0@),
    )
}

spec fn slots_bounded(slots: Seq<Option<VecDeque<String>>>, capacity: nat) -> bool {
    forall|i: int|
        0 <= i < slots.len() && (#[trigger] slots[i]) is Some ==> slots[i]->0@.len() <= capacity
}

/// Puts `event` at the end of `queue`, which loses its oldest event if it
/// was full.
fn enqueue(queue: &mut VecDeque<String>, event: String, capacity: usize)
    requires
        old(queue)@.len() <= capacity,
    ensures
        events_view(final(queue)@) == keep_last(
            events_view(old(queue)@).push(event@),
            capacity as nat,
        ),
        final(queue)@.len() <= capacity,
{
    if capacity == 0 {
        assert(events_view(queue@) =~= keep_last(events_view(queue@).push(event@), 0));
        return ;
    }
    if queue.len() == capacity {
        let _ = queue.pop_front();
    }
    queue.push_back(event);
    assert(events_view(queue@) =~= keep_last(
        events_view(old(queue)@).push(event@),
        capacity as nat,
    ));
}

fn publish_to(slots: &mut Vec<Option<VecDeque<String>>>, event: &str, capacity: usize)
    requires
        slots_bounded(old(slots)@, capacity as nat),
    ensures
        slots_bounded(final(slots)@, capacity as nat),
        final(slots)@.len() == old(slots)@.len(),
        forall|i: int|
            0 <= i < old(slots)@.len() ==> match (#[trigger] old(slots)@[i]) {
                Some(queue) => final(slots)@[i] is Some && events_view(final(slots)@[i]->0@)
                    == keep_last(events_view(queue@).push(event@), capacity as nat),
                None => final(slots)@[i] is None,
            },
{
    let mut i: usize = 0;
    while i < slots.len()
        invariant
            i <= slots.len(),
            slots@.len() == old(slots)@.len(),
            slots_bounded(slots@, capacity as nat),
            forall|j: int| i <= j < slots@.len() ==> slots@[j] == old(slots)@[j],
            forall|j: int|
                0 <= j < i ==> match (#[trigger] old(slots)@[j]) {
                    Some(queue) => slots@[j] is Some && events_view(slots@[j]->0@) == keep_last(
                        events_view(queue@).push(event@),
                        capacity as nat,
                    ),
                    None => slots@[j] is None,
                },
        decreases slots.len() - i,
    {
        let ghost before = slots@;
        match &mut slots[i] {
            Some(queue) => {
                enqueue(queue, String::from_str(event), capacity);
            },
            None => {},
        }
        assert(forall|j: int| 0 <= j < slots@.len() && j != i ==> slots@[j] == before[j]);
        i += 1;
    }
}

/// Gives the first free slot an empty backlog, or adds a slot if none is free.
fn claim_slot(slots: &mut Vec<Option<VecDeque<String>>>) -> (slot: usize)
    ensures
        slot < final(slots)@.len(),
        final(slots)@.len() == if slot < old(slots)@.len() {
            old(slots)@.len()
        } else {
            old(slots)@.len() + 1
        },
        slot < old(slots)@.len() ==> old(slots)@[slot as int] is None,
        forall|j: int| 0 <= j < slot ==> old(slots)@[j] is Some,
        final(slots)@[slot as int] is Some,
        final(slots)@[slot as int]->0@.len() == 0,
        forall|j: int|
            0 <= j < old(slots)@.len() && j != slot ==> final(slots)@[j] == old(slots)@[j],
{
    let mut i: usize = 0;
    while i < slots.len()
        invariant
            i <= slots.len(),
            slots@ == old(slots)@,
            forall|j: int| 0 <= j < i ==> slots@[j] is Some,
        decreases slots.len() - i,
    {
        if slots[i].is_none() {
            slots[i] = Some(VecDeque::new());
            return i;
        }
        i += 1;
    }
    slots.push(Some(VecDeque::new()));
    i
}

/// Takes the oldest event out of the backlog in `slot`, if there is one.
fn take_from(slots: &mut Vec<Option<VecDeque<String>>>, slot: usize) -> (event: Option<String>)
    ensures
        final(slots)@.len() == old(slots)@.len(),
        forall|j: int|
            0 <= j < old(slots)@.len() && j != slot ==> final(slots)@[j] == old(slots)@[j],
        slot < old(slots)@.len() ==> match old(slots)@[slot as int] {
            Some(queue) => {
                &&& final(slots)@[slot as int] is Some
                &&& if queue@.len() > 0 {
                    &&& event == Some(queue@[0])
                    &&& final(slots)@[slot as int]->0@ == queue@.drop_first()
                } else {
                    &&& event is None
                    &&& final(slots)@[slot as int]->0@ == queue@
                }
            },
            None => event is None && final(slots)@[slot as int] is None,
        },
        slot >= old(slots)@.len() ==> event is None,
{
    if slot >= slots.len() {
        return None;
    }
    match &mut slots[slot] {
        Some(queue) => {
            let event = queue.pop_front();
            assert(event is Some ==> queue@ =~= old(slots)@[slot as int]->0@.drop_first());
            event
        },
        None => None,
    }
}

/// A fan-out of events to listeners. Each listener has a backlog of its
/// own, which holds at most `capacity` events; the broadcaster owns the
/// backlogs, and a listener is known by its number.
pub struct Broadcaster {
    capacity: usize,
    slots: Vec<Option<VecDeque<String>>>,
}

impl View for Broadcaster {
    type V = BroadcastModel;

    closed spec fn view(&self) -> BroadcastModel {
        BroadcastModel { capacity: self.capacity as nat, backlogs: slots_model(self.slots@) }
    }
}

// The methods that change the backlogs take the slots out of the broadcaster,
// change them and put them back. In between the broadcaster holds no slots,
// so that every value of it keeps every backlog within the bound.
impl Broadcaster {
    #[verifier::type_invariant]
    spec fn backlogs_bounded(self) -> bool {
        slots_bounded(self.slots@, self.capacity as nat)
    }

    /// A broadcaster without listeners, whose backlogs will hold up to
    /// `capacity` events each.
    pub fn new(capacity: usize) -> (hub: Broadcaster)
        ensures
            hub@ == BroadcastModel::empty(capacity as nat),
            hub@.bounded(),
    {
        let hub = Broadcaster { capacity, slots: Vec::new() };
        assert(hub@.backlogs =~= Map::<nat, Seq<Seq<char>>>::empty());
        hub
    }

    /// Subscribes a new listener and returns its number: the least that no
    /// subscribed listener bears. The listener starts with an empty backlog:
    /// it gets the events that are published from now on, and none from
    /// before.
    pub fn subscribe(&mut self) -> (listener: usize)
        ensures
            old(self)@.is_next_free(listener as nat),
            final(self)@ == old(self)@.subscribed(listener as nat),
            final(self)@.bounded(),
    {
        proof {
            use_type_invariant(&*self);
        }
        let mut slots: Vec<Option<VecDeque<String>>> = Vec::new();
        std::mem::swap(&mut self.slots, &mut slots);
        let listener = claim_slot(&mut slots);
        std::mem::swap(&mut self.slots, &mut slots);
        proof {
            assert(events_view(self.slots@[listener as int]->0@) =~= Seq::<Seq<char>>::empty());
            assert(self@.backlogs =~= old(self)@.subscribed(listener as nat).backlogs);
        }
        listener
    }

    /// Removes a listener and its backlog. Returns whether it was subscribed.
    pub fn unsubscribe(&mut self, listener: usize) -> (was_subscribed: bool)
        ensures
            was_subscribed == old(self)@.is_subscribed(listener as nat),
            final(self)@ == old(self)@.unsubscribed(listener as nat),
            final(self)@.bounded(),
    {
        proof {
            use_type_invariant(&*self);
        }
        if listener >= self.slots.len() {
            assert(self@.backlogs =~= old(self)@.unsubscribed(listener as nat).backlogs);
            return false;
        }
        let was_subscribed = self.slots[listener].is_some();
        let mut slots: Vec<Option<VecDeque<String>>> = Vec::new();
        std::mem::swap(&mut self.slots, &mut slots);
        slots[listener] = None;
        std::mem::swap(&mut self.slots, &mut slots);
        assert(self@.backlogs =~= old(self)@.unsubscribed(listener as nat).backlogs);
        was_subscribed
    }

    /// Takes the next event of a listener: the oldest of its backlog.
    /// Returns nothing if the backlog is empty or the listener is not
    /// subscribed; the broadcaster is then unchanged.
    pub fn next(&mut self, listener: usize) -> (event: Option<String>)
        ensures
            match event {
                Some(text) => old(self)@.next_event(listener as nat) == Some(text@),
                None => old(self)@.next_event(listener as nat) is None,
            },
            final(self)@ == old(self)@.taken(listener as nat),
            final(self)@.bounded(),
    {
        proof {
            use_type_invariant(&*self);
        }
        let mut slots: Vec<Option<VecDeque<String>>> = Vec::new();
        std::mem::swap(&mut self.slots, &mut slots);
        let event = take_from(&mut slots, listener);
        std::mem::swap(&mut self.slots, &mut slots);
        proof {
            if old(self)@.is_subscribed(listener as nat) {
                let queue = old(self).slots@[listener as int]->0@;
                if queue.len() > 0 {
                    assert(events_view(queue.drop_first()) =~= events_view(queue).drop_first());
                }
            }
            assert(self@.backlogs =~= old(self)@.taken(listener as nat).backlogs);
        }
        event
    }

    /// Publishes `event` to every listener that is subscribed now. The call
    /// never waits: a listener whose backlog is full loses its oldest event.
    pub fn publish(&mut self, event: &str)
        ensures
            final(self)@ == old(self)@.published(event@),
            final(self)@.bounded(),
    {
        proof {
            use_type_invariant(&*self);
        }
        let mut slots: Vec<Option<VecDeque<String>>> = Vec::new();
        std::mem::swap(&mut self.slots, &mut slots);
        publish_to(&mut slots, event, self.capacity);
        std::mem::swap(&mut self.slots, &mut slots);
        assert(self@.backlogs =~= old(self)@.published(event@).backlogs);
    }
}

impl Broadcaster {
    /// The number of events that a backlog holds at most.
    pub fn capacity(&self) -> (capacity: usize)
        ensures
            capacity == self@.capacity,
    {
        self.capacity
    }

    /// Whether `listener` is subscribed.
    pub fn is_subscribed(&self, listener: usize) -> (subscribed: bool)
        ensures
            subscribed == self@.is_subscribed(listener as nat),
    {
        listener < self.slots.len() && self.slots[listener].is_some()
    }

    /// The number of events that `listener` has yet to take; none for a
    /// listener that is not subscribed.
    pub fn pending(&self, listener: usize) -> (count: usize)
        ensures
            count == if self@.is_subscribed(listener as nat) {
                self@.backlogs[listener as nat].len()
            } else {
                0
            },
            count <= self@.capacity,
    {
        proof {
            use_type_invariant(self);
        }
        if listener >= self.slots.len() {
            return 0;
        }
        match &self.slots[listener] {
            Some(queue) => queue.len(),
            None => 0,
        }
    }
}

/// Fan-out: one publication reaches every subscribed listener, once. A
/// listener whose backlog had room has the event at the end of its
/// backlog, behind what it had; one whose backlog was empty takes the
/// event next and nothing after it.
pub proof fn lemma_fan_out(hub: BroadcastModel, event: Seq<char>)
    ensures
        forall|listener: nat|
            hub.is_subscribed(listener) <==> #[trigger] hub.published(event).is_subscribed(
                listener,
            ),
        forall|listener: nat|
            hub.is_subscribed(listener) && hub.backlogs[listener].len() < hub.capacity
                ==> #[trigger] hub.published(event).backlogs[listener]
                == hub.backlogs[listener].push(event),
        forall|listener: nat|
            hub.is_subscribed(listener) && hub.backlogs[listener].len() == 0 && hub.capacity > 0
                ==> {
                &&& #[trigger] hub.published(event).next_event(listener) == Some(event)
                &&& hub.published(event).taken(listener).next_event(listener) is None
            },
{
    assert forall|listener: nat|
        hub.is_subscribed(listener) && hub.backlogs[listener].len() == 0 && hub.capacity
            > 0 implies {
        &&& #[trigger] hub.published(event).next_event(listener) == Some(event)
        &&& hub.published(event).taken(listener).next_event(listener) is None
    } by {
        let after = hub.published(event).backlogs[listener];
        assert(after == hub.backlogs[listener].push(event));
        assert(after.drop_first() =~= Seq::<Seq<char>>::empty());
    }
}

/// Publishing into a backlog that has kept the last events of a history
/// keeps the last events of the longer history.
proof fn lemma_keep_last_push(history: Seq<Seq<char>>, event: Seq<char>, capacity: nat)
    ensures
        keep_last(keep_last(history, capacity).push(event), capacity) == keep_last(
            history.push(event),
            capacity,
        ),
{
    assert(keep_last(keep_last(history, capacity).push(event), capacity) =~= keep_last(
        history.push(event),
        capacity,
    ));
}

/// Isolation: what a listener holds after any number of publications
/// depends on its own backlog alone. It is the last `capacity` events of
/// what it held followed by what was published, whatever the backlogs of
/// the other listeners hold and whether or not they ever take an event.
/// No publication waits for a listener: `publish` asks nothing of the
/// backlogs.
pub proof fn lemma_backpressure_isolation(
    hub: BroadcastModel,
    events: Seq<Seq<char>>,
    listener: nat,
)
    requires
        hub.bounded(),
        hub.is_subscribed(listener),
    ensures
        hub.published_all(events).capacity == hub.capacity,
        hub.published_all(events).is_subscribed(listener),
        hub.published_all(events).backlogs[listener] == keep_last(
            hub.backlogs[listener] + events,
            hub.capacity,
        ),
    decreases events.len(),
{
    let held = hub.backlogs[listener];
    if events.len() == 0 {
        assert(held + events =~= held);
    } else {
        let earlier = events.drop_last();
        lemma_backpressure_isolation(hub, earlier, listener);
        lemma_keep_last_push(held + earlier, events.last(), hub.capacity);
        assert((held + earlier).push(events.last()) =~= held + events);
    }
}

} // verus!
