//! Listeners grouped by the type of event they listen to, called in the
//! order they subscribed.

use std::any::TypeId;

use vstd::prelude::*;

verus! {

/// The standard library's identifier of a type, by which listeners are
/// grouped.
#[verifier::external_type_specification]
#[verifier::external_body]
pub struct ExTypeId(TypeId);

/// Calls `==` on two `TypeId`s, which holds exactly when they identify the
/// same type, that is when they are the same value.
#[verifier::external_body]
fn same_type(a: &TypeId, b: &TypeId) -> (r: bool)
    ensures
        r == (*a == *b),
{
    *a == *b
}

/// Something that reacts to events of type `E`.
pub trait EventListener<E: ?Sized> {
    fn on_event(&self, event: &E);
}

/// Listeners grouped by event type, each group in the order its listeners
/// subscribed.
pub struct EventBus<L> {
    groups: Vec<(TypeId, Vec<L>)>,
}

impl<L> EventBus<L> {
    /// The groups: an event type and its listeners, in order.
    pub closed spec fn groups(&self) -> Seq<(TypeId, Seq<L>)> {
        self.groups@.map_values(|g: (TypeId, Vec<L>)| (g.0, g.1@))
    }

    /// The listeners of events of type `key`, in the order they subscribed.
    pub open spec fn listeners_of(&self, key: TypeId) -> Seq<L> {
        if exists|i: int| 0 <= i < self.groups().len() && #[trigger] self.groups()[i].0 == key {
            self.groups()[choose|i: int|
                0 <= i < self.groups().len() && #[trigger] self.groups()[i].0 == key].1
        } else {
            Seq::empty()
        }
    }

    /// Each event type has at most one group.
    pub open spec fn well_formed(&self) -> bool {
        forall|i: int, j: int|
            0 <= i < j < self.groups().len() ==> #[trigger] self.groups()[i].0
                != #[trigger] self.groups()[j].0
    }

    /// No listeners.
    pub fn new() -> (r: EventBus<L>)
        ensures
            r.well_formed(),
            forall|key: TypeId| #[trigger] r.listeners_of(key) == Seq::<L>::empty(),
    {
        let r = EventBus { groups: Vec::new() };
        assert(r.groups() =~= Seq::<(TypeId, Seq<L>)>::empty());
        r
    }

    /// Where the group of event type `key` stands, if there is one.
    fn find(&self, key: &TypeId) -> (r: Option<usize>)
        requires
            self.well_formed(),
        ensures
            match r {
                Some(i) => i < self.groups().len() && self.groups()[i as int].0 == *key
                    && self.listeners_of(*key) == self.groups()[i as int].1,
                None => self.listeners_of(*key) == Seq::<L>::empty() && forall|i: int|
                    0 <= i < self.groups().len() ==> #[trigger] self.groups()[i].0 != *key,
            },
    {
        let mut i: usize = 0;
        while i < self.groups.len()
            invariant
                i <= self.groups.len(),
                self.well_formed(),
                forall|j: int| 0 <= j < i ==> #[trigger] self.groups()[j].0 != *key,
            decreases self.groups.len() - i,
        {
            if same_type(&self.groups[i].0, key) {
                assert(self.groups()[i as int].0 == *key);
                return Some(i);
            }
            i += 1;
        }
        None
    }

    /// Adds `listener` at the end of the listeners of event type `key`.
    pub fn subscribe(&mut self, key: TypeId, listener: L)
        requires
            old(self).well_formed(),
        ensures
            final(self).well_formed(),
            final(self).listeners_of(key) == old(self).listeners_of(key).push(listener),
            forall|other: TypeId|
                other != key ==> #[trigger] final(self).listeners_of(other) == old(self).listeners_of(
                    other,
                ),
    {
        let ghost before = self.groups();
        match self.find(&key) {
            Some(i) => {
                let mut group = self.groups.remove(i);
                group.1.push(listener);
                self.groups.insert(i, group);
                proof {
                    let after = self.groups();
                    assert(after =~= before.update(i as int, (key, before[i as int].1.push(listener))));
                    assert(after[i as int].0 == key);
                    assert forall|other: TypeId| other != key implies #[trigger] self.listeners_of(other)
                        == old(self).listeners_of(other) by {
                        if exists|j: int| 0 <= j < before.len() && #[trigger] before[j].0 == other {
                            let j = choose|j: int| 0 <= j < before.len() && #[trigger] before[j].0 == other;
                            assert(after[j].0 == other);
                        }
                    }
                }
            },
            None => {
                let mut listeners: Vec<L> = Vec::new();
                listeners.push(listener);
                self.groups.push((key, listeners));
                proof {
                    let after = self.groups();
                    assert(after =~= before.push((key, seq![listener])));
                    assert(after[before.len() as int].0 == key);
                    assert forall|other: TypeId| other != key implies #[trigger] self.listeners_of(other)
                        == old(self).listeners_of(other) by {
                        if exists|j: int| 0 <= j < before.len() && #[trigger] before[j].0 == other {
                            let j = choose|j: int| 0 <= j < before.len() && #[trigger] before[j].0 == other;
                            assert(after[j].0 == other);
                        }
                    }
                }
            },
        }
    }

    /// The listeners of event type `key`, in the order they subscribed.
    pub fn listeners_for(&self, key: &TypeId) -> (r: &[L])
        requires
            self.well_formed(),
        ensures
            r@ == self.listeners_of(*key),
    {
        match self.find(key) {
            Some(i) => self.groups[i].1.as_slice(),
            None => &[],
        }
    }

    /// The number of listeners of event type `key`.
    pub fn listener_count(&self, key: &TypeId) -> (r: usize)
        requires
            self.well_formed(),
        ensures
            r == self.listeners_of(*key).len(),
    {
        self.listeners_for(key).len()
    }

    /// Whether event type `key` has any listener.
    pub fn has_listeners(&self, key: &TypeId) -> (r: bool)
        requires
            self.well_formed(),
        ensures
            r == (self.listeners_of(*key).len() > 0),
    {
        self.listener_count(key) > 0
    }

    /// Hands `event` to each listener of event type `key`, in the order they
    /// subscribed.
    pub fn publish<E: ?Sized>(&self, key: &TypeId, event: &E) where L: EventListener<E>
        requires
            self.well_formed(),
        ensures
            forall|j: int|
                0 <= j < self.listeners_of(*key).len() ==> call_ensures(
                    L::on_event,
                    (&#[trigger] self.listeners_of(*key)[j], event),
                    (),
                ),
    {
        let listeners = self.listeners_for(key);
        let mut i: usize = 0;
        while i < listeners.len()
            invariant
                i <= listeners@.len(),
                listeners@ == self.listeners_of(*key),
                forall|j: int|
                    0 <= j < i ==> call_ensures(L::on_event, (&#[trigger] listeners@[j], event), ()),
            decreases listeners@.len() - i,
        {
            listeners[i].on_event(event);
            i += 1;
        }
    }
}

impl<L> Default for EventBus<L> {
    /// No listeners.
    fn default() -> (r: EventBus<L>)
        ensures
            r.well_formed(),
            forall|key: TypeId| #[trigger] r.listeners_of(key) == Seq::<L>::empty(),
    {
        EventBus::new()
    }
}

} // verus!
