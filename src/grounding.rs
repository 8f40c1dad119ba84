use vstd::prelude::*;

verus! {

/// A collision reported by the physics engine between two entities, given by
/// their identifiers.
#[derive(Clone, Copy, Debug, PartialEq, Eq, Structural)]
pub enum CollisionEvent {
    /// The two entities started touching.
    Started(u64, u64),
    /// The two entities stopped touching.
    Stopped(u64, u64),
}

/// The ground entities a body currently touches, each recorded once.
pub struct CollidedGrounds {
    grounds: Vec<u64>,
}

impl View for CollidedGrounds {
    type V = Seq<u64>;

    closed spec fn view(&self) -> Seq<u64> {
        self.grounds@
    }
}

impl CollidedGrounds {
    /// No ground entity is recorded twice.
    pub open spec fn wf(&self) -> bool {
        self@.no_duplicates()
    }

    /// An empty set: the body is airborne.
    pub fn new() -> (r: Self)
        ensures
            r@ == Seq::<u64>::empty(),
            r.wf(),
    {
        CollidedGrounds { grounds: Vec::new() }
    }

    /// Whether the body touches at least one ground entity.
    pub fn is_grounded(&self) -> (r: bool)
        ensures
            r == (self@.len() > 0),
    {
        self.grounds.len() > 0
    }

    pub fn len(&self) -> (r: usize)
        ensures
            r == self@.len(),
    {
        self.grounds.len()
    }

    pub fn contains(&self, ground: u64) -> (r: bool)
        ensures
            r == self@.contains(ground),
    {
        self.position(ground).is_some()
    }

    /// The recorded ground entities, in the order the set keeps them.
    pub fn to_vec(&self) -> (r: Vec<u64>)
        ensures
            r@ == self@,
    {
        let mut r: Vec<u64> = Vec::new();
        let mut i: usize = 0;
        while i < self.grounds.len()
            invariant
                i <= self.grounds@.len(),
                r@ == self.grounds@.subrange(0, i as int),
            decreases self.grounds@.len() - i,
        {
            r.push(self.grounds[i]);
            i = i + 1;
            assert(r@ =~= self.grounds@.subrange(0, i as int));
        }
        assert(r@ =~= self.grounds@);
        r
    }

    fn position(&self, ground: u64) -> (r: Option<usize>)
        ensures
            r is Some ==> r->0 < self@.len() && self@[r->0 as int] == ground,
            r is None ==> !self@.contains(ground),
    {
        let mut i: usize = 0;
        while i < self.grounds.len()
            invariant
                i <= self.grounds@.len(),
                forall|j: int| 0 <= j < i ==> self.grounds@[j] != ground,
            decreases self.grounds@.len() - i,
        {
            if self.grounds[i] == ground {
                return Some(i);
            }
            i = i + 1;
        }
        None
    }

    /// Records that the body started touching `ground`, at the end; a ground
    /// already recorded is not added again and the order is kept.
    pub fn insert(&mut self, ground: u64)
        requires
            old(self).wf(),
        ensures
            final(self).wf(),
            final(self)@ == with_ground(old(self)@, ground),
            final(self)@.to_set() == old(self)@.to_set().insert(ground),
    {
        if self.position(ground).is_none() {
            self.grounds.push(ground);
            assert(final(self)@.to_set() =~= old(self)@.to_set().insert(ground)) by {
                assert(forall|x: u64| #[trigger] final(self)@.contains(x) <==> (old(self)@.contains(x) || x == ground)) by {
                    assert(final(self)@.last() == ground);
                    assert(forall|k: int| 0 <= k < old(self)@.len() ==> final(self)@[k] == #[trigger] old(self)@[k]);
                }
            }
        } else {
            assert(final(self)@.to_set() =~= old(self)@.to_set().insert(ground));
        }
    }

    /// Records that the body stopped touching `ground`: the last entry takes
    /// its place. A ground that was never recorded changes nothing.
    pub fn remove(&mut self, ground: u64)
        requires
            old(self).wf(),
        ensures
            final(self).wf(),
            final(self)@ == without_ground(old(self)@, ground),
            old(self)@.contains(ground) ==> final(self)@.len() + 1 == old(self)@.len(),
            final(self)@.to_set() == old(self)@.to_set().remove(ground),
    {
        match self.position(ground) {
            Some(idx) => {
                let ghost s = self.grounds@;
                self.grounds.swap_remove(idx);
                let ghost t = self.grounds@;
                assert(s.index_of(ground) == idx as int) by {
                    assert(s.contains(ground));
                }
                assert(forall|k: int| 0 <= k < t.len() ==> #[trigger] t[k] == (if k == idx {
                    s.last()
                } else {
                    s[k]
                }));
                assert(forall|k: int| 0 <= k < t.len() ==> t[k] != ground);
                assert(forall|x: u64| #[trigger] t.contains(x) <==> (s.contains(x) && x != ground)) by {
                    assert forall|x: u64| s.contains(x) && x != ground implies t.contains(x) by {
                        let k = choose|k: int| 0 <= k < s.len() && s[k] == x;
                        if k == s.len() - 1 {
                            assert(t[idx as int] == x);
                        } else {
                            assert(t[k] == x);
                        }
                    }
                }
                assert(t.to_set() =~= s.to_set().remove(ground));
            },
            None => {
                assert(self@.to_set() =~= old(self)@.to_set().remove(ground));
            },
        }
    }
}

impl CollidedGrounds {
    /// Applies one collision event to the contacts of the body `entity`, where
    /// `grounds` lists the ground entities.
    pub fn apply_event(&mut self, entity: u64, grounds: &Vec<u64>, event: CollisionEvent)
        requires
            old(self).wf(),
        ensures
            final(self).wf(),
            final(self)@ == contacts_after_event(entity, old(self)@, grounds@.to_set(), event),
    {
        match event {
            CollisionEvent::Started(a, b) => {
                if a == entity && is_ground(grounds, b) {
                    self.insert(b);
                }
                if b == entity && is_ground(grounds, a) {
                    self.insert(a);
                }
            },
            CollisionEvent::Stopped(a, b) => {
                if a == entity && is_ground(grounds, b) {
                    self.remove(b);
                }
                if b == entity && is_ground(grounds, a) {
                    self.remove(a);
                }
            },
        }
    }
}

/// Whether `entity` is one of `grounds`.
pub fn is_ground(grounds: &Vec<u64>, entity: u64) -> (r: bool)
    ensures
        r == grounds@.contains(entity),
{
    let mut i: usize = 0;
    while i < grounds.len()
        invariant
            i <= grounds@.len(),
            forall|j: int| 0 <= j < i ==> grounds@[j] != entity,
        decreases grounds@.len() - i,
    {
        if grounds[i] == entity {
            return true;
        }
        i = i + 1;
    }
    false
}

/// Ray-cast grounding: a body is supported when the first entity hit by the
/// downward ray from above it is a ground entity.
pub fn ray_hit_grounds(hit: Option<u64>, grounds: &Vec<u64>) -> (r: bool)
    ensures
        r == (hit is Some && grounds@.contains(hit->0)),
{
    match hit {
        Some(e) => is_ground(grounds, e),
        None => false,
    }
}

/// A body that is not ground, with the ground entities it touches.
pub struct GroundedBody {
    pub entity: u64,
    pub contacts: CollidedGrounds,
}

/// Drains this step's collision events into the contacts of every tracked
/// body, in the order the events came.
pub fn check_collided_grounds(
    grounds: &Vec<u64>,
    bodies: &mut Vec<GroundedBody>,
    events: &Vec<CollisionEvent>,
)
    requires
        forall|j: int| 0 <= j < old(bodies)@.len() ==> (#[trigger] old(bodies)@[j]).contacts.wf(),
    ensures
        final(bodies)@.len() == old(bodies)@.len(),
        forall|j: int|
            0 <= j < final(bodies)@.len() ==> {
                &&& (#[trigger] final(bodies)@[j]).entity == old(bodies)@[j].entity
                &&& final(bodies)@[j].contacts.wf()
                &&& final(bodies)@[j].contacts@ == contacts_after_events(
                    old(bodies)@[j].entity,
                    old(bodies)@[j].contacts@,
                    grounds@.to_set(),
                    events@,
                )
            },
{
    let ghost orig = bodies@;
    let mut j: usize = 0;
    while j < bodies.len()
        invariant
            bodies@.len() == orig.len(),
            j <= orig.len(),
            forall|k: int| j <= k < orig.len() ==> #[trigger] bodies@[k] == orig[k],
            forall|k: int| 0 <= k < orig.len() ==> (#[trigger] orig[k]).contacts.wf(),
            forall|k: int|
                0 <= k < j ==> {
                    &&& (#[trigger] bodies@[k]).entity == orig[k].entity
                    &&& bodies@[k].contacts.wf()
                    &&& bodies@[k].contacts@ == contacts_after_events(
                        orig[k].entity,
                        orig[k].contacts@,
                        grounds@.to_set(),
                        events@,
                    )
                },
        decreases orig.len() - j,
    {
        let entity = bodies[j].entity;
        let ghost before = bodies@;
        let mut i: usize = 0;
        while i < events.len()
            invariant
                bodies@.len() == orig.len(),
                before.len() == orig.len(),
                j < orig.len(),
                forall|k: int| j < k < orig.len() ==> #[trigger] before[k] == orig[k],
                forall|k: int|
                    0 <= k < j ==> {
                        &&& (#[trigger] before[k]).entity == orig[k].entity
                        &&& before[k].contacts.wf()
                        &&& before[k].contacts@ == contacts_after_events(
                            orig[k].entity,
                            orig[k].contacts@,
                            grounds@.to_set(),
                            events@,
                        )
                    },
                i <= events@.len(),
                entity == orig[j as int].entity,
                forall|k: int| 0 <= k < orig.len() && k != j ==> #[trigger] bodies@[k] == before[k],
                bodies@[j as int].entity == entity,
                bodies@[j as int].contacts.wf(),
                bodies@[j as int].contacts@ == contacts_after_events(
                    entity,
                    orig[j as int].contacts@,
                    grounds@.to_set(),
                    events@.subrange(0, i as int),
                ),
            decreases events@.len() - i,
        {
            bodies[j].contacts.apply_event(entity, grounds, events[i]);
            assert(events@.subrange(0, i + 1).drop_last() =~= events@.subrange(0, i as int));
            i = i + 1;
        }
        assert(events@.subrange(0, events@.len() as int) =~= events@);
        j = j + 1;
    }
}

/// `contacts` with `ground` appended, unless it is already there.
pub open spec fn with_ground(contacts: Seq<u64>, ground: u64) -> Seq<u64> {
    if contacts.contains(ground) {
        contacts
    } else {
        contacts.push(ground)
    }
}

/// `contacts` without `ground`: its place is taken by the last entry.
pub open spec fn without_ground(contacts: Seq<u64>, ground: u64) -> Seq<u64> {
    if contacts.contains(ground) {
        contacts.update(contacts.index_of(ground), contacts.last()).drop_last()
    } else {
        contacts
    }
}

/// Whether `event` pairs the body `entity` with a ground entity.
pub open spec fn touches(entity: u64, grounds: Set<u64>, event: CollisionEvent) -> bool {
    match event {
        CollisionEvent::Started(a, b) | CollisionEvent::Stopped(a, b) => (a == entity
            && grounds.contains(b)) || (b == entity && grounds.contains(a)),
    }
}

/// The contacts of the body `entity` after one collision event: a ground
/// entity on the other side of a start is added, on the other side of a stop
/// removed; events not involving `entity` and a ground entity change nothing.
pub open spec fn contacts_after_event(
    entity: u64,
    contacts: Seq<u64>,
    grounds: Set<u64>,
    event: CollisionEvent,
) -> Seq<u64> {
    match event {
        CollisionEvent::Started(a, b) => {
            let c = if a == entity && grounds.contains(b) {
                with_ground(contacts, b)
            } else {
                contacts
            };
            if b == entity && grounds.contains(a) {
                with_ground(c, a)
            } else {
                c
            }
        },
        CollisionEvent::Stopped(a, b) => {
            let c = if a == entity && grounds.contains(b) {
                without_ground(contacts, b)
            } else {
                contacts
            };
            if b == entity && grounds.contains(a) {
                without_ground(c, a)
            } else {
                c
            }
        },
    }
}

/// The contacts of the body `entity` after a sequence of collision events,
/// taken in order.
pub open spec fn contacts_after_events(
    entity: u64,
    contacts: Seq<u64>,
    grounds: Set<u64>,
    events: Seq<CollisionEvent>,
) -> Seq<u64>
    decreases events.len(),
{
    if events.len() == 0 {
        contacts
    } else {
        contacts_after_event(
            entity,
            contacts_after_events(entity, contacts, grounds, events.drop_last()),
            grounds,
            events.last(),
        )
    }
}

/// From no contacts, a start between the body and ground `g` leaves exactly
/// `[g]`, and the stop that follows leaves none again. A start with a ground
/// already recorded, and a stop with an entity the body does not touch, change
/// nothing.
pub proof fn lemma_start_then_stop(entity: u64, g: u64, grounds: Set<u64>, contacts: Seq<u64>, x: u64)
    requires
        grounds.contains(g),
    ensures
        contacts_after_events(entity, Seq::empty(), grounds, seq![CollisionEvent::Started(entity, g)])
            == seq![g],
        contacts_after_events(
            entity,
            Seq::empty(),
            grounds,
            seq![CollisionEvent::Started(entity, g), CollisionEvent::Stopped(entity, g)],
        ) == Seq::<u64>::empty(),
        contacts.contains(g) && (g != entity || contacts.contains(entity)) ==> contacts_after_event(
            entity,
            contacts,
            grounds,
            CollisionEvent::Started(entity, g),
        ) == contacts,
        !contacts.contains(x) ==> contacts_after_event(
            entity,
            contacts,
            grounds,
            CollisionEvent::Stopped(entity, x),
        ) == contacts,
{
    let one = seq![CollisionEvent::Started(entity, g)];
    let two = seq![CollisionEvent::Started(entity, g), CollisionEvent::Stopped(entity, g)];
    let empty = Seq::<CollisionEvent>::empty();
    assert(one.drop_last() =~= empty);
    assert(two.drop_last() =~= one);
    assert(one.last() == CollisionEvent::Started(entity, g));
    assert(two.last() == CollisionEvent::Stopped(entity, g));
    let e = Seq::<u64>::empty();
    assert(!e.contains(g));
    assert(e.push(g) =~= seq![g]);
    assert(seq![g].contains(g)) by {
        assert(seq![g][0] == g);
    }
    assert(contacts_after_events(entity, e, grounds, empty) == e);
    assert(with_ground(e, g) =~= seq![g]);
    assert(with_ground(seq![g], g) == seq![g]);
    assert(contacts_after_event(entity, e, grounds, CollisionEvent::Started(entity, g))
        =~= seq![g]);
    assert(contacts_after_events(entity, e, grounds, one) =~= seq![g]);
    assert(seq![g].index_of(g) == 0);
    assert(contacts_after_event(entity, seq![g], grounds, CollisionEvent::Stopped(entity, g))
        =~= e);
}

/// Events that never pair the body `entity` with a ground entity leave its
/// contacts exactly as they were, order included.
pub proof fn lemma_untouched_contacts_kept(
    entity: u64,
    contacts: Seq<u64>,
    grounds: Set<u64>,
    events: Seq<CollisionEvent>,
)
    requires
        forall|i: int| 0 <= i < events.len() ==> !touches(entity, grounds, #[trigger] events[i]),
    ensures
        contacts_after_events(entity, contacts, grounds, events) == contacts,
    decreases events.len(),
{
    if events.len() > 0 {
        let rest = events.drop_last();
        assert forall|i: int| 0 <= i < rest.len() implies !touches(entity, grounds, #[trigger] rest[i]) by {
            assert(rest[i] == events[i]);
        }
        lemma_untouched_contacts_kept(entity, contacts, grounds, rest);
        assert(!touches(entity, grounds, events[events.len() - 1]));
    }
}

/// A body touches some ground exactly when its contact set is not empty.
pub proof fn lemma_grounded_iff_contacts(contacts: &CollidedGrounds)
    ensures
        contacts@.len() > 0 <==> contacts@.to_set() != Set::<u64>::empty(),
{
    if contacts@.len() > 0 {
        assert(contacts@.to_set().contains(contacts@[0]));
    } else {
        assert(contacts@.to_set() =~= Set::<u64>::empty());
    }
}

} // verus!
