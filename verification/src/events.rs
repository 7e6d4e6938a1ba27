//! The per-step event queue: an append-only buffer with one monotone read
//! cursor per registered consumer, so several systems each see every event
//! exactly once. An event stays visible through the step after the one
//! that sent it — so a consumer scheduled before the producer still sees
//! it, one step late — and ages out at the second event phase.

use vstd::prelude::*;

verus! {

/// The domain events systems exchange within a step.
#[derive(Clone, Copy, Debug, PartialEq, Eq, Structural)]
pub enum GameEvents {
    /// The player entity died this step (self-destruct).
    PlayerDeath,
    /// A player entity was spawned.
    PlayerSpawn,
    /// A projectile crossed a screen edge and died.
    ProjectileDeath,
}

/// The event queue resource.
pub struct Events {
    /// Last step's surviving events followed by this step's, in order.
    pub events: Vec<GameEvents>,
    /// One read position per registered consumer.
    pub cursors: Vec<usize>,
    /// Where this step's events begin; everything before it was sent
    /// last step and ages out at the next event phase.
    pub fresh: usize,
}

impl Events {
    /// Every cursor sits inside the buffer, as does the freshness mark.
    pub open spec fn wf(self) -> bool {
        &&& forall|r: int|
            0 <= r < self.cursors.len() ==> #[trigger] self.cursors[r] <= self.events.len()
        &&& self.fresh <= self.events.len()
    }

    /// An empty queue with no consumers yet.
    pub fn new() -> (q: Events)
        ensures
            q.events@ == Seq::<GameEvents>::empty(),
            q.cursors@ == Seq::<usize>::empty(),
            q.fresh == 0,
            q.wf(),
    {
        Events { events: Vec::new(), cursors: Vec::new(), fresh: 0 }
    }

    /// Registers a consumer before the first frame and hands it its
    /// cursor; a consumer sees only events sent after its registration.
    pub fn register_reader(&mut self) -> (r: usize)
        requires
            old(self).wf(),
            old(self).cursors@.len() < usize::MAX,
        ensures
            r == old(self).cursors@.len(),
            final(self).cursors@ == old(self).cursors@.push(old(self).events@.len() as usize),
            final(self).events@ == old(self).events@,
            final(self).wf(),
    {
        let r = self.cursors.len();
        let at = self.events.len();
        self.cursors.push(at);
        r
    }

    /// Appends one event.
    pub fn send(&mut self, e: GameEvents)
        requires
            old(self).wf(),
            old(self).events@.len() < usize::MAX,
        ensures
            final(self).events@ == old(self).events@.push(e),
            final(self).cursors@ == old(self).cursors@,
            final(self).fresh == old(self).fresh,
            final(self).wf(),
    {
        self.events.push(e);
    }

    /// Hands consumer `reader` every event it has not seen yet and moves
    /// its cursor to the end of the buffer.
    pub fn read(&mut self, reader: usize) -> (out: Vec<GameEvents>)
        requires
            old(self).wf(),
            reader < old(self).cursors@.len(),
        ensures
            out@ == old(self).events@.subrange(old(self).cursors@[reader as int] as int, old(
                self,
            ).events@.len() as int),
            final(self).events@ == old(self).events@,
            final(self).cursors@ == old(self).cursors@.update(
                reader as int,
                old(self).events@.len() as usize,
            ),
            final(self).fresh == old(self).fresh,
            final(self).wf(),
    {
        let mut out: Vec<GameEvents> = Vec::new();
        let from: usize = self.cursors[reader];
        let to: usize = self.events.len();
        let mut i: usize = from;
        while i < to
            invariant
                from <= i <= to,
                to == self.events@.len(),
                from <= to,
                out@ == self.events@.subrange(from as int, i as int),
            decreases to - i,
        {
            out.push(self.events[i]);
            proof {
                assert(self.events@.subrange(from as int, i + 1 as int) == self.events@.subrange(
                    from as int,
                    i as int,
                ).push(self.events@[i as int]));
            }
            i = i + 1;
        }
        self.cursors[reader] = to;
        out
    }

    /// Starts a new step's event phase: the events that already survived
    /// one phase age out, this step's senders append after `fresh`, and
    /// every cursor moves down with the surviving events — so a consumer
    /// scheduled before the producer reads last step's events here,
    /// still exactly once.
    pub fn update(&mut self)
        requires
            old(self).wf(),
        ensures
            final(self).events@ == old(self).events@.skip(old(self).fresh as int),
            final(self).fresh == final(self).events@.len(),
            final(self).cursors@.len() == old(self).cursors@.len(),
            forall|r: int|
                0 <= r < final(self).cursors@.len() ==> #[trigger] final(self).cursors@[r] as int
                    == (if old(self).cursors@[r] >= old(self).fresh {
                    old(self).cursors@[r] - old(self).fresh
                } else {
                    0int
                }),
            final(self).wf(),
    {
        let ghost e0 = self.events@;
        let ghost c0 = self.cursors@;
        let drop: usize = self.fresh;
        let n = self.events.len();
        let mut kept: Vec<GameEvents> = Vec::new();
        let mut i: usize = drop;
        while i < n
            invariant
                drop <= i <= n,
                n == self.events@.len(),
                self.events@ == e0,
                self.cursors@ == c0,
                kept@ == e0.subrange(drop as int, i as int),
            decreases n - i,
        {
            kept.push(self.events[i]);
            proof {
                assert(e0.subrange(drop as int, i + 1 as int) == e0.subrange(
                    drop as int,
                    i as int,
                ).push(e0[i as int]));
            }
            i = i + 1;
        }
        self.events = kept;
        proof {
            assert(self.events@ =~= e0.skip(drop as int));
        }
        self.fresh = self.events.len();
        let m = self.cursors.len();
        let mut r: usize = 0;
        while r < m
            invariant
                r <= m,
                m == self.cursors@.len(),
                self.events@ == e0.skip(drop as int),
                self.fresh == self.events@.len(),
                drop <= e0.len(),
                forall|k: int| 0 <= k < m ==> #[trigger] c0[k] <= e0.len(),
                forall|k: int| r <= k < m ==> #[trigger] self.cursors@[k] == c0[k],
                forall|k: int|
                    0 <= k < r ==> #[trigger] self.cursors@[k] as int == (if c0[k] >= drop {
                        c0[k] - drop
                    } else {
                        0int
                    }),
            decreases m - r,
        {
            let c = self.cursors[r];
            self.cursors[r] = if c >= drop {
                c - drop
            } else {
                0
            };
            r = r + 1;
        }
    }

    /// Consumes the unread slice for `reader` (as `read` does) and tells
    /// whether it held the given event.
    pub fn read_contains(&mut self, reader: usize, e: GameEvents) -> (r: bool)
        requires
            old(self).wf(),
            reader < old(self).cursors@.len(),
        ensures
            r == old(self).events@.subrange(
                old(self).cursors@[reader as int] as int,
                old(self).events@.len() as int,
            ).contains(e),
            final(self).events@ == old(self).events@,
            final(self).cursors@ == old(self).cursors@.update(
                reader as int,
                old(self).events@.len() as usize,
            ),
            final(self).fresh == old(self).fresh,
            final(self).wf(),
    {
        let seen = self.read(reader);
        let ghost sub = old(self).events@.subrange(
            old(self).cursors@[reader as int] as int,
            old(self).events@.len() as int,
        );
        let mut found = false;
        let mut i: usize = 0;
        while i < seen.len()
            invariant
                i <= seen@.len(),
                seen@ == sub,
                found == exists|k: int| 0 <= k < i && seen@[k] == e,
            decreases seen@.len() - i,
        {
            if seen[i] == e {
                found = true;
                proof {
                    assert(seen@[i as int] == e);
                }
            }
            i = i + 1;
        }
        proof {
            if found {
                let k = choose|k: int| 0 <= k < seen@.len() && seen@[k] == e;
                assert(sub.contains(e)) by {
                    assert(sub[k] == e);
                }
            } else {
                assert(!sub.contains(e)) by {
                    assert(forall|k: int| 0 <= k < sub.len() ==> sub[k] != e);
                }
            }
        }
        found
    }
}

} // verus!
