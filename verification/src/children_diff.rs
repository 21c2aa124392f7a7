//! Keeps a visual child list synchronized with a logical keyed collection.
//!
//! A [`ChildrenDiff`] owns an ordered mapping from key to value together with
//! the bookkeeping needed to mirror it onto a live, ordered sequence of child
//! UI elements.  Mutations (`add` / `update` / `update_with` / `remove`) do
//! not touch the children directly: each one records the key as pending and
//! enqueues a diff event.  Events are then delivered one at a time to a
//! caller-supplied [`DiffHandler`], which renders, updates and destroys the
//! actual children.  The handler's `on_change` callback fires only when the
//! pending set drains — so a batch of N mutations produces one settlement
//! notification, not N.
//!
//! Values live in shared cells: an event refers to the cell it was issued
//! for, and a callback always observes the cell's content at delivery time,
//! exactly as a reference-counted interior-mutable cell would behave.

use vstd::prelude::*;
use std::collections::VecDeque;

verus! {

/// One atomic change to the keyed collection, waiting to be delivered.
///
/// `cell` is the index of the value cell the event was issued for.
#[derive(Clone, Copy, Debug)]
pub enum DiffEvent {
    Insert { key: u64, cell: usize },
    Update { key: u64, cell: usize },
    Remove { key: u64 },
}

/// The key an event is about.
pub open spec fn event_key(e: DiffEvent) -> u64 {
    match e {
        DiffEvent::Insert { key, .. } => key,
        DiffEvent::Update { key, .. } => key,
        DiffEvent::Remove { key } => key,
    }
}

/// Whether the cell index an event carries (if any) is in bounds.
pub open spec fn event_cell_ok(e: DiffEvent, n_cells: nat) -> bool {
    match e {
        DiffEvent::Insert { cell, .. } => cell < n_cells,
        DiffEvent::Update { cell, .. } => cell < n_cells,
        DiffEvent::Remove { .. } => true,
    }
}

/// Whether some event in `q` is about key `k`.
pub open spec fn queue_has_key(q: Seq<DiffEvent>, k: u64) -> bool {
    exists|i: int| 0 <= i < q.len() && event_key(q[i]) == k
}

/// The set of keys of the rendered children.
pub open spec fn rendered_key_set(r: Seq<(u64, u64)>) -> Set<u64> {
    r.map_values(|p: (u64, u64)| p.0).to_set()
}

/// Replays the structural effect of a queue of events over a set of rendered
/// keys: an insert must be fresh, a remove must hit an existing child, an
/// update leaves the child set alone.  Returns `None` if some step is
/// illegal.
pub open spec fn replay(rk: Set<u64>, q: Seq<DiffEvent>) -> Option<Set<u64>>
    decreases q.len(),
{
    if q.len() == 0 {
        Some(rk)
    } else {
        match q[0] {
            DiffEvent::Insert { key, .. } => if rk.contains(key) {
                None
            } else {
                replay(rk.insert(key), q.drop_first())
            },
            DiffEvent::Update { .. } => replay(rk, q.drop_first()),
            DiffEvent::Remove { key } => if rk.contains(key) {
                replay(rk.remove(key), q.drop_first())
            } else {
                None
            },
        }
    }
}

/// The abstract state of a [`ChildrenDiff`].
pub struct DiffView<V> {
    /// Contents of the shared value cells, by cell index.
    pub cells: Seq<V>,
    /// The logical collection: key to index of the cell holding its value.
    pub source: Map<u64, usize>,
    /// The rendered children, `(key, element)` in attachment order.
    pub rendered: Seq<(u64, u64)>,
    /// Keys mutated in the current batch whose event has not been processed.
    pub pending: Set<u64>,
    /// Diff events issued but not yet delivered, oldest first.
    pub queue: Seq<DiffEvent>,
}

impl<V> DiffView<V> {
    /// The value currently associated with key `k`.
    pub open spec fn value_of(self, k: u64) -> V {
        self.cells[self.source[k] as int]
    }

    /// The state invariant: cell indices are in bounds, rendered keys are
    /// distinct, every pending key has an event in flight, and replaying the
    /// queued events over the rendered children yields exactly the source
    /// keys.
    pub open spec fn inv(self) -> bool {
        &&& forall|k: u64| #[trigger] self.source.dom().contains(k)
            ==> self.source[k] < self.cells.len()
        &&& forall|i: int| 0 <= i < self.queue.len()
            ==> event_cell_ok(#[trigger] self.queue[i], self.cells.len())
        &&& forall|i: int, j: int|
            0 <= i < j < self.rendered.len() ==> (#[trigger] self.rendered[i]).0 != (
            #[trigger] self.rendered[j]).0
        &&& forall|k: u64| #[trigger] self.pending.contains(k) ==> queue_has_key(self.queue, k)
        &&& self.pending.finite()
        &&& self.source.dom().finite()
        &&& replay(rendered_key_set(self.rendered), self.queue) == Some(self.source.dom())
    }

    /// A settled state: no event in flight, no pending key.
    pub open spec fn settled(self) -> bool {
        self.queue.len() == 0 && self.pending.is_empty()
    }
}

/// The outside world as the reconciler sees it: the UI-element abstraction
/// together with the caller's per-key callbacks.  Implementations construct,
/// attach and destroy the real children; the reconciler only decides what to
/// call and when.  Callbacks must not mutate the reconciler re-entrantly —
/// the exclusive borrow held during event processing enforces this.
pub trait DiffHandler<V> {
    /// Constructs the UI representation for a newly added key and returns a
    /// handle for it.
    fn insert(&mut self, key: u64, value: &V) -> u64;

    /// Attaches a freshly constructed child to the parent container.
    fn attach_child(&mut self, element: u64);

    /// Invoked when the value for a rendered key changed in place.
    fn on_update(&mut self, key: u64, value: &V);

    /// Detaches and destroys the child for a removed key.
    fn detach_and_destroy(&mut self, element: u64);

    /// Invoked after the child for `key` has been detached and destroyed.
    fn on_remove(&mut self, key: u64);

    /// Invoked at most once per batch, when the pending set drains.
    fn on_change(&mut self);
}

/// What processing one event did.
#[derive(Clone, Copy, Debug, PartialEq, Eq, Structural)]
pub enum DiffAction {
    /// A child was created and attached for `key`.
    Inserted { key: u64, element: u64 },
    /// The value for `key` changed in place; the child is untouched.
    Updated { key: u64 },
    /// The child `element` for `key` was detached and destroyed.
    Removed { key: u64, element: u64 },
}

/// The report of one processed event.
#[derive(Clone, Copy, Debug, PartialEq, Eq, Structural)]
pub struct DiffOutcome {
    /// The structural action that was performed.
    pub action: DiffAction,
    /// Whether this event drained the pending set, i.e. whether `on_change`
    /// fired.
    pub settled: bool,
}

/// A keyed collection mirrored onto a sequence of live children, with
/// batched settlement notification.
pub struct ChildrenDiff<V> {
    /// The shared value cells; an index stays valid while any queued event
    /// refers to it.
    cells: Vec<V>,
    /// Key to cell index, one entry per key.
    source: Vec<(u64, usize)>,
    /// The rendered children, `(key, element)` in attachment order.
    rendered: Vec<(u64, u64)>,
    /// Keys touched by the current batch, no duplicates.
    pending: Vec<u64>,
    /// Events issued but not yet delivered.
    queue: VecDeque<DiffEvent>,
}

/// The map an ascending association list stands for.
pub open spec fn assoc_map(s: Seq<(u64, usize)>) -> Map<u64, usize>
    decreases s.len(),
{
    if s.len() == 0 {
        Map::empty()
    } else {
        assoc_map(s.drop_last()).insert(s.last().0, s.last().1)
    }
}

impl<V> View for ChildrenDiff<V> {
    type V = DiffView<V>;

    closed spec fn view(&self) -> DiffView<V> {
        DiffView {
            cells: self.cells@,
            source: assoc_map(self.source@),
            rendered: self.rendered@,
            pending: self.pending@.to_set(),
            queue: self.queue@,
        }
    }
}

/// How `replay` reacts to one more event at the back of the queue.
proof fn lemma_replay_push(rk: Set<u64>, q: Seq<DiffEvent>, e: DiffEvent)
    requires
        replay(rk, q) is Some,
    ensures
        replay(rk, q.push(e)) == (match e {
            DiffEvent::Insert { key, .. } => if replay(rk, q)->Some_0.contains(key) {
                None::<Set<u64>>
            } else {
                Some(replay(rk, q)->Some_0.insert(key))
            },
            DiffEvent::Update { .. } => replay(rk, q),
            DiffEvent::Remove { key } => if replay(rk, q)->Some_0.contains(key) {
                Some(replay(rk, q)->Some_0.remove(key))
            } else {
                None::<Set<u64>>
            },
        }),
    decreases q.len(),
{
    if q.len() == 0 {
        assert(q.push(e)[0] == e);
        assert(q.push(e).drop_first() =~= Seq::<DiffEvent>::empty());
        assert(replay(rk, q) == Some(rk));
        match e {
            DiffEvent::Insert { key, .. } => {
                if !rk.contains(key) {
                    assert(replay(rk.insert(key), Seq::<DiffEvent>::empty())
                        == Some(rk.insert(key)));
                }
            },
            DiffEvent::Update { .. } => {
                assert(replay(rk, Seq::<DiffEvent>::empty()) == Some(rk));
            },
            DiffEvent::Remove { key } => {
                if rk.contains(key) {
                    assert(replay(rk.remove(key), Seq::<DiffEvent>::empty())
                        == Some(rk.remove(key)));
                }
            },
        }
    } else {
        assert(q.push(e)[0] == q[0]);
        assert(q.push(e).drop_first() =~= q.drop_first().push(e));
        match q[0] {
            DiffEvent::Insert { key, .. } => {
                lemma_replay_push(rk.insert(key), q.drop_first(), e);
            },
            DiffEvent::Update { .. } => {
                lemma_replay_push(rk, q.drop_first(), e);
            },
            DiffEvent::Remove { key } => {
                lemma_replay_push(rk.remove(key), q.drop_first(), e);
            },
        }
    }
}

/// Keys of an association list are exactly the domain of its map, and with
/// distinct keys each entry gives the mapped value.
proof fn lemma_assoc_map(s: Seq<(u64, usize)>)
    ensures
        assoc_map(s).dom().finite(),
        forall|k: u64| #[trigger] assoc_map(s).dom().contains(k)
            <==> exists|i: int| 0 <= i < s.len() && (#[trigger] s[i]).0 == k,
        (forall|i: int, j: int|
            0 <= i < j < s.len() ==> (#[trigger] s[i]).0 != (#[trigger] s[j]).0)
            ==> forall|i: int| 0 <= i < s.len()
                ==> assoc_map(s)[(#[trigger] s[i]).0] == s[i].1,
    decreases s.len(),
{
    if s.len() > 0 {
        lemma_assoc_map(s.drop_last());
        assert forall|k: u64| #[trigger] assoc_map(s).dom().contains(k)
            implies exists|i: int| 0 <= i < s.len() && (#[trigger] s[i]).0 == k by {
            if k == s.last().0 {
                assert((#[trigger] s[s.len() - 1]).0 == k);
            } else {
                let i = choose|i: int|
                    0 <= i < s.drop_last().len() && (#[trigger] s.drop_last()[i]).0 == k;
                assert((#[trigger] s[i]).0 == k);
            }
        }
        assert forall|k: u64|
            (exists|i: int| 0 <= i < s.len() && (#[trigger] s[i]).0 == k)
            implies assoc_map(s).dom().contains(k) by {
            let i = choose|i: int| 0 <= i < s.len() && (#[trigger] s[i]).0 == k;
            if i < s.len() - 1 {
                assert((#[trigger] s.drop_last()[i]).0 == k);
            }
        }
        if forall|i: int, j: int|
            0 <= i < j < s.len() ==> (#[trigger] s[i]).0 != (#[trigger] s[j]).0 {
            assert forall|i: int| 0 <= i < s.len()
                implies assoc_map(s)[(#[trigger] s[i]).0] == s[i].1 by {
                if i < s.len() - 1 {
                    assert((#[trigger] s.drop_last()[i]).0 == s[i].0);
                    assert(s[i].0 != s.last().0);
                }
            }
        }
    }
}

/// Replacing the cell of one entry updates the map at that key alone.
proof fn lemma_assoc_update(s: Seq<(u64, usize)>, i: int, c: usize)
    requires
        0 <= i < s.len(),
        forall|x: int, y: int|
            0 <= x < y < s.len() ==> (#[trigger] s[x]).0 != (#[trigger] s[y]).0,
    ensures
        assoc_map(s.update(i, (s[i].0, c))) =~= assoc_map(s).insert(s[i].0, c),
    decreases s.len(),
{
    let t = s.update(i, (s[i].0, c));
    if i == s.len() - 1 {
        assert(t.drop_last() =~= s.drop_last());
        assert(t.last() == (s[i].0, c));
    } else {
        assert(t.drop_last() =~= s.drop_last().update(i, (s[i].0, c)));
        assert(t.last() == s.last());
        lemma_assoc_update(s.drop_last(), i, c);
        assert(s[i].0 != s.last().0);
    }
}

/// Removing one entry removes exactly that key from the map.
proof fn lemma_assoc_remove(s: Seq<(u64, usize)>, i: int)
    requires
        0 <= i < s.len(),
        forall|x: int, y: int|
            0 <= x < y < s.len() ==> (#[trigger] s[x]).0 != (#[trigger] s[y]).0,
    ensures
        assoc_map(s.remove(i)) =~= assoc_map(s).remove(s[i].0),
    decreases s.len(),
{
    lemma_assoc_map(s);
    lemma_assoc_map(s.remove(i));
    if i == s.len() - 1 {
        assert(s.remove(i) =~= s.drop_last());
        lemma_assoc_map(s.drop_last());
        assert forall|k: u64| #[trigger] assoc_map(s.drop_last()).dom().contains(k)
            implies k != s[i].0 by {
            let j = choose|j: int|
                0 <= j < s.drop_last().len() && (#[trigger] s.drop_last()[j]).0 == k;
            assert((#[trigger] s[j]).0 == k);
        }
    } else {
        assert(s.remove(i).drop_last() =~= s.drop_last().remove(i));
        assert(s.remove(i).last() == s.last());
        lemma_assoc_remove(s.drop_last(), i);
        assert(s[i].0 != s.last().0);
        assert((#[trigger] s.drop_last()[i]).0 == s[i].0);
    }
}

impl<V> ChildrenDiff<V> {
    /// Representation invariant: the abstract invariant holds, the source
    /// list has distinct keys, and the pending list has no duplicates.
    pub closed spec fn wf(&self) -> bool {
        &&& self@.inv()
        &&& forall|i: int, j: int|
            0 <= i < j < self.source@.len() ==> (#[trigger] self.source@[i]).0 != (
            #[trigger] self.source@[j]).0
        &&& forall|i: int, j: int|
            0 <= i < j < self.pending@.len() ==> self.pending@[i] != self.pending@[j]
    }

    /// The well-formedness of the exec structure carries the abstract
    /// invariant with it.
    pub proof fn lemma_wf_inv(&self)
        requires
            self.wf(),
        ensures
            self@.inv(),
    {
    }

    /// An empty reconciler: nothing rendered, nothing pending.
    pub fn new() -> (r: Self)
        ensures
            r.wf(),
            r@.source == Map::<u64, usize>::empty(),
            r@.rendered == Seq::<(u64, u64)>::empty(),
            r@.pending == Set::<u64>::empty(),
            r@.queue == Seq::<DiffEvent>::empty(),
            r@.cells == Seq::<V>::empty(),
    {
        let r = ChildrenDiff {
            cells: Vec::new(),
            source: Vec::new(),
            rendered: Vec::new(),
            pending: Vec::new(),
            queue: VecDeque::new(),
        };
        proof {
            assert(r@.pending =~= Set::<u64>::empty());
            assert(assoc_map(r.source@) =~= Map::<u64, usize>::empty());
            assert(rendered_key_set(r.rendered@) =~= Set::<u64>::empty());
            assert(replay(rendered_key_set(r.rendered@), r.queue@)
                == Some(Set::<u64>::empty()));
        }
        r
    }

    /// Where `key` sits in the source list, if anywhere.
    fn source_find(&self, key: u64) -> (r: Option<usize>)
        ensures
            match r {
                Some(i) => i < self.source@.len() && self.source@[i as int].0 == key,
                None => forall|i: int|
                    0 <= i < self.source@.len() ==> (#[trigger] self.source@[i]).0 != key,
            },
    {
        let mut i: usize = 0;
        while i < self.source.len()
            invariant
                i <= self.source@.len(),
                forall|j: int| 0 <= j < i ==> (#[trigger] self.source@[j]).0 != key,
            decreases self.source@.len() - i,
        {
            if self.source[i].0 == key {
                return Some(i);
            }
            i += 1;
        }
        None
    }

    /// Marks `key` pending (a set insert: idempotent).
    fn pending_mark(&mut self, key: u64)
        requires
            forall|i: int, j: int|
                0 <= i < j < old(self).pending@.len()
                    ==> old(self).pending@[i] != old(self).pending@[j],
        ensures
            final(self).pending@.to_set() == old(self).pending@.to_set().insert(key),
            forall|i: int, j: int|
                0 <= i < j < final(self).pending@.len()
                    ==> final(self).pending@[i] != final(self).pending@[j],
            final(self).cells == old(self).cells,
            final(self).source == old(self).source,
            final(self).rendered == old(self).rendered,
            final(self).queue == old(self).queue,
    {
        let mut i: usize = 0;
        let n = self.pending.len();
        while i < n
            invariant
                *self == *old(self),
                n == self.pending@.len(),
                i <= n,
                forall|j: int| 0 <= j < i ==> self.pending@[j] != key,
                forall|a: int, b: int|
                    0 <= a < b < self.pending@.len()
                        ==> self.pending@[a] != self.pending@[b],
            decreases n - i,
        {
            if self.pending[i] == key {
                proof {
                    assert(old(self).pending@.contains(key));
                    assert(self.pending@.to_set()
                        =~= old(self).pending@.to_set().insert(key));
                }
                return ;
            }
            i += 1;
        }
        self.pending.push(key);
        proof {
            assert(forall|j: int|
                0 <= j < old(self).pending@.len()
                    ==> self.pending@[j] == old(self).pending@[j]);
            assert forall|x: u64| self.pending@.contains(x)
                implies (old(self).pending@.contains(x) || x == key) by {
                let j = choose|j: int|
                    0 <= j < self.pending@.len() && self.pending@[j] == x;
                if j < old(self).pending@.len() {
                    assert(old(self).pending@[j] == x);
                }
            }
            assert forall|x: u64| old(self).pending@.contains(x)
                implies self.pending@.contains(x) by {
                let j = choose|j: int|
                    0 <= j < old(self).pending@.len() && old(self).pending@[j] == x;
                assert(self.pending@[j] == x);
            }
            assert(self.pending@[self.pending@.len() - 1] == key);
            assert(self.pending@.contains(key));
            assert(self.pending@.to_set() =~= old(self).pending@.to_set().insert(key));
        }
    }

    /// Whether `key` is in the logical collection.
    pub fn contains_key(&self, key: u64) -> (r: bool)
        requires
            self.wf(),
        ensures
            r == self@.source.dom().contains(key),
    {
        proof {
            lemma_assoc_map(self.source@);
        }
        self.source_find(key).is_some()
    }

    /// Adds `key` with `value` to the collection and schedules it for
    /// insertion.  If the key was already present — a caller error worth a
    /// warning, reported in the return value — the entry is overwritten
    /// (last write wins) and the key is scheduled for an in-place update
    /// instead, so at most one child ever exists for it.
    pub fn add(&mut self, key: u64, value: V) -> (was_present: bool)
        requires
            old(self).wf(),
            old(self)@.cells.len() < usize::MAX,
        ensures
            final(self).wf(),
            was_present == old(self)@.source.dom().contains(key),
            final(self)@.cells == old(self)@.cells.push(value),
            final(self)@.source == old(self)@.source.insert(
                key,
                old(self)@.cells.len() as usize,
            ),
            final(self)@.rendered == old(self)@.rendered,
            final(self)@.pending == old(self)@.pending.insert(key),
            final(self)@.queue == old(self)@.queue.push(
                if old(self)@.source.dom().contains(key) {
                    DiffEvent::Update { key, cell: old(self)@.cells.len() as usize }
                } else {
                    DiffEvent::Insert { key, cell: old(self)@.cells.len() as usize }
                },
            ),
    {
        proof {
            lemma_assoc_map(self.source@);
        }
        let cell = self.cells.len();
        self.cells.push(value);
        let found = self.source_find(key);
        let event = match found {
            Some(i) => {
                self.source[i] = (key, cell);
                proof {
                    lemma_assoc_update(old(self).source@, i as int, cell);
                }
                DiffEvent::Update { key, cell }
            },
            None => {
                self.source.push((key, cell));
                proof {
                    assert(self.source@.drop_last() =~= old(self).source@);
                    assert(forall|j: int|
                        0 <= j < old(self).source@.len()
                            ==> self.source@[j] == old(self).source@[j]);
                }
                DiffEvent::Insert { key, cell }
            },
        };
        self.pending_mark(key);
        self.queue.push_back(event);
        proof {
            let was_present = found is Some;
            let v0 = old(self)@;
            let v1 = self@;
            lemma_assoc_map(old(self).source@);
            lemma_assoc_map(self.source@);
            assert(was_present == v0.source.dom().contains(key));
            if !was_present {
                assert(v1.source =~= v0.source.insert(key, cell));
            }
            lemma_replay_push(rendered_key_set(v0.rendered), v0.queue, event);
            assert(v1.source.dom() =~= if was_present {
                v0.source.dom()
            } else {
                v0.source.dom().insert(key)
            });
            assert forall|k: u64| #[trigger] v1.pending.contains(k)
                implies queue_has_key(v1.queue, k) by {
                if k == key {
                    assert(event_key(v1.queue[v1.queue.len() - 1]) == key);
                } else {
                    let i = choose|i: int|
                        0 <= i < v0.queue.len() && event_key(#[trigger] v0.queue[i]) == k;
                    assert(event_key(v1.queue[i]) == k);
                }
            }
        }
        found.is_some()
    }

    /// Replaces the value for `key` wholesale, writing through its shared
    /// cell, and schedules an in-place update of its child.  The key must
    /// already exist.
    pub fn update(&mut self, key: u64, value: V)
        requires
            old(self).wf(),
            old(self)@.source.dom().contains(key),
        ensures
            final(self).wf(),
            final(self)@.cells == old(self)@.cells.update(
                old(self)@.source[key] as int,
                value,
            ),
            final(self)@.source == old(self)@.source,
            final(self)@.rendered == old(self)@.rendered,
            final(self)@.pending == old(self)@.pending.insert(key),
            final(self)@.queue == old(self)@.queue.push(
                DiffEvent::Update { key, cell: old(self)@.source[key] },
            ),
    {
        proof {
            lemma_assoc_map(self.source@);
        }
        let i = match self.source_find(key) {
            Some(i) => i,
            None => unreached(),
        };
        let cell = self.source[i].1;
        self.cells[cell] = value;
        self.pending_mark(key);
        self.queue.push_back(DiffEvent::Update { key, cell });
        proof {
            self.finish_value_event(*old(self), key, cell);
        }
    }

    /// Applies `f` to the value for `key` in place — through its shared
    /// cell — and schedules an in-place update of its child.  The key must
    /// already exist.
    pub fn update_with<F: FnOnce(V) -> V>(&mut self, key: u64, f: F)
        requires
            old(self).wf(),
            old(self)@.source.dom().contains(key),
            call_requires(f, (old(self)@.value_of(key),)),
        ensures
            final(self).wf(),
            call_ensures(
                f,
                (old(self)@.value_of(key),),
                final(self)@.cells[old(self)@.source[key] as int],
            ),
            final(self)@.cells == old(self)@.cells.update(
                old(self)@.source[key] as int,
                final(self)@.cells[old(self)@.source[key] as int],
            ),
            final(self)@.source == old(self)@.source,
            final(self)@.rendered == old(self)@.rendered,
            final(self)@.pending == old(self)@.pending.insert(key),
            final(self)@.queue == old(self)@.queue.push(
                DiffEvent::Update { key, cell: old(self)@.source[key] },
            ),
    {
        proof {
            lemma_assoc_map(self.source@);
        }
        let i = match self.source_find(key) {
            Some(i) => i,
            None => unreached(),
        };
        let cell = self.source[i].1;
        let v = self.cells.remove(cell);
        let v2 = f(v);
        self.cells.insert(cell, v2);
        proof {
            assert(self.cells@ =~= old(self).cells@.update(
                cell as int,
                self.cells@[cell as int],
            ));
        }
        self.pending_mark(key);
        self.queue.push_back(DiffEvent::Update { key, cell });
        proof {
            self.finish_value_event(*old(self), key, cell);
        }
    }

    /// Removes `key` from the collection and schedules the detachment and
    /// destruction of its child.  The key must exist.
    pub fn remove(&mut self, key: u64)
        requires
            old(self).wf(),
            old(self)@.source.dom().contains(key),
        ensures
            final(self).wf(),
            final(self)@.cells == old(self)@.cells,
            final(self)@.source == old(self)@.source.remove(key),
            final(self)@.rendered == old(self)@.rendered,
            final(self)@.pending == old(self)@.pending.insert(key),
            final(self)@.queue == old(self)@.queue.push(DiffEvent::Remove { key }),
    {
        proof {
            lemma_assoc_map(self.source@);
        }
        let i = match self.source_find(key) {
            Some(i) => i,
            None => unreached(),
        };
        self.source.remove(i);
        proof {
            lemma_assoc_remove(old(self).source@, i as int);
            assert(forall|a: int, b: int|
                0 <= a < b < self.source@.len()
                    ==> (#[trigger] self.source@[a]).0 != (#[trigger] self.source@[b]).0)
                by {
                assert(forall|a: int|
                    0 <= a < self.source@.len()
                        ==> self.source@[a] == (if a < i as int {
                        old(self).source@[a]
                    } else {
                        old(self).source@[a + 1]
                    }));
            };
        }
        self.pending_mark(key);
        self.queue.push_back(DiffEvent::Remove { key });
        proof {
            let v0 = old(self)@;
            let v1 = self@;
            let e = DiffEvent::Remove { key };
            lemma_assoc_map(old(self).source@);
            lemma_assoc_map(self.source@);
            lemma_replay_push(rendered_key_set(v0.rendered), v0.queue, e);
            assert(v1.source =~= v0.source.remove(key));
            assert(v1.source.dom() =~= v0.source.dom().remove(key));
            lemma_pending_covered_push(v0.pending, v0.queue, e);
            assert forall|k: u64| #[trigger] v1.pending.contains(k)
                implies queue_has_key(v1.queue, k) by {
                assert(v0.pending.insert(event_key(e)).contains(k));
            }
            assert forall|i: int| 0 <= i < v1.queue.len()
                implies event_cell_ok(#[trigger] v1.queue[i], v1.cells.len()) by {
                if i < v0.queue.len() {
                    assert(v1.queue[i] == v0.queue[i]);
                    assert(event_cell_ok(v0.queue[i], v0.cells.len()));
                } else {
                    assert(v1.queue[i] == e);
                }
            }
        }
    }

    /// Unmarks `key` as pending, if it was.
    fn pending_remove(&mut self, key: u64)
        requires
            forall|i: int, j: int|
                0 <= i < j < old(self).pending@.len()
                    ==> old(self).pending@[i] != old(self).pending@[j],
        ensures
            final(self).pending@.to_set() == old(self).pending@.to_set().remove(key),
            forall|i: int, j: int|
                0 <= i < j < final(self).pending@.len()
                    ==> final(self).pending@[i] != final(self).pending@[j],
            final(self).cells == old(self).cells,
            final(self).source == old(self).source,
            final(self).rendered == old(self).rendered,
            final(self).queue == old(self).queue,
    {
        let mut i: usize = 0;
        let n = self.pending.len();
        while i < n
            invariant
                *self == *old(self),
                n == self.pending@.len(),
                i <= n,
                forall|j: int| 0 <= j < i ==> self.pending@[j] != key,
                forall|a: int, b: int|
                    0 <= a < b < self.pending@.len()
                        ==> self.pending@[a] != self.pending@[b],
            decreases n - i,
        {
            if self.pending[i] == key {
                self.pending.remove(i);
                proof {
                    assert(forall|j: int|
                        0 <= j < self.pending@.len()
                            ==> #[trigger] self.pending@[j] == (if j < i {
                            old(self).pending@[j]
                        } else {
                            old(self).pending@[j + 1]
                        }));
                    assert forall|x: u64| self.pending@.contains(x)
                        implies old(self).pending@.contains(x) && x != key by {
                        let j = choose|j: int|
                            0 <= j < self.pending@.len() && self.pending@[j] == x;
                        if j < i {
                            assert(old(self).pending@[j] == x);
                        } else {
                            assert(old(self).pending@[j + 1] == x);
                        }
                    }
                    assert forall|x: u64|
                        old(self).pending@.contains(x) && x != key
                        implies self.pending@.contains(x) by {
                        let j = choose|j: int|
                            0 <= j < old(self).pending@.len()
                                && old(self).pending@[j] == x;
                        if j < i {
                            assert(self.pending@[j] == x);
                        } else {
                            assert(self.pending@[j - 1] == x);
                        }
                    }
                    assert(self.pending@.to_set()
                        =~= old(self).pending@.to_set().remove(key));
                }
                return ;
            }
            i += 1;
        }
        proof {
            assert(!old(self).pending@.contains(key));
            assert(self.pending@.to_set() =~= old(self).pending@.to_set().remove(key));
        }
    }

    /// Whether the current batch has settled: no pending key is left.
    pub fn is_settled(&self) -> (r: bool)
        ensures
            r == self@.pending.is_empty(),
    {
        let r = self.pending.len() == 0;
        proof {
            if self.pending@.len() == 0 {
                assert(self@.pending =~= Set::<u64>::empty());
                assert(self@.pending.is_empty());
            } else {
                assert(self.pending@.contains(self.pending@[0]));
                assert(self@.pending.contains(self.pending@[0]));
                assert(!(self@.pending =~= Set::<u64>::empty()));
                assert(!self@.pending.is_empty());
            }
        }
        r
    }

    /// Where the child for `key` sits in the rendered sequence.
    fn rendered_find(&self, key: u64) -> (r: usize)
        requires
            exists|j: int|
                0 <= j < self.rendered@.len() && (#[trigger] self.rendered@[j]).0 == key,
        ensures
            r < self.rendered@.len(),
            self.rendered@[r as int].0 == key,
            forall|j: int| 0 <= j < r ==> (#[trigger] self.rendered@[j]).0 != key,
    {
        let mut i: usize = 0;
        while i < self.rendered.len()
            invariant
                i <= self.rendered@.len(),
                exists|j: int|
                    0 <= j < self.rendered@.len()
                        && (#[trigger] self.rendered@[j]).0 == key,
                forall|j: int| 0 <= j < i ==> (#[trigger] self.rendered@[j]).0 != key,
            decreases self.rendered@.len() - i,
        {
            if self.rendered[i].0 == key {
                return i;
            }
            i += 1;
        }
        proof {
            let j = choose|j: int|
                0 <= j < self.rendered@.len() && (#[trigger] self.rendered@[j]).0 == key;
            assert(false);
        }
        unreached()
    }

    /// Delivers the oldest queued event: performs the structural action
    /// through the handler, unmarks the key, and — only if that drained the
    /// pending set — fires `on_change`.
    ///
    /// For an insert event the handler's `insert` constructs the child,
    /// which is attached and recorded; for a remove event the child is
    /// detached and destroyed before `on_remove` and before any settlement
    /// notification; for an update event the child is left untouched and
    /// only `on_update` runs, with the value read through the event's cell
    /// at delivery time.
    pub fn process_event<H: DiffHandler<V>>(&mut self, handler: &mut H) -> (r: DiffOutcome)
        requires
            old(self).wf(),
            old(self)@.queue.len() > 0,
        ensures
            final(self).wf(),
            final(self)@.queue == old(self)@.queue.drop_first(),
            final(self)@.cells == old(self)@.cells,
            final(self)@.source == old(self)@.source,
            final(self)@.pending == old(self)@.pending.remove(
                event_key(old(self)@.queue[0]),
            ),
            r.settled == final(self)@.pending.is_empty(),
            match old(self)@.queue[0] {
                DiffEvent::Insert { key, cell } => {
                    &&& r.action matches DiffAction::Inserted { key: k, element }
                        && k == key
                        && final(self)@.rendered == old(self)@.rendered.push((key, element))
                },
                DiffEvent::Update { key, cell } => {
                    &&& r.action == DiffAction::Updated { key }
                    &&& final(self)@.rendered == old(self)@.rendered
                },
                DiffEvent::Remove { key } => {
                    &&& 0 <= find_key(old(self)@.rendered, key) < old(self)@.rendered.len()
                    &&& old(self)@.rendered[find_key(old(self)@.rendered, key)].0 == key
                    &&& final(self)@.rendered == old(self)@.rendered.remove(
                        find_key(old(self)@.rendered, key),
                    )
                    &&& r.action == (DiffAction::Removed {
                        key,
                        element: old(self)@.rendered[find_key(old(self)@.rendered, key)].1,
                    })
                },
            },
    {
        let ghost v0 = old(self)@;
        let ev = match self.queue.pop_front() {
            Some(ev) => ev,
            None => unreached(),
        };
        proof {
            assert(self.queue@ =~= v0.queue.drop_first());
            assert(forall|i: int|
                0 <= i < self.queue@.len()
                    ==> #[trigger] self.queue@[i] == v0.queue[i + 1]);
        }
        let action = match ev {
            DiffEvent::Insert { key, cell } => {
                let element = handler.insert(key, &self.cells[cell]);
                handler.attach_child(element);
                self.rendered.push((key, element));
                proof {
                    assert(!rendered_key_set(v0.rendered).contains(key));
                    lemma_rendered_push(v0.rendered, key, element);
                    lemma_rendered_contains(v0.rendered);
                    assert(forall|j: int|
                        0 <= j < v0.rendered.len()
                            ==> (#[trigger] v0.rendered[j]).0 != key);
                    assert(forall|j: int|
                        0 <= j < self.rendered@.len() - 1
                            ==> #[trigger] self.rendered@[j] == v0.rendered[j]);
                }
                DiffAction::Inserted { key, element }
            },
            DiffEvent::Update { key, cell } => {
                handler.on_update(key, &self.cells[cell]);
                DiffAction::Updated { key }
            },
            DiffEvent::Remove { key } => {
                proof {
                    lemma_rendered_contains(v0.rendered);
                    assert(rendered_key_set(v0.rendered).contains(key));
                    let j = choose|j: int|
                        0 <= j < v0.rendered.len()
                            && (#[trigger] v0.rendered[j]).0 == key;
                    assert((#[trigger] self.rendered@[j]).0 == key);
                }
                let i = self.rendered_find(key);
                let entry = self.rendered.remove(i);
                let element = entry.1;
                handler.detach_and_destroy(element);
                handler.on_remove(key);
                proof {
                    let fi = find_key(v0.rendered, key);
                    assert(0 <= fi < v0.rendered.len() && v0.rendered[fi].0 == key);
                    assert(fi == i as int);
                    lemma_rendered_remove(v0.rendered, i as int);
                }
                DiffAction::Removed { key, element }
            },
        };
        let key = match action {
            DiffAction::Inserted { key, .. } => key,
            DiffAction::Updated { key } => key,
            DiffAction::Removed { key, .. } => key,
        };
        self.pending_remove(key);
        proof {
            lemma_pending_covered_pop(v0.pending, v0.queue);
            assert forall|k: u64| #[trigger] self@.pending.contains(k)
                implies queue_has_key(self@.queue, k) by {
                assert(v0.pending.remove(event_key(v0.queue[0])).contains(k));
            }
        }
        let settled = self.is_settled();
        if settled {
            handler.on_change();
        }
        DiffOutcome { action, settled }
    }

    /// Delivers every queued event in order.  When it returns, the batch has
    /// settled: nothing is pending, and the rendered children cover exactly
    /// the keys of the source collection.
    pub fn process_all<H: DiffHandler<V>>(&mut self, handler: &mut H)
        requires
            old(self).wf(),
        ensures
            final(self).wf(),
            final(self)@.queue.len() == 0,
            final(self)@.pending.is_empty(),
            final(self)@.cells == old(self)@.cells,
            final(self)@.source == old(self)@.source,
            rendered_key_set(final(self)@.rendered) == final(self)@.source.dom(),
    {
        while self.queue_len() > 0
            invariant
                self.wf(),
                self@.cells == old(self)@.cells,
                self@.source == old(self)@.source,
            decreases self@.queue.len(),
        {
            self.process_event(handler);
        }
        proof {
            lemma_settled_keys_match(self@);
        }
    }

    /// How many diff events are still waiting for delivery.
    pub fn queue_len(&self) -> (n: usize)
        ensures
            n == self@.queue.len(),
    {
        self.queue.len()
    }

    /// The rendered children, `(key, element)` in attachment order.
    pub fn rendered(&self) -> (r: &Vec<(u64, u64)>)
        ensures
            r@ == self@.rendered,
    {
        &self.rendered
    }

    /// The value currently held for `key`, read through its shared cell.
    pub fn get(&self, key: u64) -> (r: Option<&V>)
        requires
            self.wf(),
        ensures
            match r {
                Some(v) => self@.source.dom().contains(key) && *v == self@.value_of(key),
                None => !self@.source.dom().contains(key),
            },
    {
        proof {
            lemma_assoc_map(self.source@);
        }
        match self.source_find(key) {
            Some(i) => {
                let cell = self.source[i].1;
                proof {
                    assert(self@.source.dom().contains(key));
                    assert(self@.source[key] == cell);
                }
                Some(&self.cells[cell])
            },
            None => None,
        }
    }

    /// Common tail proof for `update` and `update_with`: only a cell content
    /// changed and an update event was pushed.
    proof fn finish_value_event(&self, pre: Self, key: u64, cell: usize)
        requires
            pre.wf(),
            pre@.source.dom().contains(key),
            cell == pre@.source[key],
            self@.cells.len() == pre@.cells.len(),
            self@.source == pre@.source,
            self@.rendered == pre@.rendered,
            self@.pending == pre@.pending.insert(key),
            self@.queue == pre@.queue.push(DiffEvent::Update { key, cell }),
            forall|i: int, j: int|
                0 <= i < j < self.source@.len() ==> (#[trigger] self.source@[i]).0 != (
                #[trigger] self.source@[j]).0,
            forall|i: int, j: int|
                0 <= i < j < self.pending@.len() ==> self.pending@[i] != self.pending@[j],
        ensures
            self.wf(),
    {
        let e = DiffEvent::Update { key, cell };
        lemma_replay_push(rendered_key_set(pre@.rendered), pre@.queue, e);
        lemma_pending_covered_push(pre@.pending, pre@.queue, e);
        assert forall|k: u64| #[trigger] self@.pending.contains(k)
            implies queue_has_key(self@.queue, k) by {
            assert(pre@.pending.insert(event_key(e)).contains(k));
        }
        assert forall|i: int| 0 <= i < self@.queue.len()
            implies event_cell_ok(#[trigger] self@.queue[i], self@.cells.len()) by {
            if i < pre@.queue.len() {
                assert(self@.queue[i] == pre@.queue[i]);
                assert(event_cell_ok(pre@.queue[i], pre@.cells.len()));
            } else {
                assert(self@.queue[i] == e);
            }
        }
    }
}

/// The position of the child for key `k` in a rendered sequence.
pub open spec fn find_key(r: Seq<(u64, u64)>, k: u64) -> int {
    choose|i: int| 0 <= i < r.len() && (#[trigger] r[i]).0 == k
}

/// Membership in a rendered key set, element by element.
proof fn lemma_rendered_contains(r: Seq<(u64, u64)>)
    ensures
        forall|x: u64| #[trigger] rendered_key_set(r).contains(x)
            <==> exists|i: int| 0 <= i < r.len() && (#[trigger] r[i]).0 == x,
{
    assert forall|x: u64| #[trigger] rendered_key_set(r).contains(x)
        implies exists|i: int| 0 <= i < r.len() && (#[trigger] r[i]).0 == x by {
        let m = r.map_values(|p: (u64, u64)| p.0);
        let i = choose|i: int| 0 <= i < m.len() && m[i] == x;
        assert((#[trigger] r[i]).0 == x);
    }
    assert forall|x: u64| (exists|i: int| 0 <= i < r.len() && (#[trigger] r[i]).0 == x)
        implies rendered_key_set(r).contains(x) by {
        let i = choose|i: int| 0 <= i < r.len() && (#[trigger] r[i]).0 == x;
        let m = r.map_values(|p: (u64, u64)| p.0);
        assert(m[i] == x);
        assert(m.contains(x));
    }
}

/// Attaching a fresh child extends the rendered key set by its key.
proof fn lemma_rendered_push(r: Seq<(u64, u64)>, key: u64, element: u64)
    ensures
        rendered_key_set(r.push((key, element))) =~= rendered_key_set(r).insert(key),
{
    lemma_rendered_contains(r);
    lemma_rendered_contains(r.push((key, element)));
    assert forall|x: u64| #[trigger] rendered_key_set(r.push((key, element))).contains(x)
        implies rendered_key_set(r).insert(key).contains(x) by {
        let i = choose|i: int|
            0 <= i < r.push((key, element)).len()
                && (#[trigger] r.push((key, element))[i]).0 == x;
        if i < r.len() {
            assert((#[trigger] r[i]).0 == x);
        }
    }
    assert forall|x: u64| rendered_key_set(r).insert(key).contains(x)
        implies rendered_key_set(r.push((key, element))).contains(x) by {
        if x == key {
            assert((#[trigger] r.push((key, element))[r.len() as int]).0 == x);
        } else {
            let i = choose|i: int| 0 <= i < r.len() && (#[trigger] r[i]).0 == x;
            assert((#[trigger] r.push((key, element))[i]).0 == x);
        }
    }
}

/// Detaching the one child for a key removes exactly that key from the
/// rendered key set, and keeps the remaining keys distinct.
proof fn lemma_rendered_remove(r: Seq<(u64, u64)>, i: int)
    requires
        0 <= i < r.len(),
        forall|x: int, y: int|
            0 <= x < y < r.len() ==> (#[trigger] r[x]).0 != (#[trigger] r[y]).0,
    ensures
        rendered_key_set(r.remove(i)) =~= rendered_key_set(r).remove(r[i].0),
        forall|x: int, y: int|
            0 <= x < y < r.remove(i).len()
                ==> (#[trigger] r.remove(i)[x]).0 != (#[trigger] r.remove(i)[y]).0,
{
    lemma_rendered_contains(r);
    lemma_rendered_contains(r.remove(i));
    assert(forall|j: int|
        0 <= j < r.remove(i).len()
            ==> #[trigger] r.remove(i)[j] == (if j < i {
            r[j]
        } else {
            r[j + 1]
        }));
    assert forall|x: u64| #[trigger] rendered_key_set(r.remove(i)).contains(x)
        implies rendered_key_set(r).remove(r[i].0).contains(x) by {
        let j = choose|j: int|
            0 <= j < r.remove(i).len() && (#[trigger] r.remove(i)[j]).0 == x;
        if j < i {
            assert((#[trigger] r[j]).0 == x);
        } else {
            assert((#[trigger] r[j + 1]).0 == x);
        }
    }
    assert forall|x: u64| rendered_key_set(r).remove(r[i].0).contains(x)
        implies rendered_key_set(r.remove(i)).contains(x) by {
        let j = choose|j: int| 0 <= j < r.len() && (#[trigger] r[j]).0 == x;
        assert(j != i);
        if j < i {
            assert((#[trigger] r.remove(i)[j]).0 == x);
        } else {
            assert((#[trigger] r.remove(i)[j - 1]).0 == x);
        }
    }
}

/// Every key still pending after an event is delivered keeps a covering
/// event in the rest of the queue.
proof fn lemma_pending_covered_pop(p: Set<u64>, q: Seq<DiffEvent>)
    requires
        q.len() > 0,
        forall|k: u64| #[trigger] p.contains(k) ==> queue_has_key(q, k),
    ensures
        forall|k: u64| #[trigger] p.remove(event_key(q[0])).contains(k)
            ==> queue_has_key(q.drop_first(), k),
{
    assert forall|k: u64| #[trigger] p.remove(event_key(q[0])).contains(k)
        implies queue_has_key(q.drop_first(), k) by {
        let i = choose|i: int| 0 <= i < q.len() && event_key(#[trigger] q[i]) == k;
        assert(i != 0);
        assert(event_key(q.drop_first()[i - 1]) == k);
    }
}

/// The set of keys the queued events are about.
pub open spec fn queue_key_set(q: Seq<DiffEvent>) -> Set<u64> {
    q.map_values(|e: DiffEvent| event_key(e)).to_set()
}

/// The pending set left after the first `n` events of `q` have been
/// delivered, each delivery unmarking its key.
pub open spec fn pending_after(p: Set<u64>, q: Seq<DiffEvent>, n: int) -> Set<u64>
    decreases n,
{
    if n <= 0 {
        p
    } else {
        pending_after(p, q, n - 1).remove(event_key(q[n - 1]))
    }
}

/// Membership in a queue key set, event by event.
proof fn lemma_queue_keys_contains(q: Seq<DiffEvent>)
    ensures
        forall|x: u64| #[trigger] queue_key_set(q).contains(x) <==> queue_has_key(q, x),
{
    assert forall|x: u64| #[trigger] queue_key_set(q).contains(x)
        implies queue_has_key(q, x) by {
        let m = q.map_values(|e: DiffEvent| event_key(e));
        let i = choose|i: int| 0 <= i < m.len() && m[i] == x;
        assert(event_key(#[trigger] q[i]) == x);
    }
    assert forall|x: u64| queue_has_key(q, x)
        implies queue_key_set(q).contains(x) by {
        let i = choose|i: int| 0 <= i < q.len() && event_key(#[trigger] q[i]) == x;
        let m = q.map_values(|e: DiffEvent| event_key(e));
        assert(m[i] == x);
        assert(m.contains(x));
    }
}

/// After `n` deliveries, the keys still pending are the keys of the
/// undelivered suffix — provided the batch touched each key once.
proof fn lemma_pending_after_suffix(q: Seq<DiffEvent>, n: int)
    requires
        0 <= n <= q.len(),
        forall|a: int, b: int|
            0 <= a < b < q.len() ==> event_key(#[trigger] q[a]) != event_key(
                #[trigger] q[b],
            ),
    ensures
        pending_after(queue_key_set(q), q, n) =~= queue_key_set(q.skip(n)),
    decreases n,
{
    lemma_queue_keys_contains(q);
    lemma_queue_keys_contains(q.skip(n));
    if n == 0 {
        assert(q.skip(0) =~= q);
        assert(queue_key_set(q.skip(0)) =~= queue_key_set(q));
    } else {
        lemma_pending_after_suffix(q, n - 1);
        lemma_queue_keys_contains(q.skip(n - 1));
        assert forall|x: u64|
            #[trigger] pending_after(queue_key_set(q), q, n).contains(x)
            implies queue_key_set(q.skip(n)).contains(x) by {
            assert(queue_key_set(q.skip(n - 1)).contains(x));
            assert(x != event_key(q[n - 1]));
            let i = choose|i: int|
                0 <= i < q.skip(n - 1).len() && event_key(#[trigger] q.skip(n - 1)[i]) == x;
            assert(event_key(q[n - 1 + i]) == x);
            assert(i >= 1);
            assert(event_key(q.skip(n)[i - 1]) == x);
        }
        assert forall|x: u64| #[trigger] queue_key_set(q.skip(n)).contains(x)
            implies pending_after(queue_key_set(q), q, n).contains(x) by {
            let i = choose|i: int|
                0 <= i < q.skip(n).len() && event_key(#[trigger] q.skip(n)[i]) == x;
            assert(event_key(q[n + i]) == x);
            assert(event_key(q.skip(n - 1)[i + 1]) == x);
            assert(queue_key_set(q.skip(n - 1)).contains(x));
            assert(x != event_key(q[n - 1]));
        }
    }
}

/// Each mutation keeps the pending set equal to the queued events' keys:
/// starting from a settled state — where both are empty — a batch of
/// mutations therefore always leaves the pending set covering exactly the
/// keys of the queue, which is what settlement is measured against.
pub proof fn lemma_batch_marks_its_keys(p: Set<u64>, q: Seq<DiffEvent>, e: DiffEvent)
    requires
        p == queue_key_set(q),
    ensures
        p.insert(event_key(e)) == queue_key_set(q.push(e)),
{
    lemma_queue_keys_contains(q);
    lemma_queue_keys_contains(q.push(e));
    assert forall|x: u64| #[trigger] p.insert(event_key(e)).contains(x)
        implies queue_key_set(q.push(e)).contains(x) by {
        if x == event_key(e) {
            assert(event_key(q.push(e)[q.len() as int]) == x);
        } else {
            let i = choose|i: int| 0 <= i < q.len() && event_key(#[trigger] q[i]) == x;
            assert(event_key(q.push(e)[i]) == x);
        }
    }
    assert forall|x: u64| #[trigger] queue_key_set(q.push(e)).contains(x)
        implies p.insert(event_key(e)).contains(x) by {
        let i = choose|i: int|
            0 <= i < q.push(e).len() && event_key(#[trigger] q.push(e)[i]) == x;
        if i < q.len() {
            assert(event_key(q[i]) == x);
        }
    }
    assert(p.insert(event_key(e)) =~= queue_key_set(q.push(e)));
}

/// Settlement fires exactly once per batch.  A batch that mutates N
/// pairwise-distinct keys before any delivery leaves the pending set equal
/// to the keys of the queued events; delivering the events one at a time —
/// each delivery unmarking its key, as `process_event` ensures — drains the
/// pending set to empty exactly at the last event, and at no earlier one.
/// Since `on_change` fires exactly when the pending set drains, it fires
/// once per batch, not N times.
pub proof fn lemma_settles_exactly_once(q: Seq<DiffEvent>, i: int)
    requires
        forall|a: int, b: int|
            0 <= a < b < q.len() ==> event_key(#[trigger] q[a]) != event_key(
                #[trigger] q[b],
            ),
        0 <= i < q.len(),
    ensures
        pending_after(queue_key_set(q), q, i + 1).is_empty() <==> i == q.len() - 1,
{
    lemma_pending_after_suffix(q, i + 1);
    lemma_queue_keys_contains(q.skip(i + 1));
    if i == q.len() - 1 {
        assert(q.skip(i + 1).len() == 0);
        assert(queue_key_set(q.skip(i + 1)) =~= Set::<u64>::empty());
        assert(pending_after(queue_key_set(q), q, i + 1) =~= Set::<u64>::empty());
    } else {
        assert(event_key(q.skip(i + 1)[0]) == event_key(q[i + 1]));
        assert(queue_has_key(q.skip(i + 1), event_key(q[i + 1])));
        assert(pending_after(queue_key_set(q), q, i + 1).contains(event_key(q[i + 1])));
        assert(!pending_after(queue_key_set(q), q, i + 1).is_empty());
    }
}

/// At most one child ever exists for a key: any two rendered entries with
/// the same key are the same entry.  In particular an add over an existing
/// key — which schedules an in-place update, never a second insert —
/// leaves exactly one child for it.
pub proof fn lemma_one_child_per_key<V>(v: DiffView<V>, i: int, j: int)
    requires
        v.inv(),
        0 <= i < v.rendered.len(),
        0 <= j < v.rendered.len(),
        v.rendered[i].0 == v.rendered[j].0,
    ensures
        i == j,
{
}

/// After a fully settled batch — the event queue drained — nothing is
/// pending and the rendered children cover exactly the keys of the source
/// collection.
pub proof fn lemma_settled_keys_match<V>(v: DiffView<V>)
    requires
        v.inv(),
        v.queue.len() == 0,
    ensures
        rendered_key_set(v.rendered) == v.source.dom(),
        v.pending.is_empty(),
{
    assert(replay(rendered_key_set(v.rendered), v.queue)
        == Some(rendered_key_set(v.rendered)));
    assert forall|k: u64| !(#[trigger] v.pending.contains(k)) by {
        if v.pending.contains(k) {
            let i = choose|i: int|
                0 <= i < v.queue.len() && event_key(#[trigger] v.queue[i]) == k;
        }
    }
    assert(v.pending =~= Set::<u64>::empty());
}

/// Every pending key keeps a covering event when one more event is pushed,
/// and the pushed event covers its own key.
proof fn lemma_pending_covered_push(p: Set<u64>, q: Seq<DiffEvent>, e: DiffEvent)
    requires
        forall|k: u64| #[trigger] p.contains(k) ==> queue_has_key(q, k),
    ensures
        forall|k: u64| #[trigger] p.insert(event_key(e)).contains(k)
            ==> queue_has_key(q.push(e), k),
{
    assert forall|k: u64| #[trigger] p.insert(event_key(e)).contains(k)
        implies queue_has_key(q.push(e), k) by {
        if k == event_key(e) {
            assert(event_key(q.push(e)[q.len() as int]) == k);
        } else {
            let i = choose|i: int| 0 <= i < q.len() && event_key(#[trigger] q[i]) == k;
            assert(event_key(q.push(e)[i]) == k);
        }
    }
}

} // verus!
