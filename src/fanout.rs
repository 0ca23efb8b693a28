use vstd::prelude::*;

verus! {

/// What a subscriber gets when it asks for its next item.
#[derive(Debug, PartialEq, Eq)]
pub enum Received<T> {
    /// The oldest item that this subscriber has not yet seen.
    Item(T),
    /// This many items were dropped before the subscriber read them.
    Lagged(u64),
    /// Nothing new has been published.
    Empty,
}

impl<T> Received<T> {
    /// `self` is what `expected` says, its item being a clone.
    pub open spec fn clone_of(self, expected: Received<T>) -> bool
        where T: Clone
    {
        match (self, expected) {
            (Received::Item(x), Received::Item(y)) => cloned(y, x),
            (Received::Lagged(a), Received::Lagged(b)) => a == b,
            (Received::Empty, Received::Empty) => true,
            _ => false,
        }
    }
}

pub open spec fn saturating_inc(n: nat) -> nat {
    if n < u64::MAX {
        n + 1
    } else {
        n
    }
}

/// Abstract state of a fan-out channel: the last `capacity` items published,
/// and for each subscriber the position of its next item among them and the
/// number of items it lost to overflow since it last asked.
pub struct BroadcastState<T> {
    pub capacity: nat,
    pub retained: Seq<T>,
    pub cursors: Seq<nat>,
    pub missed: Seq<nat>,
}

impl<T> BroadcastState<T> {
    pub open spec fn wf(self) -> bool {
        &&& 0 < self.capacity <= usize::MAX
        &&& self.retained.len() <= self.capacity
        &&& self.cursors.len() == self.missed.len()
        &&& self.cursors.len() <= usize::MAX
        &&& forall|i: int|
            0 <= i < self.cursors.len() ==> #[trigger] self.cursors[i] <= self.retained.len()
        &&& forall|i: int| 0 <= i < self.missed.len() ==> #[trigger] self.missed[i] <= u64::MAX
    }

    pub open spec fn empty(capacity: nat) -> Self {
        BroadcastState {
            capacity,
            retained: Seq::empty(),
            cursors: Seq::empty(),
            missed: Seq::empty(),
        }
    }

    pub open spec fn subscribers(self) -> nat {
        self.cursors.len()
    }

    /// Items that subscriber `i` will still receive, oldest first.
    pub open spec fn pending(self, i: int) -> Seq<T> {
        self.retained.subrange(self.cursors[i] as int, self.retained.len() as int)
    }

    /// Publishing appends the item; when the buffer is full the oldest item
    /// goes, and a subscriber that had not read it counts it as missed.
    pub open spec fn publish(self, x: T) -> Self {
        if self.retained.len() < self.capacity {
            BroadcastState { retained: self.retained.push(x), ..self }
        } else {
            BroadcastState {
                capacity: self.capacity,
                retained: self.retained.drop_first().push(x),
                cursors: Seq::new(
                    self.cursors.len(),
                    |i: int|
                        if self.cursors[i] > 0 {
                            (self.cursors[i] - 1) as nat
                        } else {
                            0
                        },
                ),
                missed: Seq::new(
                    self.missed.len(),
                    |i: int|
                        if self.cursors[i] > 0 {
                            self.missed[i]
                        } else {
                            saturating_inc(self.missed[i])
                        },
                ),
            }
        }
    }

    /// Publishing each item of `items` in turn.
    pub open spec fn publish_all(self, items: Seq<T>) -> Self
        decreases items.len(),
    {
        if items.len() == 0 {
            self
        } else {
            self.publish_all(items.drop_last()).publish(items.last())
        }
    }

    /// A new subscriber starts after everything published so far.
    pub open spec fn subscribe(self) -> Self {
        BroadcastState {
            cursors: self.cursors.push(self.retained.len()),
            missed: self.missed.push(0),
            ..self
        }
    }

    /// What subscriber `i` is told next: first any loss, then its oldest item.
    pub open spec fn receipt(self, i: int) -> Received<T> {
        if self.missed[i] > 0 {
            Received::Lagged(self.missed[i] as u64)
        } else if self.cursors[i] < self.retained.len() {
            Received::Item(self.retained[self.cursors[i] as int])
        } else {
            Received::Empty
        }
    }

    pub open spec fn receive(self, i: int) -> Self {
        if self.missed[i] > 0 {
            BroadcastState { missed: self.missed.update(i, 0), ..self }
        } else if self.cursors[i] < self.retained.len() {
            BroadcastState { cursors: self.cursors.update(i, self.cursors[i] + 1), ..self }
        } else {
            self
        }
    }
}

#[derive(Clone, Copy)]
struct Cursor {
    next: usize,
    missed: u64,
}

/// Single-writer, multi-reader fan-out channel with a bounded backlog.
/// Subscribers are numbered from 0 in the order they attach.
pub struct Broadcaster<T> {
    capacity: usize,
    items: Vec<T>,
    subs: Vec<Cursor>,
}

impl<T> View for Broadcaster<T> {
    type V = BroadcastState<T>;

    closed spec fn view(&self) -> BroadcastState<T> {
        BroadcastState {
            capacity: self.capacity as nat,
            retained: self.items@,
            cursors: Seq::new(self.subs@.len(), |i: int| self.subs@[i].next as nat),
            missed: Seq::new(self.subs@.len(), |i: int| self.subs@[i].missed as nat),
        }
    }
}

impl<T: Clone> Broadcaster<T> {
    pub fn new(capacity: usize) -> (r: Self)
        requires
            capacity > 0,
        ensures
            r@ == BroadcastState::<T>::empty(capacity as nat),
            r@.wf(),
    {
        let r = Broadcaster { capacity, items: Vec::new(), subs: Vec::new() };
        assert(r@.cursors =~= Seq::<nat>::empty());
        assert(r@.missed =~= Seq::<nat>::empty());
        r
    }

    /// Number of subscribers attached so far.
    pub fn subscriber_count(&self) -> (r: usize)
        ensures
            r == self@.subscribers(),
    {
        self.subs.len()
    }

    /// Delivers `x` to every subscriber attached now; never blocks on a slow one.
    pub fn publish(&mut self, x: T)
        requires
            old(self)@.wf(),
        ensures
            final(self)@ == old(self)@.publish(x),
            final(self)@.wf(),
    {
        let ghost before = self@;
        if self.items.len() == self.capacity {
            self.items.remove(0);
            let mut j: usize = 0;
            while j < self.subs.len()
                invariant
                    self.capacity == before.capacity,
                    self.items@ == before.retained.drop_first(),
                    self.subs@.len() == before.cursors.len(),
                    j <= self.subs@.len(),
                    before.wf(),
                    before.retained.len() == before.capacity,
                    forall|k: int|
                        0 <= k < j ==> (#[trigger] self.subs@[k]).next as nat == (if before.cursors[k]
                            > 0 {
                            (before.cursors[k] - 1) as nat
                        } else {
                            0
                        }) && self.subs@[k].missed as nat == (if before.cursors[k] > 0 {
                            before.missed[k]
                        } else {
                            saturating_inc(before.missed[k])
                        }),
                    forall|k: int|
                        j <= k < self.subs@.len() ==> (#[trigger] self.subs@[k]).next as nat
                            == before.cursors[k] && self.subs@[k].missed as nat == before.missed[k],
                decreases self.subs@.len() - j,
            {
                let c = self.subs[j];
                let next = if c.next > 0 {
                    c.next - 1
                } else {
                    0
                };
                let missed = if c.next > 0 {
                    c.missed
                } else if c.missed < u64::MAX {
                    c.missed + 1
                } else {
                    c.missed
                };
                self.subs.set(j, Cursor { next, missed });
                j = j + 1;
            }
            self.items.push(x);
            assert(self@.cursors =~= before.publish(x).cursors);
            assert(self@.missed =~= before.publish(x).missed);
            assert(self@.retained =~= before.publish(x).retained);
        } else {
            self.items.push(x);
            assert(self@.cursors =~= before.cursors);
            assert(self@.missed =~= before.missed);
        }
    }

    /// Attaches a new subscriber and returns its number; it will see only
    /// what is published from now on.
    pub fn subscribe(&mut self) -> (r: usize)
        requires
            old(self)@.wf(),
            old(self)@.subscribers() < usize::MAX,
        ensures
            r == old(self)@.subscribers(),
            final(self)@ == old(self)@.subscribe(),
            final(self)@.wf(),
    {
        let ghost before = self@;
        let r = self.subs.len();
        self.subs.push(Cursor { next: self.items.len(), missed: 0 });
        assert(self@.cursors =~= before.subscribe().cursors);
        assert(self@.missed =~= before.subscribe().missed);
        r
    }

    /// The next thing subscriber `sub` should see, and its cursor moved past it.
    pub fn receive(&mut self, sub: usize) -> (r: Received<T>)
        requires
            old(self)@.wf(),
            sub < old(self)@.subscribers(),
        ensures
            final(self)@ == old(self)@.receive(sub as int),
            r.clone_of(old(self)@.receipt(sub as int)),
            final(self)@.wf(),
    {
        let ghost before = self@;
        let c = self.subs[sub];
        if c.missed > 0 {
            self.subs.set(sub, Cursor { next: c.next, missed: 0 });
            assert(self@.cursors =~= before.receive(sub as int).cursors);
            assert(self@.missed =~= before.receive(sub as int).missed);
            Received::Lagged(c.missed)
        } else if c.next < self.items.len() {
            let x = self.items[c.next].clone();
            self.subs.set(sub, Cursor { next: c.next + 1, missed: 0 });
            assert(self@.cursors =~= before.receive(sub as int).cursors);
            assert(self@.missed =~= before.receive(sub as int).missed);
            Received::Item(x)
        } else {
            assert(self@.cursors =~= before.cursors);
            Received::Empty
        }
    }
}

/// Publishing keeps the channel well formed, and a subscriber with room left
/// in the backlog gets the item appended to what it has pending, losing nothing.
pub proof fn lemma_publish_appends<T>(b: BroadcastState<T>, i: int, x: T)
    requires
        b.wf(),
        0 <= i < b.subscribers(),
        b.pending(i).len() < b.capacity,
    ensures
        b.publish(x).wf(),
        b.publish(x).subscribers() == b.subscribers(),
        b.publish(x).pending(i) == b.pending(i).push(x),
        b.publish(x).missed[i] == b.missed[i],
{
    lemma_publish_wf(b, x);
    let p = b.publish(x);
    assert(p.pending(i) =~= b.pending(i).push(x));
}

/// Publishing keeps the channel well formed and the set of subscribers.
pub proof fn lemma_publish_wf<T>(b: BroadcastState<T>, x: T)
    requires
        b.wf(),
    ensures
        b.publish(x).wf(),
        b.publish(x).subscribers() == b.subscribers(),
{
}

/// Subscribing and receiving keep the channel well formed.
pub proof fn lemma_subscribe_receive_wf<T>(b: BroadcastState<T>, i: int)
    requires
        b.wf(),
    ensures
        b.subscribers() < usize::MAX ==> b.subscribe().wf(),
        0 <= i < b.subscribers() ==> b.receive(i).wf() && b.receive(i).subscribers()
            == b.subscribers(),
{
}

/// Receiving by one subscriber leaves every other subscriber's view alone.
pub proof fn lemma_receive_independent<T>(b: BroadcastState<T>, i: int, j: int)
    requires
        b.wf(),
        0 <= i < b.subscribers(),
        0 <= j < b.subscribers(),
        i != j,
    ensures
        b.receive(i).pending(j) == b.pending(j),
        b.receive(i).missed[j] == b.missed[j],
        b.receive(i).receipt(j) == b.receipt(j),
{
}

/// A subscriber with nothing missed receives its pending items in order:
/// the first one now, the rest afterwards.
pub proof fn lemma_receive_in_order<T>(b: BroadcastState<T>, i: int)
    requires
        b.wf(),
        0 <= i < b.subscribers(),
        b.missed[i] == 0,
    ensures
        b.pending(i).len() > 0 ==> b.receipt(i) == Received::Item(b.pending(i)[0]),
        b.pending(i).len() == 0 ==> b.receipt(i) == Received::<T>::Empty,
        b.receive(i).pending(i) == (if b.pending(i).len() > 0 {
            b.pending(i).drop_first()
        } else {
            b.pending(i)
        }),
        b.receive(i).missed[i] == 0,
{
    assert(b.receive(i).pending(i) =~= (if b.pending(i).len() > 0 {
        b.pending(i).drop_first()
    } else {
        b.pending(i)
    }));
}

proof fn lemma_publish_all_appends<T>(b: BroadcastState<T>, i: int, items: Seq<T>)
    requires
        b.wf(),
        0 <= i < b.subscribers(),
        b.pending(i).len() + items.len() <= b.capacity,
    ensures
        b.publish_all(items).wf(),
        b.publish_all(items).subscribers() == b.subscribers(),
        b.publish_all(items).pending(i) == b.pending(i) + items,
        b.publish_all(items).missed[i] == b.missed[i],
        b.publish_all(items).capacity == b.capacity,
    decreases items.len(),
{
    if items.len() == 0 {
        assert(b.pending(i) + items =~= b.pending(i));
    } else {
        lemma_publish_all_appends(b, i, items.drop_last());
        let mid = b.publish_all(items.drop_last());
        assert(mid.pending(i).len() == b.pending(i).len() + items.len() - 1);
        lemma_publish_appends(mid, i, items.last());
        assert(b.pending(i) + items =~= (b.pending(i) + items.drop_last()).push(items.last()));
    }
}

/// Two subscribers attached one after the other, with nothing published in
/// between, each receive exactly the items published afterwards, in the
/// order published, and nothing published before they attached; this holds
/// as long as the backlog does not overflow.
pub proof fn lemma_fan_out<T>(b: BroadcastState<T>, items: Seq<T>)
    requires
        b.wf(),
        b.subscribers() + 2 <= usize::MAX,
        items.len() <= b.capacity,
    ensures
        ({
            let first = b.subscribers() as int;
            let after = b.subscribe().subscribe().publish_all(items);
            &&& after.wf()
            &&& after.pending(first) == items
            &&& after.pending(first + 1) == items
            &&& after.missed[first] == 0
            &&& after.missed[first + 1] == 0
        }),
{
    let first = b.subscribers() as int;
    let s2 = b.subscribe().subscribe();
    assert(s2.pending(first) =~= Seq::<T>::empty());
    assert(s2.pending(first + 1) =~= Seq::<T>::empty());
    lemma_publish_all_appends(s2, first, items);
    lemma_publish_all_appends(s2, first + 1, items);
    assert(Seq::<T>::empty() + items =~= items);
}

/// `s` is a tail of `t`.
pub open spec fn is_suffix<T>(s: Seq<T>, t: Seq<T>) -> bool {
    s.len() <= t.len() && s == t.subrange(t.len() - s.len(), t.len() as int)
}

proof fn lemma_suffix_push<T>(a: Seq<T>, b: Seq<T>, x: T)
    requires
        is_suffix(a, b),
    ensures
        is_suffix(a.push(x), b.push(x)),
{
    assert(a.push(x) =~= b.push(x).subrange(
        b.push(x).len() - a.push(x).len(),
        b.push(x).len() as int,
    ));
}

proof fn lemma_suffix_trans<T>(a: Seq<T>, b: Seq<T>, c: Seq<T>)
    requires
        is_suffix(a, b),
        is_suffix(b, c),
    ensures
        is_suffix(a, c),
{
    assert(a =~= c.subrange(c.len() - a.len(), c.len() as int));
}

proof fn lemma_publish_suffix<T>(b: BroadcastState<T>, i: int, x: T)
    requires
        b.wf(),
        0 <= i < b.subscribers(),
    ensures
        is_suffix(b.publish(x).pending(i), b.pending(i).push(x)),
{
    let p = b.pending(i);
    let q = b.publish(x).pending(i);
    if b.retained.len() < b.capacity || b.cursors[i] > 0 {
        assert(q =~= p.push(x));
        assert(p.push(x).subrange(0, p.push(x).len() as int) =~= p.push(x));
    } else {
        assert(q =~= p.push(x).subrange(1, p.push(x).len() as int));
    }
}

proof fn lemma_publish_all_suffix<T>(b: BroadcastState<T>, i: int, items: Seq<T>)
    requires
        b.wf(),
        0 <= i < b.subscribers(),
    ensures
        b.publish_all(items).wf(),
        b.publish_all(items).subscribers() == b.subscribers(),
        is_suffix(b.publish_all(items).pending(i), b.pending(i) + items),
    decreases items.len(),
{
    if items.len() == 0 {
        let p = b.pending(i);
        assert(p + items =~= p);
        assert(p.subrange(0, p.len() as int) =~= p);
    } else {
        let mid = b.publish_all(items.drop_last());
        lemma_publish_all_suffix(b, i, items.drop_last());
        lemma_publish_wf(mid, items.last());
        lemma_publish_suffix(mid, i, items.last());
        lemma_suffix_push(mid.pending(i), b.pending(i) + items.drop_last(), items.last());
        assert((b.pending(i) + items.drop_last()).push(items.last()) =~= b.pending(i) + items);
        lemma_suffix_trans(
            b.publish_all(items).pending(i),
            mid.pending(i).push(items.last()),
            b.pending(i) + items,
        );
    }
}

/// A subscriber never receives an item published before it attached:
/// however many items are published afterwards, overflow included, what it
/// still has to receive is a tail of those later items.
pub proof fn lemma_late_subscriber<T>(b: BroadcastState<T>, items: Seq<T>)
    requires
        b.wf(),
        b.subscribers() < usize::MAX,
    ensures
        is_suffix(b.subscribe().publish_all(items).pending(b.subscribers() as int), items),
{
    let n = b.subscribers() as int;
    let s = b.subscribe();
    assert(s.pending(n) =~= Seq::<T>::empty());
    lemma_publish_all_suffix(s, n, items);
    assert(Seq::<T>::empty() + items =~= items);
}

} // verus!
