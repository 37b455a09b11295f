use vstd::prelude::*;

use crate::node::{describe_ends, ends_text, links_to, make_node, Link, Node};
use crate::reference_queue::pop_step;

verus! {

/// A push that has exchanged the queue's tail for its node but has not yet
/// attached that node to its predecessor. It is handed back to
/// [`LockFreeQueue::finish_push`] exactly once.
pub struct PushTicket {
    node: usize,
    prev: Option<usize>,
}

impl PushTicket {
    /// Arena index of the node this push enqueued, which is its position in
    /// the order of tail exchanges.
    pub closed spec fn index(&self) -> nat {
        self.node as nat
    }

    /// The ticket remembers the node exchanged for the tail before its own,
    /// which is the one just before it in push order.
    pub closed spec fn wf(&self) -> bool {
        if self.node == 0 {
            self.prev is None
        } else {
            self.prev matches Some(p) && p == self.node - 1
        }
    }
}

/// The multi-producer, single-consumer queue protocol in which producers never
/// take a lock.
///
/// A push is two steps. [`begin_push`](Self::begin_push) allocates the node and
/// exchanges it for the tail; this exchange alone orders producers.
/// [`finish_push`](Self::finish_push) then attaches the node: as the head when
/// the queue had never held a node, else as the predecessor's successor, unless
/// the consumer already marked that link as awaited, in which case the node is
/// handed to the consumer through `head`. Between the two steps the node is in
/// flight: it is enqueued but the consumer may not see it yet.
///
/// Each step is one atomic transition of the shared state; any interleaving of
/// producers is a sequence of such calls. Nodes are never reclaimed.
pub struct LockFreeQueue {
    nodes: Vec<Node>,
    head: Option<usize>,
    tail: Option<usize>,
    consumed: Ghost<nat>,
    in_flight: Ghost<Set<nat>>,
}

impl LockFreeQueue {
    /// Every value whose node has been exchanged for the tail, in exchange order.
    pub closed spec fn pushed(&self) -> Seq<i32> {
        self.nodes@.map_values(|n: Node| n.data)
    }

    /// How many values the consumer has taken; they are a prefix of `pushed()`.
    pub closed spec fn consumed(&self) -> nat {
        self.consumed@
    }

    /// Positions in `pushed()` of the pushes that have begun and not finished.
    pub closed spec fn in_flight(&self) -> Set<nat> {
        self.in_flight@
    }

    /// The values the consumer has taken, oldest first.
    pub open spec fn popped(&self) -> Seq<i32> {
        self.pushed().take(self.consumed() as int)
    }

    /// `t` is a push of this queue that has begun and not finished.
    pub open spec fn ticket_valid(&self, t: PushTicket) -> bool {
        self.in_flight().contains(t.index()) && t.wf()
    }

    /// The forward link of slot `i`, given which pushes are still in flight.
    closed spec fn link_ok(&self, i: int) -> bool {
        let n = self.nodes@.len();
        let l = self.nodes@[i].link;
        let c = self.consumed@;
        &&& (l == Link::Awaited ==> i < c)
        &&& (l == Link::Empty ==> i >= c)
        &&& (i + 1 < n && !self.in_flight@.contains((i + 1) as nat) ==> links_to(l, i + 1) || l
            == Link::Awaited)
        &&& (i + 1 == n || self.in_flight@.contains((i + 1) as nat) ==> l == Link::Empty || l
            == Link::Awaited)
    }

    /// Where the consumer's `head` stands after `consumed` values were taken.
    closed spec fn head_ok(&self) -> bool {
        let n = self.nodes@.len();
        let c = self.consumed@;
        if c == 0 {
            if n == 0 || self.in_flight@.contains(0) {
                self.head is None
            } else {
                self.head matches Some(h) && h == 0
            }
        } else if self.nodes@[c - 1].link == Link::Awaited && (c == n || self.in_flight@.contains(
            c,
        )) {
            self.head matches Some(h) && h == c - 1
        } else {
            self.head matches Some(h) && h == c
        }
    }

    pub closed spec fn wf(&self) -> bool {
        let n = self.nodes@.len();
        &&& self.consumed@ <= n
        &&& (n == 0 ==> self.tail is None)
        &&& (n > 0 ==> (self.tail matches Some(t) && t == n - 1))
        &&& forall|j: nat| #[trigger] self.in_flight@.contains(j) ==> self.consumed@ <= j < n
        &&& forall|i: int| 0 <= i < n ==> #[trigger] self.link_ok(i)
        &&& self.head_ok()
    }

    /// The arena indices of the head and the tail.
    pub closed spec fn ends(&self) -> (Option<usize>, Option<usize>) {
        (self.head, self.tail)
    }

    /// A one-line description of where the head and the tail stand.
    pub fn format(&self) -> (r: String)
        ensures
            r@ == ends_text(self.ends().0, self.ends().1),
    {
        describe_ends(self.head, self.tail)
    }

    /// An empty queue: no head, no tail.
    pub fn new() -> (r: Self)
        ensures
            r.wf(),
            r.pushed() == Seq::<i32>::empty(),
            r.consumed() == 0,
            r.in_flight() == Set::<nat>::empty(),
    {
        LockFreeQueue {
            nodes: Vec::new(),
            head: None,
            tail: None,
            consumed: Ghost(0),
            in_flight: Ghost(Set::empty()),
        }
    }

    /// First step of a push: allocates a node for `value` and exchanges it for
    /// the tail. From here on `value` has its place in the FIFO order.
    pub fn begin_push(&mut self, value: i32) -> (t: PushTicket)
        requires
            old(self).wf(),
        ensures
            final(self).wf(),
            final(self).pushed() == old(self).pushed().push(value),
            final(self).consumed() == old(self).consumed(),
            final(self).in_flight() == old(self).in_flight().insert(old(self).pushed().len()),
            t.index() == old(self).pushed().len(),
            final(self).ticket_valid(t),
    {
        let idx = self.nodes.len();
        self.nodes.push(make_node(value));
        let prev = self.tail;
        self.tail = Some(idx);
        self.in_flight = Ghost(self.in_flight@.insert(idx as nat));
        proof {
            let n = self.nodes@.len();
            assert forall|i: int| 0 <= i < n implies #[trigger] self.link_ok(i) by {
                if i < n - 1 {
                    assert(old(self).link_ok(i));
                }
            }
            assert(self.pushed() =~= old(self).pushed().push(value));
        }
        PushTicket { node: idx, prev }
    }

    /// Second step of a push: makes the ticket's node reachable by the
    /// consumer, either through its predecessor's link or, where the consumer
    /// is already waiting on that link, through `head`.
    pub fn finish_push(&mut self, t: PushTicket)
        requires
            old(self).wf(),
            old(self).ticket_valid(t),
        ensures
            final(self).wf(),
            final(self).pushed() == old(self).pushed(),
            final(self).consumed() == old(self).consumed(),
            final(self).in_flight() == old(self).in_flight().remove(t.index()),
    {
        match t.prev {
            None => {
                self.head = Some(t.node);
            },
            Some(p) => {
                let mut prev_node = self.nodes[p];
                match prev_node.link {
                    Link::Empty => {
                        prev_node.link = Link::Linked(t.node);
                        self.nodes.set(p, prev_node);
                    },
                    _ => {
                        self.head = Some(t.node);
                    },
                }
            },
        }
        self.in_flight = Ghost(self.in_flight@.remove(t.node as nat));
        proof {
            let n = self.nodes@.len();
            assert(old(self).in_flight@.contains(t.node as nat));
            assert forall|i: int| 0 <= i < n implies #[trigger] self.link_ok(i) by {
                assert(old(self).link_ok(i));
            }
            if t.node > 0 {
                assert(old(self).link_ok(t.node - 1));
            }
            assert(self.pushed() =~= old(self).pushed());
        }
    }

    /// Both steps of a push, back to back.
    pub fn push(&mut self, value: i32)
        requires
            old(self).wf(),
        ensures
            final(self).wf(),
            final(self).pushed() == old(self).pushed().push(value),
            final(self).consumed() == old(self).consumed(),
            final(self).in_flight() == old(self).in_flight(),
            final(self)@ == old(self)@.push(value),
    {
        let t = self.begin_push(value);
        self.finish_push(t);
        proof {
            assert(!old(self).in_flight().contains(old(self).pushed().len()));
            assert(self.in_flight() =~= old(self).in_flight());
            assert(self@ =~= old(self)@.push(value));
        }
    }

    /// Takes the oldest value, if the consumer can reach it.
    ///
    /// `None` comes exactly when nothing is enqueued or the oldest value's push
    /// is still in flight; in the second case a later call, after that push
    /// finishes, returns it. Only one thread may act as the consumer.
    pub fn pop(&mut self) -> (r: Option<i32>)
        requires
            old(self).wf(),
        ensures
            final(self).wf(),
            final(self).pushed() == old(self).pushed(),
            final(self).in_flight() == old(self).in_flight(),
            r is None <==> (old(self)@.len() == 0 || old(self).in_flight().contains(
                old(self).consumed(),
            )),
            r is None ==> final(self).consumed() == old(self).consumed(),
            r is Some ==> final(self).consumed() == old(self).consumed() + 1 && r == Some(
                old(self)@[0],
            ),
            !old(self).in_flight().contains(old(self).consumed()) ==> (r, final(self)@) == pop_step(
                old(self)@,
            ),
    {
        proof {
            let c = self.consumed@;
            let n = self.nodes@.len();
            if c > 0 {
                assert(self.link_ok(c - 1));
            }
            if c < n {
                assert(self.link_ok(c as int));
            }
        }
        match self.head {
            None => None,
            Some(h) => {
                let mut node = self.nodes[h];
                match node.link {
                    Link::Awaited => None,
                    Link::Linked(next) => {
                        self.head = Some(next);
                        self.consumed = Ghost(self.consumed@ + 1);
                        proof {
                            let n = self.nodes@.len();
                            assert forall|i: int| 0 <= i < n implies #[trigger] self.link_ok(i) by {
                                assert(old(self).link_ok(i));
                            }
                            assert(self@ =~= old(self)@.drop_first());
                        }
                        Some(node.data)
                    },
                    Link::Empty => {
                        node.link = Link::Awaited;
                        self.nodes.set(h, node);
                        self.consumed = Ghost(self.consumed@ + 1);
                        proof {
                            let n = self.nodes@.len();
                            assert forall|i: int| 0 <= i < n implies #[trigger] self.link_ok(i) by {
                                assert(old(self).link_ok(i));
                            }
                            assert(self.pushed() =~= old(self).pushed());
                            assert(self@ =~= old(self)@.drop_first());
                        }
                        Some(node.data)
                    },
                }
            },
        }
    }
}

impl View for LockFreeQueue {
    type V = Seq<i32>;

    /// The values enqueued and not yet taken, oldest first, including those
    /// whose push is still in flight.
    open spec fn view(&self) -> Seq<i32> {
        self.pushed().skip(self.consumed() as int)
    }
}

/// Nothing is lost or delivered twice: the values the consumer has taken,
/// followed by those still enqueued, are exactly the values pushed, in push
/// order, whatever interleaving of push steps and pops led here; as multisets,
/// taken and held together equal pushed.
pub proof fn lemma_nothing_lost_or_duplicated(q: &LockFreeQueue)
    requires
        q.wf(),
    ensures
        q.popped() + q@ == q.pushed(),
        q.pushed().to_multiset() == q.popped().to_multiset().add(q@.to_multiset()),
{
    let s = q.pushed();
    let c = q.consumed() as int;
    assert(s.take(c) + s.skip(c) =~= s);
    vstd::seq_lib::lemma_multiset_commutative(s.take(c), s.skip(c));
}

} // verus!
