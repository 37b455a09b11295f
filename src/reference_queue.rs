use vstd::prelude::*;

use crate::node::{describe_ends, ends_text, links_to, make_node, Link, Node};

verus! {

/// What one `pop` does to a FIFO queue whose contents are `q`, oldest first:
/// the value it returns and the contents it leaves.
pub open spec fn pop_step(q: Seq<i32>) -> (Option<i32>, Seq<i32>) {
    if q.len() == 0 {
        (None, q)
    } else {
        (Some(q[0]), q.drop_first())
    }
}

/// A FIFO queue kept as a singly linked chain from `head` to `tail`.
///
/// Every operation takes `&mut self`, so callers that share the queue between
/// threads put it behind one lock, which serialises all operations into a
/// single total order. Popped nodes stay in the arena: nodes are never
/// reclaimed while the queue lives.
pub struct ReferenceQueue {
    nodes: Vec<Node>,
    head: Option<usize>,
    tail: Option<usize>,
}

impl View for ReferenceQueue {
    type V = Seq<i32>;

    /// The values held, oldest first.
    closed spec fn view(&self) -> Seq<i32> {
        match self.head {
            None => Seq::empty(),
            Some(h) => Seq::new(
                (self.nodes@.len() - h) as nat,
                |i: int| self.nodes@[h + i].data,
            ),
        }
    }
}

impl ReferenceQueue {
    /// `head` is absent exactly when `tail` is; the chain from `head` runs
    /// through consecutive arena slots and ends at `tail`, the last slot.
    pub closed spec fn wf(&self) -> bool {
        let n = self.nodes@.len();
        &&& self.head.is_none() == self.tail.is_none()
        &&& match self.head {
            None => true,
            Some(h) => {
                &&& h < n
                &&& self.tail matches Some(t) && t == n - 1
                &&& forall|i: int|
                    h <= i < n - 1 ==> links_to(#[trigger] self.nodes@[i].link, i + 1)
                &&& self.nodes@[n - 1].link == Link::Empty
            },
        }
    }

    /// The arena indices of the head and the tail.
    pub closed spec fn ends(&self) -> (Option<usize>, Option<usize>) {
        (self.head, self.tail)
    }

    /// A one-line description of where the head and the tail stand.
    pub fn format(&self) -> (r: String)
        ensures
            r@ == ends_text(self.ends().0, self.ends().1),
    {
        describe_ends(self.head, self.tail)
    }

    /// An empty queue.
    pub fn new() -> (r: Self)
        ensures
            r.wf(),
            r@ == Seq::<i32>::empty(),
    {
        ReferenceQueue { nodes: Vec::new(), head: None, tail: None }
    }

    /// Appends `value` at the back.
    pub fn push(&mut self, value: i32)
        requires
            old(self).wf(),
        ensures
            final(self).wf(),
            final(self)@ == old(self)@.push(value),
    {
        let idx = self.nodes.len();
        match self.tail {
            Some(t) => {
                let mut last = self.nodes[t];
                last.link = Link::Linked(idx);
                self.nodes.set(t, last);
            },
            None => {},
        }
        self.nodes.push(make_node(value));
        self.tail = Some(idx);
        if self.head.is_none() {
            self.head = Some(idx);
        }
        assert(self@ =~= old(self)@.push(value));
    }

    /// Removes and returns the oldest value, or `None` when the queue is empty.
    pub fn pop(&mut self) -> (r: Option<i32>)
        requires
            old(self).wf(),
        ensures
            final(self).wf(),
            (r, final(self)@) == pop_step(old(self)@),
    {
        match self.head {
            None => None,
            Some(h) => {
                let node = self.nodes[h];
                let ghost n = self.nodes@.len();
                proof {
                    if h < n - 1 {
                        assert(links_to(self.nodes@[h as int].link, h + 1));
                    }
                }
                if let Some(t) = self.tail {
                    if t == h {
                        self.tail = None;
                    }
                }
                self.head = match node.link {
                    Link::Linked(next) => Some(next),
                    _ => None,
                };
                assert(self@ =~= old(self)@.drop_first());
                Some(node.data)
            },
        }
    }
}

} // verus!
