use vstd::prelude::*;

verus! {

/// The forward link of a node.
///
/// Nodes live in an arena owned by their queue, so a link names its successor
/// by arena index rather than by address.
#[derive(Clone, Copy, Debug, PartialEq, Eq, Structural)]
pub enum Link {
    /// No successor is known yet.
    Empty,
    /// The successor is the node at this arena index.
    Linked(usize),
    /// The consumer has already taken this node and found no successor; the
    /// producer that attaches one must hand it to the consumer through `head`.
    Awaited,
}

/// One enqueued value together with its forward link.
#[derive(Clone, Copy, Debug, PartialEq, Eq, Structural)]
pub struct Node {
    pub data: i32,
    pub link: Link,
}

/// `l` names the node at arena index `j` as its successor.
pub open spec fn links_to(l: Link, j: int) -> bool {
    match l {
        Link::Linked(k) => k == j,
        _ => false,
    }
}

/// Wraps a payload in a fresh node with no successor.
pub fn make_node(data: i32) -> (r: Node)
    ensures
        r.data == data,
        r.link == Link::Empty,
{
    Node { data, link: Link::Empty }
}

/// Consumes a node and hands back its payload.
pub fn get_val(node: Node) -> (r: i32)
    ensures
        r == node.data,
{
    node.data
}

/// The debugging text `head=.. tail=..` of a queue's two ends, as arena
/// indices.
pub uninterp spec fn ends_text(head: Option<usize>, tail: Option<usize>) -> Seq<char>;

/// Relies on `format!` rendering the two `Option<usize>` values with `{:?}`;
/// the text depends on those values alone.
#[verifier::external_body]
pub(crate) fn describe_ends(head: Option<usize>, tail: Option<usize>) -> (r: String)
    ensures
        r@ == ends_text(head, tail),
{
    format!("head={:?} tail={:?}", head, tail)
}

} // verus!
