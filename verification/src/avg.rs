//! The running average: a list of buckets, each holding the sum of a number
//! of recorded chunks, both as `u32`. A value is split into chunks of at most
//! `u32::MAX`; a chunk joins the last bucket while the bucket's sum and count
//! still fit in a `u32`, and opens a new bucket otherwise.

use vstd::prelude::*;

verus! {

/// One bucket: `sum` of `counter` recorded chunks.
#[derive(Clone, Copy, Debug, PartialEq, Eq, Structural)]
pub struct Node {
    pub counter: u32,
    pub sum: u32,
}

/// Whether `value` can join `node` without its sum or its count leaving `u32`.
pub open spec fn fits_chunk(node: Node, value: u32) -> bool {
    node.sum + value <= u32::MAX && node.counter + 1 <= u32::MAX
}

/// `node` after `value` has joined it.
pub open spec fn with_chunk(node: Node, value: u32) -> Node {
    Node { counter: (node.counter + 1) as u32, sum: (node.sum + value) as u32 }
}

/// The size of the next chunk taken off a remaining `value`.
pub open spec fn chunk_of(value: nat) -> u32 {
    if value < u32::MAX {
        value as u32
    } else {
        u32::MAX
    }
}

/// The buckets after one chunk was recorded: it joins the last bucket when it
/// fits there, and opens a new bucket of one chunk otherwise.
pub open spec fn add_chunk(nodes: Seq<Node>, chunk: u32) -> Seq<Node> {
    let last = nodes.len() - 1;
    if fits_chunk(nodes[last], chunk) {
        nodes.update(last, with_chunk(nodes[last], chunk))
    } else {
        nodes.push(Node { counter: 1, sum: chunk })
    }
}

/// The buckets after `value` was recorded, chunk by chunk.
pub open spec fn add_value(nodes: Seq<Node>, value: nat) -> Seq<Node>
    decreases value,
{
    if value == 0 {
        nodes
    } else {
        add_value(add_chunk(nodes, chunk_of(value)), (value - chunk_of(value)) as nat)
    }
}

/// The number of chunks that `value` is split into.
pub open spec fn chunk_count(value: nat) -> nat {
    ((value + u32::MAX - 1) / (u32::MAX as int)) as nat
}

/// The sum over all buckets.
pub open spec fn total_sum(nodes: Seq<Node>) -> int
    decreases nodes.len(),
{
    if nodes.len() == 0 {
        0
    } else {
        total_sum(nodes.drop_last()) + nodes.last().sum
    }
}

/// The number of chunks over all buckets.
pub open spec fn total_count(nodes: Seq<Node>) -> int
    decreases nodes.len(),
{
    if nodes.len() == 0 {
        0
    } else {
        total_count(nodes.drop_last()) + nodes.last().counter
    }
}


proof fn lemma_add_chunk(nodes: Seq<Node>, chunk: u32)
    requires
        nodes.len() > 0,
    ensures
        total_sum(add_chunk(nodes, chunk)) == total_sum(nodes) + chunk,
        total_count(add_chunk(nodes, chunk)) == total_count(nodes) + 1,
        add_chunk(nodes, chunk).len() >= nodes.len(),
        add_chunk(nodes, chunk).take(nodes.len() - 1) == nodes.take(nodes.len() - 1),
        add_chunk(nodes, chunk)[nodes.len() - 1].counter >= nodes.last().counter,
        forall|i: int|
            nodes.len() <= i < add_chunk(nodes, chunk).len() ==> #[trigger] add_chunk(
                nodes,
                chunk,
            )[i].counter >= 1,
{
    let last = nodes.len() - 1;
    let next = add_chunk(nodes, chunk);
    if fits_chunk(nodes[last], chunk) {
        assert(next.drop_last() =~= nodes.drop_last());
    } else {
        assert(next.drop_last() =~= nodes);
    }
    assert(next.take(last) =~= nodes.take(last));
}

proof fn lemma_chunk_count_step(value: nat)
    requires
        value > 0,
    ensures
        chunk_count(value) == 1 + chunk_count((value - chunk_of(value)) as nat),
        chunk_of(value) >= 1,
{
    let m = u32::MAX as int;
    if value < u32::MAX {
        assert(chunk_count(value) == 1) by (nonlinear_arith)
            requires
                m == u32::MAX,
                1 <= value < m,
                chunk_count(value) == (value + m - 1) / m,
        ;
        assert(chunk_count(0) == 0);
    } else {
        let rest = (value - m) as nat;
        assert((value + m - 1) / m == 1 + (rest + m - 1) / m) by (nonlinear_arith)
            requires
                m == u32::MAX,
                rest == value - m,
                rest >= 0,
        ;
    }
}

/// Recording a value adds exactly that value to the sum over all buckets.
pub proof fn lemma_add_value_total_sum(nodes: Seq<Node>, value: nat)
    requires
        nodes.len() > 0,
    ensures
        total_sum(add_value(nodes, value)) == total_sum(nodes) + value,
    decreases value,
{
    if value > 0 {
        let chunk = chunk_of(value);
        lemma_add_chunk(nodes, chunk);
        lemma_add_value_total_sum(add_chunk(nodes, chunk), (value - chunk) as nat);
    }
}

/// Recording a value adds one chunk to the count over all buckets for each
/// started `u32::MAX` of the value.
pub proof fn lemma_add_value_total_count(nodes: Seq<Node>, value: nat)
    requires
        nodes.len() > 0,
    ensures
        total_count(add_value(nodes, value)) == total_count(nodes) + chunk_count(value),
    decreases value,
{
    if value > 0 {
        let chunk = chunk_of(value);
        lemma_add_chunk(nodes, chunk);
        lemma_chunk_count_step(value);
        lemma_add_value_total_count(add_chunk(nodes, chunk), (value - chunk) as nat);
    } else {
        assert(chunk_count(0) == 0);
    }
}

/// Recording a value leaves every bucket but the last untouched, keeps the
/// buckets that were there, and every bucket it opens holds at least one chunk.
pub proof fn lemma_add_value_keeps_buckets(nodes: Seq<Node>, value: nat)
    requires
        nodes.len() > 0,
    ensures
        add_value(nodes, value).len() >= nodes.len(),
        add_value(nodes, value).take(nodes.len() - 1) == nodes.take(nodes.len() - 1),
        add_value(nodes, value)[nodes.len() - 1].counter >= nodes.last().counter,
        forall|i: int|
            nodes.len() <= i < add_value(nodes, value).len() ==> #[trigger] add_value(
                nodes,
                value,
            )[i].counter >= 1,
    decreases value,
{
    if value > 0 {
        let chunk = chunk_of(value);
        let next = add_chunk(nodes, chunk);
        let rest = (value - chunk) as nat;
        lemma_add_chunk(nodes, chunk);
        lemma_add_value_keeps_buckets(next, rest);
        let result = add_value(nodes, value);
        assert(result == add_value(next, rest));
        assert(result.take(nodes.len() - 1) =~= nodes.take(nodes.len() - 1)) by {
            assert forall|i: int| 0 <= i < nodes.len() - 1 implies result[i] == nodes[i] by {
                assert(result.take(next.len() - 1)[i] == next.take(next.len() - 1)[i]);
                assert(next.take(nodes.len() - 1)[i] == nodes.take(nodes.len() - 1)[i]);
            }
        }
        assert forall|i: int| nodes.len() <= i < result.len() implies #[trigger] result[i].counter
            >= 1 by {
            if i < next.len() - 1 {
                assert(result.take(next.len() - 1)[i] == next.take(next.len() - 1)[i]);
                assert(next[i].counter >= 1);
            } else if i < next.len() {
                assert(next[i].counter >= 1);
            }
        }
        if next.len() > nodes.len() {
            assert(result.take(next.len() - 1)[nodes.len() - 1] == next.take(next.len() - 1)[nodes.len() - 1]);
        }
    }
}


proof fn lemma_add_value_full_last(nodes: Seq<Node>, value: nat)
    requires
        nodes.len() > 0,
        nodes.last().sum == u32::MAX,
    ensures
        add_value(nodes, value).take(nodes.len() as int) == nodes,
{
    if value > 0 {
        let chunk = chunk_of(value);
        let next = add_chunk(nodes, chunk);
        assert(chunk >= 1);
        assert(next == nodes.push(Node { counter: 1, sum: chunk }));
        lemma_add_value_keeps_buckets(next, (value - chunk) as nat);
        assert(add_value(nodes, value) == add_value(next, (value - chunk) as nat));
        assert(next.take(next.len() - 1) =~= nodes);
    } else {
        assert(add_value(nodes, value).take(nodes.len() as int) =~= nodes);
    }
}

/// Every bucket that recording a value opens holds exactly one chunk, and
/// every one of them but the last is full (`u32::MAX`).
pub proof fn lemma_add_value_new_buckets(nodes: Seq<Node>, value: nat)
    requires
        nodes.len() > 0,
    ensures
        forall|i: int|
            nodes.len() <= i < add_value(nodes, value).len() ==> #[trigger] add_value(
                nodes,
                value,
            )[i].counter == 1,
        forall|i: int|
            nodes.len() <= i < add_value(nodes, value).len() - 1 ==> #[trigger] add_value(
                nodes,
                value,
            )[i].sum == u32::MAX,
    decreases value,
{
    if value > 0 {
        let chunk = chunk_of(value);
        let next = add_chunk(nodes, chunk);
        let rest = (value - chunk) as nat;
        let result = add_value(nodes, value);
        assert(result == add_value(next, rest));
        lemma_add_chunk(nodes, chunk);
        lemma_add_value_new_buckets(next, rest);
        lemma_add_value_keeps_buckets(next, rest);
        if next.len() > nodes.len() {
            let j = next.len() - 1;
            assert(next[j] == Node { counter: 1, sum: chunk });
            if rest > 0 {
                assert(chunk == u32::MAX);
                lemma_add_value_full_last(next, rest);
                assert(result.take(next.len() as int)[j] == next[j]);
                assert(result[j] == next[j]);
            } else {
                assert(result == next);
            }
        }
        assert forall|i: int| nodes.len() <= i < result.len() implies #[trigger] result[i].counter
            == 1 by {
            if i >= next.len() {
            } else {
                assert(next.len() > nodes.len());
            }
        }
        assert forall|i: int| nodes.len() <= i < result.len() - 1 implies #[trigger] result[i].sum
            == u32::MAX by {
            if i >= next.len() {
            } else {
                assert(next.len() > nodes.len());
                if rest == 0 {
                    assert(result == next);
                }
            }
        }
    }
}


/// A value that fits in the last bucket, together with one more chunk in
/// its count, joins that bucket: the bucket's count grows by one and its sum
/// by the value, and no bucket is opened. A zero value changes nothing.
pub proof fn lemma_add_joins_last_bucket(nodes: Seq<Node>, value: nat)
    requires
        nodes.len() > 0,
        nodes.last().sum + value <= u32::MAX,
        value > 0 ==> nodes.last().counter + 1 <= u32::MAX,
    ensures
        value == 0 ==> add_value(nodes, value) == nodes,
        value > 0 ==> add_value(nodes, value) == nodes.update(
            nodes.len() - 1,
            Node {
                counter: (nodes.last().counter + 1) as u32,
                sum: (nodes.last().sum + value) as u32,
            },
        ),
{
    if value > 0 {
        let chunk = chunk_of(value);
        assert(chunk == value);
        let next = add_chunk(nodes, chunk);
        assert(add_value(nodes, value) == add_value(next, 0));
        assert(add_value(next, 0) == next);
    }
}

impl Node {
    /// A bucket holding `sum` over `counter` chunks.
    pub fn new(counter: u32, sum: u32) -> (node: Node)
        ensures
            node == (Node { counter, sum }),
    {
        Node { counter, sum }
    }

    /// Whether `value` can join this bucket.
    pub fn can_add_data(&self, value: u32) -> (b: bool)
        ensures
            b == fits_chunk(*self, value),
    {
        self.sum.checked_add(value).is_some() && self.counter.checked_add(1).is_some()
    }

    /// Adds `value` as one more chunk of this bucket.
    pub fn add_data_in_place(&mut self, value: u32)
        requires
            fits_chunk(*old(self), value),
        ensures
            *final(self) == with_chunk(*old(self), value),
    {
        self.sum = self.sum + value;
        self.counter = self.counter + 1;
    }
}

/// The buckets of a running average, oldest first; the last one takes the
/// next chunk.
pub struct LinkedList {
    nodes: Vec<Node>,
}

impl View for LinkedList {
    type V = Seq<Node>;

    closed spec fn view(&self) -> Seq<Node> {
        self.nodes@
    }
}

impl LinkedList {
    /// There is always a last bucket to add to.
    pub open spec fn wf(&self) -> bool {
        self@.len() > 0
    }

    /// A list with one empty bucket.
    pub fn new() -> (list: LinkedList)
        ensures
            list.wf(),
            list@ == seq![Node { counter: 0, sum: 0 }],
    {
        let mut nodes: Vec<Node> = Vec::new();
        nodes.push(Node::new(0, 0));
        LinkedList { nodes }
    }

    /// Records `value`, split into chunks of at most `u32::MAX`.
    pub fn add(&mut self, value: u128)
        requires
            old(self).wf(),
        ensures
            final(self).wf(),
            final(self)@ == add_value(old(self)@, value as nat),
    {
        let ghost requested: nat = value as nat;
        let mut value: u128 = value;
        while value > 0
            invariant
                self.wf(),
                add_value(self@, value as nat) == add_value(old(self)@, requested),
            decreases value,
        {
            let chunk: u32 = if value < u32::MAX as u128 {
                value as u32
            } else {
                u32::MAX
            };
            let ghost before: Seq<Node> = self@;
            let last: usize = self.nodes.len() - 1;
            let mut node: Node = self.nodes[last];
            if node.can_add_data(chunk) {
                node.add_data_in_place(chunk);
                self.nodes.set(last, node);
            } else {
                self.push(1, chunk);
            }
            assert(self@ == add_chunk(before, chunk_of(value as nat)));
            value = value - chunk as u128;
        }
    }

    /// Opens a new last bucket.
    fn push(&mut self, counter: u32, sum: u32)
        ensures
            final(self)@ == old(self)@.push(Node { counter, sum }),
    {
        self.nodes.push(Node::new(counter, sum));
    }

    /// The buckets, oldest first.
    pub fn nodes(&self) -> (nodes: &[Node])
        ensures
            nodes@ == self@,
    {
        self.nodes.as_slice()
    }
}

} // verus!
