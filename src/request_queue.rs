//! The client's outbound and inbound queues: first in, first out, over the
//! `queue` crate's `Queue`.
use vstd::prelude::*;
use crate::text::string_views;

verus! {

#[verifier::external_type_specification]
#[verifier::external_body]
#[verifier::reject_recursive_types(T)]
pub struct ExQueue<T>(queue::Queue<T>);

/// The items of a queue, front first.
pub uninterp spec fn queue_items(q: queue::Queue<String>) -> Seq<Seq<char>>;

/// Whether a queue was made with a capacity bound.
pub uninterp spec fn queue_is_bounded(q: queue::Queue<String>) -> bool;

/// Relies on `queue::Queue::new`: an empty queue with no capacity bound.
#[verifier::external_body]
fn queue_new() -> (q: queue::Queue<String>)
    ensures
        queue_items(q) == Seq::<Seq<char>>::empty(),
        !queue_is_bounded(q),
{
    queue::Queue::new()
}

/// Relies on `queue::Queue::queue`: without a bound the item goes to the
/// back and the new length is returned; with one, an `Err` leaves the queue
/// as it was.
#[verifier::external_body]
fn queue_push(q: &mut queue::Queue<String>, item: String) -> (r: Result<usize, ()>)
    ensures
        queue_is_bounded(*final(q)) == queue_is_bounded(*old(q)),
        !queue_is_bounded(*old(q)) ==> r is Ok,
        r matches Ok(n) ==> queue_items(*final(q)) == queue_items(*old(q)).push(item@) && n
            == queue_items(*final(q)).len(),
        r is Err ==> queue_items(*final(q)) == queue_items(*old(q)),
{
    q.queue(item)
}

/// Relies on `queue::Queue::dequeue`: removes and returns the front item,
/// or `None` on an empty queue.
#[verifier::external_body]
fn queue_pop(q: &mut queue::Queue<String>) -> (r: Option<String>)
    ensures
        queue_is_bounded(*final(q)) == queue_is_bounded(*old(q)),
        queue_items(*old(q)).len() == 0 ==> r is None && queue_items(*final(q)) == queue_items(
            *old(q),
        ),
        queue_items(*old(q)).len() > 0 ==> (r matches Some(s) && s@ == queue_items(*old(q))[0]
            && queue_items(*final(q)) == queue_items(*old(q)).drop_first()),
{
    q.dequeue()
}

/// Relies on `queue::Queue::len`: the number of items.
#[verifier::external_body]
fn queue_len(q: &queue::Queue<String>) -> (r: usize)
    ensures
        r == queue_items(*q).len(),
{
    q.len()
}

/// Pending wire requests or responses, oldest first.
pub struct RequestQueue {
    inner: queue::Queue<String>,
}

impl View for RequestQueue {
    type V = Seq<Seq<char>>;

    closed spec fn view(&self) -> Seq<Seq<char>> {
        queue_items(self.inner)
    }
}

impl RequestQueue {
    /// The queue has no capacity bound, so enqueuing always succeeds.
    pub closed spec fn wf(&self) -> bool {
        !queue_is_bounded(self.inner)
    }

    /// An empty queue.
    pub fn new() -> (r: RequestQueue)
        ensures
            r.wf(),
            r@ == Seq::<Seq<char>>::empty(),
    {
        RequestQueue { inner: queue_new() }
    }

    /// Adds `item` at the back.
    pub fn enqueue(&mut self, item: String)
        requires
            old(self).wf(),
        ensures
            final(self).wf(),
            final(self)@ == old(self)@.push(item@),
    {
        let _ = queue_push(&mut self.inner, item);
    }

    /// Removes and returns the front item, if any.
    pub fn dequeue(&mut self) -> (r: Option<String>)
        requires
            old(self).wf(),
        ensures
            final(self).wf(),
            old(self)@.len() == 0 ==> r is None && final(self)@ == old(self)@,
            old(self)@.len() > 0 ==> (r matches Some(s) && s@ == old(self)@[0] && final(self)@
                == old(self)@.drop_first()),
    {
        queue_pop(&mut self.inner)
    }

    /// The number of pending items.
    pub fn len(&self) -> (r: usize)
        ensures
            r == self@.len(),
    {
        queue_len(&self.inner)
    }

    /// Whether nothing is pending.
    pub fn is_empty(&self) -> (r: bool)
        ensures
            r == (self@.len() == 0),
    {
        queue_len(&self.inner) == 0
    }

    /// Removes every pending item and returns them, oldest first.
    pub fn drain(&mut self) -> (r: Vec<String>)
        requires
            old(self).wf(),
        ensures
            final(self).wf(),
            final(self)@ == Seq::<Seq<char>>::empty(),
            string_views(r@) == old(self)@,
    {
        let mut r: Vec<String> = Vec::new();
        loop
            invariant
                self.wf(),
                string_views(r@) + self@ == old(self)@,
            decreases self@.len(),
        {
            let ghost before = self@;
            match self.dequeue() {
                Some(s) => {
                    r.push(s);
                    assert(string_views(r@) + self@ =~= old(self)@) by {
                        assert(before =~= seq![before[0]] + before.drop_first());
                        assert(string_views(r@) =~= string_views(r@).drop_last().push(before[0]));
                    }
                },
                None => {
                    assert(string_views(r@) =~= old(self)@);
                    assert(self@ =~= Seq::<Seq<char>>::empty());
                    return r;
                },
            }
        }
    }
}

/// The queue after each of `items` is enqueued, in order.
pub open spec fn after_enqueues(q: Seq<Seq<char>>, items: Seq<Seq<char>>) -> Seq<Seq<char>>
    decreases items.len(),
{
    if items.len() == 0 {
        q
    } else {
        after_enqueues(q, items.drop_last()).push(items.last())
    }
}

/// Requests leave in the order they were enqueued: after enqueuing `items`
/// one by one, draining hands out what was pending first, then `items` in
/// their order.
pub proof fn lemma_fifo(q: Seq<Seq<char>>, items: Seq<Seq<char>>)
    ensures
        after_enqueues(q, items) == q + items,
    decreases items.len(),
{
    if items.len() == 0 {
        assert(q + items =~= q);
    } else {
        lemma_fifo(q, items.drop_last());
        assert(q + items.drop_last() + seq![items.last()] =~= q + items);
    }
}

} // verus!
