//! The fixed-capacity vectors of `heapless` that hold the checkpoints of a
//! segment and the segments of a snake. Verus does not look inside them: what
//! they hold has a name here, and each call the library makes has a contract
//! that is taken on trust from the source of `heapless`.
use vstd::prelude::*;
use crate::segment::Checkpoint;
use crate::segment::Segment;

verus! {

/// `heapless::Vec`, made known so that it can stand in fields and signatures.
#[verifier::external_type_specification]
#[verifier::external_body]
#[verifier::reject_recursive_types(T)]
pub struct ExBoundedVec<T, const N: usize>(heapless::Vec<T, N>);

/// The checkpoints in a queue, oldest first.
pub uninterp spec fn queue_contents(queue: heapless::Vec<Checkpoint, 10>) -> Seq<Checkpoint>;

/// The segments in a body, head first.
pub uninterp spec fn body_contents(body: heapless::Vec<Segment, 25>) -> Seq<Segment>;

/// `heapless::Vec::new`: the new vector holds nothing.
#[verifier::external_body]
pub(crate) fn queue_new() -> (queue: heapless::Vec<Checkpoint, 10>)
    ensures
        queue_contents(queue) == Seq::<Checkpoint>::empty(),
{
    heapless::Vec::new()
}

/// The length of the slice that a `heapless::Vec` derefs to: the number of items
/// it holds, which never exceeds its capacity.
#[verifier::external_body]
pub(crate) fn queue_len(queue: &heapless::Vec<Checkpoint, 10>) -> (n: usize)
    ensures
        n == queue_contents(*queue).len(),
        n <= 10,
{
    queue.len()
}

/// `heapless::Vec::push`: below capacity the item goes to the back and nothing
/// comes back; at capacity the vector is left alone and the item comes back.
#[verifier::external_body]
pub(crate) fn queue_push(queue: &mut heapless::Vec<Checkpoint, 10>, item: Checkpoint) -> (rejected:
    Option<Checkpoint>)
    ensures
        rejected is None <==> queue_contents(*old(queue)).len() < 10,
        rejected is None ==> queue_contents(*final(queue)) == queue_contents(*old(queue)).push(
            item,
        ),
        rejected is Some ==> rejected == Some(item) && queue_contents(*final(queue))
            == queue_contents(*old(queue)),
{
    queue.push(item).err()
}

/// `get` on the slice that a `heapless::Vec` derefs to: a reference to the item
/// at `index`, or nothing where `index` is out of bounds.
#[verifier::external_body]
pub(crate) fn queue_get(queue: &heapless::Vec<Checkpoint, 10>, index: usize) -> (item: Option<
    &Checkpoint,
>)
    ensures
        item == if index < queue_contents(*queue).len() {
            Some(&queue_contents(*queue)[index as int])
        } else {
            None
        },
{
    queue.get(index)
}

/// `heapless::Vec::remove`: takes out and returns the item at `index`, and the
/// items behind it move up by one place. It panics on an index out of bounds,
/// which `requires` leaves out.
#[verifier::external_body]
pub(crate) fn queue_remove(queue: &mut heapless::Vec<Checkpoint, 10>, index: usize) -> (removed:
    Checkpoint)
    requires
        index < queue_contents(*old(queue)).len(),
    ensures
        removed == queue_contents(*old(queue))[index as int],
        queue_contents(*final(queue)) == queue_contents(*old(queue)).remove(index as int),
{
    queue.remove(index)
}

/// `Clone::clone` of a `heapless::Vec`: a new vector with a clone of each item,
/// in the same order. A checkpoint is `Copy`, so its clone is the checkpoint.
#[verifier::external_body]
pub(crate) fn queue_clone(queue: &heapless::Vec<Checkpoint, 10>) -> (copy: heapless::Vec<
    Checkpoint,
    10,
>)
    ensures
        queue_contents(copy) == queue_contents(*queue),
{
    queue.clone()
}

/// `heapless::Vec::new`: the new vector holds nothing.
#[verifier::external_body]
pub(crate) fn body_new() -> (body: heapless::Vec<Segment, 25>)
    ensures
        body_contents(body) == Seq::<Segment>::empty(),
{
    heapless::Vec::new()
}

/// The length of the slice that a `heapless::Vec` derefs to: the number of items
/// it holds, which never exceeds its capacity.
#[verifier::external_body]
pub(crate) fn body_len(body: &heapless::Vec<Segment, 25>) -> (n: usize)
    ensures
        n == body_contents(*body).len(),
        n <= 25,
{
    body.len()
}

/// `heapless::Vec::push`: below capacity the item goes to the back and nothing
/// comes back; at capacity the vector is left alone and the item comes back.
#[verifier::external_body]
pub(crate) fn body_push(body: &mut heapless::Vec<Segment, 25>, item: Segment) -> (rejected: Option<
    Segment,
>)
    ensures
        rejected is None <==> body_contents(*old(body)).len() < 25,
        rejected is None ==> body_contents(*final(body)) == body_contents(*old(body)).push(item),
        rejected is Some ==> rejected == Some(item) && body_contents(*final(body))
            == body_contents(*old(body)),
{
    body.push(item).err()
}

/// Indexing the slice that a `heapless::Vec` derefs to: a reference to the item
/// at `index`. It panics on an index out of bounds, which `requires` leaves out.
#[verifier::external_body]
pub(crate) fn body_at(body: &heapless::Vec<Segment, 25>, index: usize) -> (item: &Segment)
    requires
        index < body_contents(*body).len(),
    ensures
        *item == body_contents(*body)[index as int],
{
    &body[index]
}

/// Indexing the mutable slice that a `heapless::Vec` derefs to: a mutable
/// reference to the item at `index`; what is written through it is what the
/// vector holds there afterwards, and the other items stay. It panics on an
/// index out of bounds, which `requires` leaves out.
#[verifier::external_body]
pub(crate) fn body_at_mut(body: &mut heapless::Vec<Segment, 25>, index: usize) -> (item:
    &mut Segment)
    requires
        index < body_contents(*old(body)).len(),
    ensures
        *item == body_contents(*old(body))[index as int],
        body_contents(*final(body)) == body_contents(*old(body)).update(
            index as int,
            *final(item),
        ),
{
    &mut body[index]
}

} // verus!
