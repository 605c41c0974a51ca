//! The buffer in which the components of one event id are collected before
//! they go to the string table.
//!
//! The buffer is a `smallvec::SmallVec`, which Verus cannot look into. What
//! this module says of it is taken on trust from that crate's source.

use smallvec::SmallVec;
use vstd::layout::size_of;
use vstd::prelude::*;
use crate::string_table::StringComponent;

verus! {

/// The number of components that a buffer holds in place, without memory from
/// the heap: one label, three arguments and their three separators.
pub const INLINE_PARTS: usize = 7;

/// A `SmallVec` of components with `INLINE_PARTS` places in the buffer
/// itself. Verus sees nothing of its fields: `parts_of` stands for what it
/// holds, `made_for` for the number of components it was made to hold.
#[verifier::external_body]
pub struct Parts {
    items: SmallVec<[StringComponent<'static>; INLINE_PARTS]>,
}

/// The components in the buffer, in the order in which they were pushed: the
/// slice that `SmallVec::as_slice` gives.
pub uninterp spec fn parts_of(buf: Parts) -> Seq<StringComponent<'static>>;

/// The number of components that the buffer was made for: what
/// `SmallVec::with_capacity` was given when it made the buffer.
pub uninterp spec fn made_for(buf: Parts) -> nat;

/// Whether a buffer for `n` components can be made: it needs no memory from
/// the heap, or the memory it needs is no more than one allocation may have.
pub open spec fn can_hold(n: nat) -> bool {
    n <= INLINE_PARTS || n * size_of::<StringComponent<'static>>() <= isize::MAX
}

/// `SmallVec::with_capacity`. The new buffer is empty and is made for `n`
/// components. For `n` up to `INLINE_PARTS` the call allocates nothing; above
/// that it asks the allocator for `n` components at once and panics where
/// their size in bytes is more than `isize::MAX`, which `requires` leaves out.
#[verifier::external_body]
pub(crate) fn with_capacity(n: usize) -> (buf: Parts)
    requires
        can_hold(n as nat),
    ensures
        parts_of(buf) == Seq::<StringComponent<'static>>::empty(),
        made_for(buf) == n,
{
    Parts { items: SmallVec::with_capacity(n) }
}

/// `SmallVec::push`, on a buffer that holds fewer components than it was
/// made for. The component goes behind those that the buffer holds. The
/// buffer has room for as many components as it was made for, so this push
/// does not make it grow and nothing can fail; a full buffer would have to
/// grow, which can panic, and `requires` leaves that out.
#[verifier::external_body]
pub(crate) fn push(buf: &mut Parts, part: StringComponent<'static>)
    requires
        parts_of(*old(buf)).len() < made_for(*old(buf)),
    ensures
        parts_of(*final(buf)) == parts_of(*old(buf)).push(part),
        made_for(*final(buf)) == made_for(*old(buf)),
{
    buf.items.push(part)
}

/// `SmallVec::as_slice`: the components that the buffer holds, as a slice.
#[verifier::external_body]
pub(crate) fn as_slice(buf: &Parts) -> (parts: &[StringComponent<'static>])
    ensures
        parts@ == parts_of(*buf),
{
    buf.items.as_slice()
}

} // verus!
