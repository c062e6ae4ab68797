//! The accumulators that record a sequence: append-only buffers, one kind per tier, that
//! keep short sequences out of the heap.

use vstd::prelude::*;
use smallvec::SmallVec;
use crate::arbitrary::BigNat;
use crate::wide::Wide;

verus! {

/// The most values that one accumulator takes, and so the most that one sequence can have.
///
/// Below this length, doubling the storage of the largest element kind (32 bytes) stays
/// within what one allocation may ask for, so that appending cannot fail on a size
/// computation.
pub const MAX_SEQUENCE_LEN: usize = usize::MAX / 128;

/// An ordered, append-only buffer of the values of one tier.
pub trait Sequence<T> {
    /// The values appended so far, oldest first.
    spec fn items(&self) -> Seq<T>;

    /// Appends `number` behind everything appended before.
    fn push(&mut self, number: T)
        requires
            old(self).items().len() < MAX_SEQUENCE_LEN,
        ensures
            final(self).items() == old(self).items().push(number),
    ;

    /// Lends out the values appended so far, oldest first.
    fn as_slice(&self) -> (s: &[T])
        ensures
            s@ == self.items(),
    ;
}

/// The accumulator of the narrow tier: a `SmallVec` of smallvec that takes up to 1024 values
/// without a heap allocation. The verifier does not look inside; `narrow_contents` names
/// what it holds.
#[verifier::external_body]
pub struct NarrowBuffer {
    inner: SmallVec<[u64; 1024]>,
}

/// The accumulator of the wide tier: a `SmallVec` of smallvec that takes up to 512 values
/// without a heap allocation. The verifier does not look inside; `wide_contents` names what
/// it holds.
#[verifier::external_body]
pub struct WideBuffer {
    inner: SmallVec<[Wide; 512]>,
}

/// The accumulator of the unbounded tier: a `SmallVec` of smallvec that takes up to 256
/// values without a heap allocation of its own. The verifier does not look inside;
/// `arbitrary_contents` names what it holds.
#[verifier::external_body]
pub struct ArbitraryBuffer {
    inner: SmallVec<[BigNat; 256]>,
}

/// The values that a narrow accumulator holds, oldest first.
pub uninterp spec fn narrow_contents(buffer: NarrowBuffer) -> Seq<u64>;

/// The values that a wide accumulator holds, oldest first.
pub uninterp spec fn wide_contents(buffer: WideBuffer) -> Seq<Wide>;

/// The values that an unbounded accumulator holds, oldest first.
pub uninterp spec fn arbitrary_contents(buffer: ArbitraryBuffer) -> Seq<BigNat>;

/// `SmallVec::new` of smallvec: a vector that holds nothing.
#[verifier::external_body]
fn narrow_new() -> (buffer: NarrowBuffer)
    ensures
        narrow_contents(buffer) == Seq::<u64>::empty(),
{
    NarrowBuffer { inner: SmallVec::new() }
}

/// `SmallVec::push` of smallvec: the item goes behind the others, which stay as they are.
/// Its growth panics where the doubled capacity overflows a size; the bound on the length
/// leaves that out.
#[verifier::external_body]
fn narrow_push(buffer: &mut NarrowBuffer, number: u64)
    requires
        narrow_contents(*old(buffer)).len() < MAX_SEQUENCE_LEN,
    ensures
        narrow_contents(*final(buffer)) == narrow_contents(*old(buffer)).push(number),
{
    buffer.inner.push(number)
}

/// `SmallVec::as_slice` of smallvec: all items, in the order in which they were pushed.
#[verifier::external_body]
fn narrow_as_slice(buffer: &NarrowBuffer) -> (s: &[u64])
    ensures
        s@ == narrow_contents(*buffer),
{
    buffer.inner.as_slice()
}

/// `SmallVec::new` of smallvec: a vector that holds nothing.
#[verifier::external_body]
fn wide_new() -> (buffer: WideBuffer)
    ensures
        wide_contents(buffer) == Seq::<Wide>::empty(),
{
    WideBuffer { inner: SmallVec::new() }
}

/// `SmallVec::push` of smallvec: the item goes behind the others, which stay as they are.
/// Its growth panics where the doubled capacity overflows a size; the bound on the length
/// leaves that out.
#[verifier::external_body]
fn wide_push(buffer: &mut WideBuffer, number: Wide)
    requires
        wide_contents(*old(buffer)).len() < MAX_SEQUENCE_LEN,
    ensures
        wide_contents(*final(buffer)) == wide_contents(*old(buffer)).push(number),
{
    buffer.inner.push(number)
}

/// `SmallVec::as_slice` of smallvec: all items, in the order in which they were pushed.
#[verifier::external_body]
fn wide_as_slice(buffer: &WideBuffer) -> (s: &[Wide])
    ensures
        s@ == wide_contents(*buffer),
{
    buffer.inner.as_slice()
}

/// `SmallVec::new` of smallvec: a vector that holds nothing.
#[verifier::external_body]
fn arbitrary_new() -> (buffer: ArbitraryBuffer)
    ensures
        arbitrary_contents(buffer) == Seq::<BigNat>::empty(),
{
    ArbitraryBuffer { inner: SmallVec::new() }
}

/// `SmallVec::push` of smallvec: the item goes behind the others, which stay as they are.
/// Its growth panics where the doubled capacity overflows a size; the bound on the length
/// leaves that out.
#[verifier::external_body]
fn arbitrary_push(buffer: &mut ArbitraryBuffer, number: BigNat)
    requires
        arbitrary_contents(*old(buffer)).len() < MAX_SEQUENCE_LEN,
    ensures
        arbitrary_contents(*final(buffer)) == arbitrary_contents(*old(buffer)).push(number),
{
    buffer.inner.push(number)
}

/// `SmallVec::as_slice` of smallvec: all items, in the order in which they were pushed.
#[verifier::external_body]
fn arbitrary_as_slice(buffer: &ArbitraryBuffer) -> (s: &[BigNat])
    ensures
        s@ == arbitrary_contents(*buffer),
{
    buffer.inner.as_slice()
}

impl NarrowBuffer {
    /// An accumulator that holds nothing yet.
    pub fn new() -> (buffer: Self)
        ensures
            buffer.items() == Seq::<u64>::empty(),
    {
        narrow_new()
    }
}

impl Sequence<u64> for NarrowBuffer {
    open spec fn items(&self) -> Seq<u64> {
        narrow_contents(*self)
    }

    fn push(&mut self, number: u64) {
        narrow_push(self, number)
    }

    fn as_slice(&self) -> (s: &[u64]) {
        narrow_as_slice(self)
    }
}

impl WideBuffer {
    /// An accumulator that holds nothing yet.
    pub fn new() -> (buffer: Self)
        ensures
            buffer.items() == Seq::<Wide>::empty(),
    {
        wide_new()
    }
}

impl Sequence<Wide> for WideBuffer {
    open spec fn items(&self) -> Seq<Wide> {
        wide_contents(*self)
    }

    fn push(&mut self, number: Wide) {
        wide_push(self, number)
    }

    fn as_slice(&self) -> (s: &[Wide]) {
        wide_as_slice(self)
    }
}

impl ArbitraryBuffer {
    /// An accumulator that holds nothing yet.
    pub fn new() -> (buffer: Self)
        ensures
            buffer.items() == Seq::<BigNat>::empty(),
    {
        arbitrary_new()
    }
}

impl Sequence<BigNat> for ArbitraryBuffer {
    open spec fn items(&self) -> Seq<BigNat> {
        arbitrary_contents(*self)
    }

    fn push(&mut self, number: BigNat) {
        arbitrary_push(self, number)
    }

    fn as_slice(&self) -> (s: &[BigNat]) {
        arbitrary_as_slice(self)
    }
}

/// A plain growable array serves as an accumulator too.
impl<T> Sequence<T> for Vec<T> {
    open spec fn items(&self) -> Seq<T> {
        self@
    }

    fn push(&mut self, number: T) {
        Vec::push(self, number)
    }

    fn as_slice(&self) -> (s: &[T]) {
        Vec::as_slice(self)
    }
}

} // verus!
