//! What waits to be handed out: a stack kept in a `smallvec::SmallVec` with room for one item
//! inline.

use smallvec::SmallVec;

use vstd::prelude::*;

verus! {

/// The `SmallVec` itself, which nothing but the functions of [`Pending`] touches.
#[verifier::external_body]
#[verifier::reject_recursive_types(T)]
struct Items<T>(SmallVec<[T; 1]>);

/// A stack of items.
///
/// `held` is what `items` holds, from the item that came first to the one that came last.
/// Both fields are private to this file, and every function that changes `items` says
/// in its contract what becomes of `held`.
#[verifier::reject_recursive_types(T)]
pub(crate) struct Pending<T> {
    items: Items<T>,
    held: Ghost<Seq<T>>,
}

/// Whether a stack of `len` items of type `T` can take one more: were its storage to double, it
/// would stay below the size that an allocation may have.
pub open spec fn can_grow<T>(len: nat) -> bool {
    len == 0 || (len < usize::MAX && 2 * len * vstd::layout::size_of::<T>()
        + vstd::layout::align_of::<T>() <= isize::MAX)
}

impl<T> View for Pending<T> {
    type V = Seq<T>;

    closed spec fn view(&self) -> Seq<T> {
        self.held@
    }
}

impl<T> Pending<T> {
    /// `SmallVec::new`: an empty vector.
    #[verifier::external_body]
    pub(crate) fn new() -> (pending: Self)
        ensures
            pending@ == Seq::<T>::empty(),
    {
        Pending { items: Items(SmallVec::new()), held: Ghost(Seq::empty()) }
    }

    /// `SmallVec::len`: how many items there are.
    #[verifier::external_body]
    pub(crate) fn len(&self) -> (len: usize)
        ensures
            len == self@.len(),
    {
        self.items.0.len()
    }

    /// `SmallVec::is_empty`: whether there are no items.
    #[verifier::external_body]
    pub(crate) fn is_empty(&self) -> (empty: bool)
        ensures
            empty == (self@.len() == 0),
    {
        self.items.0.is_empty()
    }

    /// `SmallVec::push`: appends an item. It panics where the storage would outgrow what can be
    /// allocated; [`can_grow`] leaves that out.
    #[verifier::external_body]
    pub(crate) fn push(&mut self, item: T)
        requires
            can_grow::<T>(old(self)@.len()),
        ensures
            final(self)@ == old(self)@.push(item),
    {
        self.items.0.push(item)
    }

    /// `SmallVec::pop`: removes the last item and returns it, or returns `None` if there is none.
    #[verifier::external_body]
    pub(crate) fn pop(&mut self) -> (item: Option<T>)
        ensures
            old(self)@.len() == 0 ==> item is None && final(self)@ == old(self)@,
            old(self)@.len() > 0 ==> item == Some(old(self)@.last()) && final(self)@
                == old(self)@.drop_last(),
    {
        self.items.0.pop()
    }

    /// `SmallVec::index`: the item at `place`. It panics where there is no such place.
    #[verifier::external_body]
    pub(crate) fn get(&self, place: usize) -> (item: &T)
        requires
            place < self@.len(),
        ensures
            *item == self@[place as int],
    {
        &self.items.0[place]
    }

    /// `SmallVec::index_mut`, through which the item at `place` is replaced. It panics where there
    /// is no such place.
    #[verifier::external_body]
    pub(crate) fn replace(&mut self, place: usize, item: T)
        requires
            place < old(self)@.len(),
        ensures
            final(self)@ == old(self)@.update(place as int, item),
    {
        self.items.0[place] = item
    }

    /// `SmallVec::drain` over the full range: removes all items and returns them in their order.
    #[verifier::external_body]
    pub(crate) fn drain(&mut self) -> (items: Vec<T>)
        ensures
            items@ == old(self)@,
            final(self)@ == Seq::<T>::empty(),
    {
        self.items.0.drain(..).collect()
    }

    /// Whether one more item can be pushed.
    pub(crate) fn has_room(&self) -> (room: bool)
        ensures
            room == can_grow::<T>(self@.len()),
    {
        let len = self.len();
        if len == 0 {
            return true;
        }
        if len == usize::MAX {
            return false;
        }
        let limit: usize = isize::MAX as usize;
        let size: usize = core::mem::size_of::<T>();
        let align: usize = core::mem::align_of::<T>();
        if size == 0 {
            return align <= limit;
        }
        match 2usize.checked_mul(len) {
            None => {
                proof {
                    assert(2 * len * size >= 2 * len) by (nonlinear_arith)
                        requires
                            size >= 1,
                    ;
                }
                false
            },
            Some(double) => match double.checked_mul(size) {
                None => false,
                Some(bytes) => match bytes.checked_add(align) {
                    None => false,
                    Some(total) => total <= limit,
                },
            },
        }
    }
}

} // verus!
