//! The server-streaming return marker `Stream<T>`.
//!
//! A plugin interface declares a server-streaming method by returning
//! `Stream<T>`. The marker form carries no items (it only declares the
//! method); the iterator-backed form is how a guest produces real items, one
//! per `next_item` call, `None` meaning a clean end.
use vstd::prelude::*;
use vstd::std_specs::iter::IteratorSpec;

verus! {

/// Anything that hands out items one at a time and may cross threads.
trait ItemSource<T>: Send {
    fn pull(&mut self) -> Option<T>;
}

impl<T, I: Iterator<Item = T> + Send> ItemSource<T> for I {
    /// The iterator's next item: for an iterator that keeps to its item
    /// sequence, the head of what remains (which it then drops), or `None`
    /// once nothing remains.
    fn pull(&mut self) -> (r: Option<T>)
        ensures
            IteratorSpec::obeys_prophetic_iter_laws(old(self)) ==> if IteratorSpec::remaining(
                old(self),
            ).len() > 0 {
                &&& r == Some(IteratorSpec::remaining(old(self))[0])
                &&& IteratorSpec::remaining(final(self)) == IteratorSpec::remaining(
                    old(self),
                ).drop_first()
            } else {
                &&& r is None
                &&& IteratorSpec::remaining(final(self)) == IteratorSpec::remaining(old(self))
            },
    {
        self.next()
    }
}

/// A server-streaming result: either the bare marker, or a producer backed by
/// an iterator.
#[verifier::reject_recursive_types(T)]
pub struct Stream<T> {
    iter: Option<Box<dyn ItemSource<T>>>,
    yielded: Ghost<Seq<T>>,
}

impl<T> Stream<T> {
    /// Whether this is the marker form, which never yields an item.
    pub closed spec fn is_marker(self) -> bool {
        self.iter is None
    }

    /// The items this stream has handed out so far, in order.
    pub closed spec fn yielded(self) -> Seq<T> {
        self.yielded@
    }

    /// The marker form: declares a streaming method without producing items.
    pub fn new() -> (s: Self)
        ensures
            s.is_marker(),
            s.yielded() == Seq::<T>::empty(),
    {
        Stream { iter: None, yielded: Ghost(Seq::empty()) }
    }

    /// A stream that yields the items of `items`, in order.
    pub fn from_iter<I>(items: I) -> (s: Self)
        where
            I: Iterator<Item = T> + Send + 'static,
        ensures
            !s.is_marker(),
            s.yielded() == Seq::<T>::empty(),
    {
        Stream { iter: Some(Box::new(items)), yielded: Ghost(Seq::empty()) }
    }

    /// Advances the stream by one item: `None` for the marker form and at the
    /// end of the iterator. What an iterator-backed stream yields is whatever
    /// its iterator yields; the form itself never changes.
    pub fn next_item(&mut self) -> (r: Option<T>)
        ensures
            final(self).is_marker() == old(self).is_marker(),
            old(self).is_marker() ==> r is None,
            final(self).yielded() == match r {
                Some(x) => old(self).yielded().push(x),
                None => old(self).yielded(),
            },
    {
        let r = match &mut self.iter {
            Some(it) => it.pull(),
            None => None,
        };
        proof {
            if let Some(x) = &r {
                self.yielded = Ghost(self.yielded@.push(*x));
            }
        }
        r
    }
}

impl<T> Default for Stream<T> {
    /// The marker form.
    fn default() -> (s: Self)
        ensures
            s.is_marker(),
            s.yielded() == Seq::<T>::empty(),
    {
        Stream::new()
    }
}

} // verus!
