//! An ordered sequence bound to the path of the file that persists it.
//!
//! The store holds the path and the elements. It never touches the file: the
//! caller reads the file's bytes and writes them back, and the store says
//! which elements those bytes stand for.

use vstd::prelude::*;
use vstd::std_specs::convert::FromSpecImpl;

verus! {

/// The file that a store is bound to when no path is given.
pub const DEFAULT_PATH: &'static str = "memos.json";

/// A sequence of `T` together with the path of the file it is persisted in.
///
/// The elements are those of the last load plus every change made in memory
/// since. Nothing is validated here: any sequence is a valid store.
#[derive(Debug)]
pub struct DiskVec<T> {
    pub path: String,
    pub inner: Vec<T>,
}

/// What can be listed: a value with a one-line textual form.
pub trait Render {
    /// The characters of the value's listed form.
    spec fn rendering(&self) -> Seq<char>;

    /// The value's listed form.
    fn render(&self) -> (out: String)
        ensures
            out@ == self.rendering(),
    ;
}

/// The listing of `items`: each item's form followed by a line feed, in order.
pub open spec fn listing<T: Render>(items: Seq<T>) -> Seq<char>
    decreases items.len(),
{
    if items.len() == 0 {
        Seq::empty()
    } else {
        listing(items.drop_last()) + items.last().rendering() + seq!['\n']
    }
}

impl<T: View> View for DiskVec<T> {
    type V = Seq<T::V>;

    /// The elements, each by its own view, in order.
    open spec fn view(&self) -> Seq<T::V> {
        self.inner@.map_values(|item: T| item@)
    }
}

impl<T> DiskVec<T> {
    /// An empty store bound to `path`.
    pub fn new(path: &str) -> (store: DiskVec<T>)
        ensures
            store.path@ == path@,
            store.inner@ == Seq::<T>::empty(),
    {
        DiskVec { path: path.to_owned(), inner: Vec::new() }
    }
}

impl<T> Default for DiskVec<T> {
    /// An empty store bound to [`DEFAULT_PATH`].
    fn default() -> (store: DiskVec<T>)
        ensures
            store.path@ == DEFAULT_PATH@,
            store.inner@ == Seq::<T>::empty(),
    {
        DiskVec::new(DEFAULT_PATH)
    }
}

impl<T> From<Vec<T>> for DiskVec<T> {
    /// A store of the given elements bound to [`DEFAULT_PATH`].
    fn from(value: Vec<T>) -> (store: DiskVec<T>)
        ensures
            store.path@ == DEFAULT_PATH@,
            store.inner == value,
    {
        DiskVec { path: DEFAULT_PATH.to_owned(), inner: value }
    }
}

impl<T> FromSpecImpl<Vec<T>> for DiskVec<T> {
    /// The path of the result is a fresh string that no spec function can
    /// name, so `from` carries its contract itself.
    open spec fn obeys_from_spec() -> bool {
        false
    }

    open spec fn from_spec(value: Vec<T>) -> DiskVec<T> {
        DiskVec { path: arbitrary(), inner: value }
    }
}

impl<T> core::ops::Deref for DiskVec<T> {
    type Target = Vec<T>;

    /// The elements, to read.
    fn deref(&self) -> (elements: &Vec<T>)
        ensures
            *elements == self.inner,
    {
        &self.inner
    }
}

impl<T> core::ops::DerefMut for DiskVec<T> {
    /// The elements, to change in place. The path stays as it is.
    fn deref_mut(&mut self) -> (elements: &mut Vec<T>)
        ensures
            *elements == old(self).inner,
            final(self).inner == *final(elements),
            final(self).path == old(self).path,
    {
        &mut self.inner
    }
}

impl<T: Render> Render for DiskVec<T> {
    open spec fn rendering(&self) -> Seq<char> {
        listing(self.inner@)
    }

    /// One line per element, in order, each closed by a line feed.
    fn render(&self) -> (out: String) {
        let mut out = String::new();
        let n = self.inner.len();
        let mut i: usize = 0;
        while i < n
            invariant
                n == self.inner@.len(),
                i <= n,
                out@ == listing(self.inner@.take(i as int)),
            decreases n - i,
        {
            let line = self.inner[i].render();
            out.append(line.as_str());
            out.append("\n");
            proof {
                reveal_strlit("\n");
                assert(self.inner@.take(i + 1).drop_last() =~= self.inner@.take(i as int));
            }
            i += 1;
        }
        proof {
            assert(self.inner@.take(n as int) =~= self.inner@);
        }
        out
    }
}

} // verus!
