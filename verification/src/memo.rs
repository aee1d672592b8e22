//! Memos and the operations of a memo collection.

use crate::diskvec::{DiskVec, Render};
use crate::text::{chars_of, occurs, occurs_in};
use vstd::prelude::*;
use vstd::std_specs::cmp::PartialEqSpecImpl;

verus! {

/// Where a memo stands: still to do, or done.
#[derive(Clone, Copy, Debug, PartialEq, Eq, Structural)]
pub enum Status {
    Pending,
    Done,
}

/// A reminder: its text and where it stands. Memos have no identity beyond
/// their content; two with the same text and status are equal.
#[derive(Debug)]
pub struct Memo {
    pub text: String,
    pub status: Status,
}

/// What a memo says: the characters of its text, and its status.
pub struct MemoView {
    pub text: Seq<char>,
    pub status: Status,
}

/// The memos of one file, in the order in which they were added.
pub type Memos = DiskVec<Memo>;

impl Status {
    /// The character that stands for the status in a listing.
    pub open spec fn symbol(self) -> char {
        match self {
            Status::Pending => '-',
            Status::Done => 'x',
        }
    }
}

impl Render for Status {
    open spec fn rendering(&self) -> Seq<char> {
        seq![self.symbol()]
    }

    /// `-` while pending, `x` once done.
    fn render(&self) -> (out: String) {
        let out = match self {
            Status::Pending => "-",
            Status::Done => "x",
        };
        proof {
            reveal_strlit("-");
            reveal_strlit("x");
        }
        out.to_owned()
    }
}

impl View for Memo {
    type V = MemoView;

    open spec fn view(&self) -> MemoView {
        MemoView { text: self.text@, status: self.status }
    }
}

impl Clone for Memo {
    /// A memo with the same text and status.
    fn clone(&self) -> (copy: Memo)
        ensures
            copy@ == self@,
    {
        Memo { text: self.text.clone(), status: self.status }
    }
}

impl PartialEq for Memo {
    /// Memos are equal when text and status both are.
    fn eq(&self, other: &Memo) -> (equal: bool) {
        self.text == other.text && self.status == other.status
    }
}

impl Eq for Memo {

}

impl PartialEqSpecImpl for Memo {
    open spec fn obeys_eq_spec() -> bool {
        true
    }

    open spec fn eq_spec(&self, other: &Memo) -> bool {
        self.text@ == other.text@ && self.status == other.status
    }
}

impl Render for Memo {
    open spec fn rendering(&self) -> Seq<char> {
        seq![self.status.symbol(), ' '] + self.text@
    }

    /// The status character, a space, and the text.
    fn render(&self) -> (out: String) {
        let mut out = self.status.render();
        out.append(" ");
        out.append(self.text.as_str());
        proof {
            reveal_strlit(" ");
        }
        out
    }
}

/// The memo that `add` makes of `text`.
pub open spec fn pending(text: Seq<char>) -> MemoView {
    MemoView { text, status: Status::Pending }
}

/// The views of the given memos, in order.
pub open spec fn views(memos: Seq<Memo>) -> Seq<MemoView> {
    memos.map_values(|memo: Memo| memo@)
}

/// The positions, in rising order, of the memos whose text holds `needle`.
pub open spec fn positions(memos: Seq<MemoView>, needle: Seq<char>) -> Seq<int>
    decreases memos.len(),
{
    if memos.len() == 0 {
        Seq::empty()
    } else if occurs_in(needle, memos.last().text) {
        positions(memos.drop_last(), needle).push(memos.len() - 1)
    } else {
        positions(memos.drop_last(), needle)
    }
}

/// The memos that are not done, in their order.
pub open spec fn without_done(memos: Seq<MemoView>) -> Seq<MemoView> {
    memos.filter(|memo: MemoView| memo.status != Status::Done)
}

/// `positions` lists exactly the memos whose text holds the needle, each
/// once, from the first to the last.
pub proof fn lemma_positions(memos: Seq<MemoView>, needle: Seq<char>)
    ensures
        positions(memos, needle).len() <= memos.len(),
        forall|k: int|
            0 <= k < positions(memos, needle).len() ==> {
                let at = #[trigger] positions(memos, needle)[k];
                0 <= at < memos.len() && occurs_in(needle, memos[at].text)
            },
        forall|j: int, k: int|
            0 <= j < k < positions(memos, needle).len() ==> positions(memos, needle)[j]
                < positions(memos, needle)[k],
        forall|at: int|
            0 <= at < memos.len() && occurs_in(needle, #[trigger] memos[at].text)
                ==> positions(memos, needle).contains(at),
    decreases memos.len(),
{
    if memos.len() > 0 {
        let front = memos.drop_last();
        lemma_positions(front, needle);
        let found = positions(memos, needle);
        let before = positions(front, needle);
        assert forall|at: int|
            0 <= at < memos.len() && occurs_in(needle, #[trigger] memos[at].text) implies
            found.contains(at) by {
            if at < front.len() {
                assert(front[at] == memos[at]);
                let k = choose|k: int| 0 <= k < before.len() && before[k] == at;
                assert(found[k] == at);
            } else {
                assert(found[found.len() - 1] == at);
            }
        }
    }
}

/// Searching an empty text finds every memo.
pub proof fn lemma_empty_needle_finds_all(memos: Seq<MemoView>)
    ensures
        positions(memos, Seq::empty()) == Seq::new(memos.len(), |at: int| at),
    decreases memos.len(),
{
    if memos.len() > 0 {
        lemma_empty_needle_finds_all(memos.drop_last());
        let text = memos.last().text;
        assert(text.subrange(0, 0) =~= Seq::<char>::empty());
        assert(crate::text::occurs_at(Seq::empty(), text, 0));
    }
}

/// Purging twice leaves what purging once leaves.
pub proof fn lemma_purge_idempotent(memos: Seq<MemoView>)
    ensures
        without_done(without_done(memos)) == without_done(memos),
    decreases memos.len(),
{
    let keep = |memo: MemoView| memo.status != Status::Done;
    reveal(Seq::filter);
    if memos.len() > 0 {
        let front = memos.drop_last();
        lemma_purge_idempotent(front);
        if keep(memos.last()) {
            let once = front.filter(keep).push(memos.last());
            assert(once.drop_last() =~= front.filter(keep));
        }
    }
}

/// What a purge leaves: pending memos only, and each memo that was pending.
pub proof fn lemma_purge_keeps_pending(memos: Seq<MemoView>)
    ensures
        without_done(memos).len() <= memos.len(),
        forall|k: int|
            0 <= k < without_done(memos).len() ==> (#[trigger] without_done(memos)[k]).status
                == Status::Pending,
        forall|at: int|
            0 <= at < memos.len() && (#[trigger] memos[at]).status == Status::Pending
                ==> without_done(memos).contains(memos[at]),
{
    broadcast use vstd::seq_lib::group_filter_ensures;

}

/// A collection without done memos is left as it is by a purge.
pub proof fn lemma_purge_without_done(memos: Seq<MemoView>)
    requires
        forall|at: int| 0 <= at < memos.len() ==> (#[trigger] memos[at]).status == Status::Pending,
    ensures
        without_done(memos) == memos,
    decreases memos.len(),
{
    reveal(Seq::filter);
    if memos.len() > 0 {
        let front = memos.drop_last();
        assert forall|at: int| 0 <= at < front.len() implies (#[trigger] front[at]).status
            == Status::Pending by {
            assert(front[at] == memos[at]);
        }
        lemma_purge_without_done(front);
    }
}

/// Two additions in a row leave the earlier memos as they were and end the
/// collection with the two new memos, pending, in the order of the calls.
pub proof fn lemma_add_appends(memos: Seq<MemoView>, first: Seq<char>, second: Seq<char>)
    ensures
        memos.push(pending(first)).push(pending(second)) == memos + seq![
            pending(first),
            pending(second),
        ],
        memos.push(pending(first)).push(pending(second)).take(memos.len() as int) == memos,
{
}

/// The memos of `memos` whose text holds `needle`, in order, to read and to
/// change in place.
fn find_in<'a>(memos: &'a mut Vec<Memo>, needle: &str) -> (found: Vec<&'a mut Memo>)
    ensures
        ({
            let places = positions(views(old(memos)@), needle@);
            &&& found@.len() == places.len()
            &&& forall|k: int|
                0 <= k < found@.len() ==> *(#[trigger] found@[k]) == old(memos)@[places[k]]
            &&& final(memos)@.len() == old(memos)@.len()
            &&& forall|at: int|
                0 <= at < old(memos)@.len() && !occurs_in(needle@, old(memos)@[at]@.text)
                    ==> #[trigger] final(memos)@[at] == old(memos)@[at]
            &&& forall|k: int|
                0 <= k < found@.len() ==> final(memos)@[places[k]] == *final(#[trigger] found@[k])
        }),
{
    let pattern = chars_of(needle);
    let ghost all = views(memos@);
    let ghost n = memos@.len();
    // How many memos, from the front, have been looked at.
    let ghost seen: int = 0;
    let mut found: Vec<&mut Memo> = Vec::new();
    let mut rest: &mut [Memo] = memos.as_mut_slice();
    while rest.len() > 0
        invariant
            pattern@ == needle@,
            all == views(old(memos)@),
            n == old(memos)@.len(),
            0 <= seen <= n,
            rest@ == old(memos)@.subrange(seen, n as int),
            // What the vector will be: the memos seen so far, then what
            // `rest` will be.
            after_borrow(*memos)@.len() == seen + final(rest)@.len(),
            after_borrow(*memos)@.subrange(seen, after_borrow(*memos)@.len() as int)
                == final(rest)@,
            found@.len() == positions(all.take(seen), needle@).len(),
            forall|k: int|
                0 <= k < found@.len() ==> 0 <= #[trigger] positions(all.take(seen), needle@)[k]
                    < seen,
            forall|k: int|
                0 <= k < found@.len() ==> *(#[trigger] found@[k])
                    == old(memos)@[positions(all.take(seen), needle@)[k]],
            // A memo that was passed over stays; one that was found will be
            // what is written through its reference.
            forall|at: int|
                0 <= at < seen && !occurs_in(needle@, old(memos)@[at]@.text)
                    ==> #[trigger] after_borrow(*memos)@[at] == old(memos)@[at],
            forall|k: int|
                0 <= k < found@.len() ==> after_borrow(*memos)@[positions(
                    all.take(seen),
                    needle@,
                )[k]] == *final(#[trigger] found@[k]),
        decreases rest@.len(),
    {
        let whole = rest;
        let (head, tail) = whole.split_at_mut(1);
        rest = tail;
        proof {
            assert(all.take(seen + 1).drop_last() =~= all.take(seen));
        }
        match head.first_mut() {
            Some(memo) => {
                proof {
                    let end = after_borrow(*memos)@.len() as int;
                    let open = after_borrow(*memos)@.subrange(seen, end);
                    assert(open[0] == *final(memo));
                    assert forall|j: int| 0 <= j < final(rest)@.len() implies
                        after_borrow(*memos)@[seen + 1 + j] == final(rest)@[j] by {
                        assert(open[j + 1] == final(rest)@[j]);
                    }
                }
                let subject = chars_of(memo.text.as_str());
                if occurs(&pattern, &subject) {
                    found.push(memo);
                }
            },
            None => {},
        }
        proof {
            seen = seen + 1;
        }
    }
    proof {
        assert(all.take(seen) =~= all);
    }
    found
}

impl Memos {
    /// Appends a pending memo with the given text, as it is: nothing is
    /// trimmed and no duplicate is looked for.
    pub fn add(&mut self, text: &str)
        ensures
            final(self)@ == old(self)@.push(pending(text@)),
            final(self).path == old(self).path,
    {
        self.inner.push(Memo { text: text.to_owned(), status: Status::Pending });
    }

    /// Every memo whose text holds `text` as a substring, in the order of
    /// the collection, to read and to change in place.
    ///
    /// The returned references are into the collection: the memo at
    /// `positions(..)[k]` is the one behind `found[k]`, and after the call it
    /// is whatever was written through `found[k]`. Memos that are not
    /// returned stay as they are. No match gives an empty vector.
    pub fn find_all(&mut self, text: &str) -> (found: Vec<&mut Memo>)
        ensures
            ({
                let places = positions(old(self)@, text@);
                &&& found@.len() == places.len()
                &&& forall|k: int|
                    0 <= k < found@.len() ==> *(#[trigger] found@[k]) == old(self).inner@[places[k]]
                &&& final(self).inner@.len() == old(self).inner@.len()
                &&& forall|at: int|
                    0 <= at < old(self)@.len() && !occurs_in(text@, old(self)@[at].text)
                        ==> #[trigger] final(self).inner@[at] == old(self).inner@[at]
                &&& forall|k: int|
                    0 <= k < found@.len() ==> final(self).inner@[places[k]]
                        == *final(#[trigger] found@[k])
            }),
            final(self).path == old(self).path,
    {
        find_in(&mut self.inner, text)
    }

    /// Removes every done memo; the others keep their order.
    pub fn purge_done(&mut self)
        ensures
            final(self)@ == without_done(old(self)@),
            final(self).path == old(self).path,
    {
        let mut all: Vec<Memo> = Vec::new();
        core::mem::swap(&mut self.inner, &mut all);
        let ghost before = views(all@);
        for memo in it: all
            invariant
                before == views(it.seq()),
                before == old(self)@,
                self.path == old(self).path,
                self@ == without_done(before.take(it.index())),
        {
            proof {
                reveal(Seq::filter);
                assert(before.take(it.index() + 1).drop_last() =~= before.take(it.index()));
            }
            if memo.status != Status::Done {
                self.inner.push(memo);
            }
        }
        proof {
            assert(before.take(before.len() as int) =~= before);
        }
    }
}

} // verus!
