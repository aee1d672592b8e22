//! One run of the memo tool on an open collection: which of its operations
//! are applied for the given flags and text, and in which order.

use crate::diskvec::Render;
use crate::memo::{lemma_positions, pending, positions, without_done, MemoView, Memos, Status};
use crate::text::occurs_in;
use vstd::prelude::*;

verus! {

/// What a run did, for the caller to report.
#[derive(Debug)]
pub enum Outcome {
    /// The memos whose text held the given text were marked done; these are
    /// their texts, in the order of the collection.
    Marked(Vec<String>),
    /// Nothing was asked for; this is the listing of the collection.
    Listed(String),
    /// The given text was added as a new memo.
    Added,
}

/// The words joined by single spaces.
pub open spec fn joined(words: Seq<Seq<char>>) -> Seq<char>
    decreases words.len(),
{
    if words.len() == 0 {
        Seq::empty()
    } else if words.len() == 1 {
        words[0]
    } else {
        joined(words.drop_last()) + seq![' '] + words.last()
    }
}

/// The collection with every memo whose text holds `needle` set to done.
pub open spec fn marked(memos: Seq<MemoView>, needle: Seq<char>) -> Seq<MemoView> {
    Seq::new(
        memos.len(),
        |at: int|
            if occurs_in(needle, memos[at].text) {
                MemoView { text: memos[at].text, status: Status::Done }
            } else {
                memos[at]
            },
    )
}

/// The texts of the memos that hold `needle`, in the order of the collection.
pub open spec fn marked_texts(memos: Seq<MemoView>, needle: Seq<char>) -> Seq<Seq<char>> {
    positions(memos, needle).map_values(|at: int| memos[at].text)
}

/// Marking changes no text and no position, and a memo is done afterwards
/// exactly when it was done before or its text holds the needle.
pub proof fn lemma_marked(memos: Seq<MemoView>, needle: Seq<char>)
    ensures
        marked(memos, needle).len() == memos.len(),
        forall|at: int|
            0 <= at < memos.len() ==> {
                let after = #[trigger] marked(memos, needle)[at];
                &&& after.text == memos[at].text
                &&& after.status == Status::Done <==> memos[at].status == Status::Done
                    || occurs_in(needle, memos[at].text)
            },
{
}

/// The text of a memo as given on the command line: its words, joined by
/// single spaces.
pub fn join_words(words: &Vec<String>) -> (text: String)
    ensures
        text@ == joined(words.deep_view()),
{
    let mut text = String::new();
    let n = words.len();
    let mut i: usize = 0;
    while i < n
        invariant
            n == words@.len(),
            i <= n,
            text@ == joined(words.deep_view().take(i as int)),
        decreases n - i,
    {
        if i > 0 {
            text.append(" ");
        }
        text.append(words[i].as_str());
        proof {
            reveal_strlit(" ");
            let next = words.deep_view().take(i + 1);
            assert(next.drop_last() =~= words.deep_view().take(i as int));
        }
        i += 1;
    }
    proof {
        assert(words.deep_view().take(n as int) =~= words.deep_view());
    }
    text
}

/// Applies one run to the collection.
///
/// With `purge`, the done memos are removed first. Then exactly one of three
/// things happens: with `done`, every memo whose text holds `text` is marked
/// done; else, with an empty `text`, the collection is listed; else `text` is
/// added as a new memo.
pub fn run(memos: &mut Memos, purge: bool, done: bool, text: &str) -> (outcome: Outcome)
    ensures
        final(memos).path == old(memos).path,
        ({
            let start = if purge {
                without_done(old(memos)@)
            } else {
                old(memos)@
            };
            if done {
                &&& final(memos)@ == marked(start, text@)
                &&& outcome matches Outcome::Marked(texts)
                &&& texts.deep_view() == marked_texts(start, text@)
            } else if text@.len() == 0 {
                &&& final(memos)@ == start
                &&& outcome matches Outcome::Listed(lines)
                &&& lines@ == final(memos).rendering()
            } else {
                &&& final(memos)@ == start.push(pending(text@))
                &&& outcome is Added
            }
        }),
{
    if purge {
        memos.purge_done();
    }
    let ghost start = memos@;
    let ghost before = memos.inner@;
    if done {
        let ghost at = positions(start, text@);
        let found = memos.find_all(text);
        let ghost refs = found@;
        let mut texts: Vec<String> = Vec::new();
        proof {
            lemma_positions(start, text@);
        }
        for memo in it: found
            invariant
                it.seq() == refs,
                refs.len() == at.len(),
                at == positions(start, text@),
                texts@.len() == it.index(),
                forall|k: int| 0 <= k < at.len() ==> 0 <= #[trigger] at[k] < before.len(),
                forall|k: int| 0 <= k < refs.len() ==> *(#[trigger] refs[k]) == before[at[k]],
                forall|k: int|
                    0 <= k < it.index() ==> (*final(#[trigger] refs[k]))@ == (MemoView {
                        text: before[at[k]].text@,
                        status: Status::Done,
                    }),
                forall|k: int|
                    0 <= k < it.index() ==> (#[trigger] texts@[k])@ == before[at[k]].text@,
        {
            memo.status = Status::Done;
            texts.push(memo.text.clone());
        }
        proof {
            assert forall|i: int| 0 <= i < start.len() implies memos@[i] == marked(start, text@)[i] by {
                if occurs_in(text@, start[i].text) {
                    let k = choose|k: int| 0 <= k < at.len() && at[k] == i;
                    assert(memos.inner@[at[k]] == *final(refs[k]));
                }
            }
            assert(texts.deep_view() =~= marked_texts(start, text@));
        }
        Outcome::Marked(texts)
    } else if text.is_empty() {
        Outcome::Listed(memos.render())
    } else {
        memos.add(text);
        Outcome::Added
    }
}

} // verus!
