//! The file of a memo collection: a JSON array with one object per memo,
//! each with the fields `text` and `status`.
//!
//! Reading and writing JSON text is `serde_json`'s work. What `serde_json`
//! makes of given bytes, and how it writes a given string, is not restated
//! here: both results have a name, and the contracts of this module say what
//! the collection and the document are in terms of those names.

use crate::diskvec::DiskVec;
use crate::memo::{Memo, MemoView, Memos, Status};
use crate::text::same_text;
use std::collections::BTreeMap;
use vstd::prelude::*;

verus! {

/// The fields of one JSON object: its keys with their values.
pub type Fields = Seq<(Seq<char>, Seq<char>)>;

/// The error with which `serde_json` refuses a text or a value.
#[verifier::external_type_specification]
#[verifier::external_body]
pub struct ExJsonError(serde_json::Error);

/// What `serde_json::from_slice` makes of `bytes` when asked for a list of
/// maps from string to string: the fields of each object of the array, or
/// `None` where it refuses the bytes.
pub uninterp spec fn json_records(bytes: Seq<u8>) -> Option<Seq<Fields>>;

/// What `serde_json::to_string` writes for the string `text`: a JSON string
/// literal, or `None` where it fails.
pub uninterp spec fn json_string(text: Seq<char>) -> Option<Seq<char>>;

/// Why the bytes of a file are not a memo collection.
#[derive(Debug)]
pub enum DecodeError {
    /// The bytes are not a JSON array of objects whose values are strings.
    Json(serde_json::Error),
    /// The object at this position of the array is not a memo.
    Record(usize),
}

/// Why a memo collection could not be written: the text of the memo at
/// `position` was refused.
#[derive(Debug)]
pub struct EncodeError {
    pub position: usize,
    pub cause: serde_json::Error,
}

/// Calls `serde_json::from_slice` for a `Vec<BTreeMap<String, String>>` and
/// hands out each map's entries as pairs. Claimed: the result is a function
/// of the bytes alone, `json_records`; nothing is claimed about which bytes
/// are accepted.
#[verifier::external_body]
fn parse_records(bytes: &[u8]) -> (parsed: Result<Vec<Vec<(String, String)>>, serde_json::Error>)
    ensures
        match parsed {
            Ok(records) => json_records(bytes@) == Some(records.deep_view()),
            Err(_) => json_records(bytes@) is None,
        },
{
    let maps: Vec<BTreeMap<String, String>> = serde_json::from_slice(bytes)?;
    Ok(maps.into_iter().map(|map| map.into_iter().collect()).collect())
}

/// Calls `serde_json::to_string` on a string. Claimed: the result is a
/// function of the string alone, `json_string`; nothing is claimed about
/// what the literal looks like.
#[verifier::external_body]
fn quote(text: &str) -> (quoted: Result<String, serde_json::Error>)
    ensures
        match quoted {
            Ok(literal) => json_string(text@) == Some(literal@),
            Err(_) => json_string(text@) is None,
        },
{
    serde_json::to_string(text)
}

/// The word that stands for a status in the file.
pub open spec fn tag_of(status: Status) -> Seq<char> {
    match status {
        Status::Pending => "Pending"@,
        Status::Done => "Done"@,
    }
}

/// The status that a word of the file stands for, if it is one of the two.
pub open spec fn status_of(tag: Seq<char>) -> Option<Status> {
    if tag == "Pending"@ {
        Some(Status::Pending)
    } else if tag == "Done"@ {
        Some(Status::Done)
    } else {
        None
    }
}

/// The memo that an object with these fields stands for: it has exactly the
/// two fields `text` and `status`, and its status is one of the two words.
pub open spec fn memo_of(fields: Fields) -> Option<MemoView> {
    if fields.len() != 2 {
        None
    } else if fields[0].0 == "text"@ && fields[1].0 == "status"@ {
        match status_of(fields[1].1) {
            Some(status) => Some(MemoView { text: fields[0].1, status }),
            None => None,
        }
    } else if fields[0].0 == "status"@ && fields[1].0 == "text"@ {
        match status_of(fields[0].1) {
            Some(status) => Some(MemoView { text: fields[1].1, status }),
            None => None,
        }
    } else {
        None
    }
}

/// Whether every object stands for a memo.
pub open spec fn all_memos(records: Seq<Fields>) -> bool {
    forall|at: int| 0 <= at < records.len() ==> memo_of(#[trigger] records[at]) is Some
}

/// Whether the object at `at` is the first that stands for no memo.
pub open spec fn first_bad(records: Seq<Fields>, at: int) -> bool {
    &&& 0 <= at < records.len()
    &&& memo_of(records[at]) is None
    &&& forall|before: int| 0 <= before < at ==> memo_of(#[trigger] records[before]) is Some
}

/// The memos that the objects stand for, in order, where all of them do.
pub open spec fn memos_of(records: Seq<Fields>) -> Seq<MemoView> {
    records.map_values(|fields: Fields| memo_of(fields)->0)
}

/// Whether `loaded` is what the objects `records` give for a collection
/// bound to `path`: the memos they stand for, or the position of the first
/// object that stands for none.
pub open spec fn loads(
    records: Seq<Fields>,
    path: Seq<char>,
    loaded: Result<Memos, DecodeError>,
) -> bool {
    match loaded {
        Ok(memos) => all_memos(records) && memos@ == memos_of(records) && memos.path@ == path,
        Err(DecodeError::Record(at)) => first_bad(records, at as int),
        Err(DecodeError::Json(_)) => false,
    }
}

/// The fields of the object that is written for a memo.
pub open spec fn fields_of(memo: MemoView) -> Fields {
    seq![("text"@, memo.text), ("status"@, tag_of(memo.status))]
}

/// The object that is written for a memo, given its text as a JSON string
/// literal.
pub open spec fn memo_json(quoted: Seq<char>, status: Status) -> Seq<char> {
    "{\"text\":"@ + quoted + ",\"status\":\""@ + tag_of(status) + "\"}"@
}

/// The objects of the given memos, separated by commas; `None` where the
/// text of one of them has no JSON string literal.
pub open spec fn items_json(memos: Seq<MemoView>) -> Option<Seq<char>>
    decreases memos.len(),
{
    if memos.len() == 0 {
        Some(Seq::empty())
    } else {
        match (items_json(memos.drop_last()), json_string(memos.last().text)) {
            (Some(front), Some(quoted)) => {
                let comma = if memos.len() == 1 {
                    Seq::empty()
                } else {
                    ","@
                };
                Some(front + comma + memo_json(quoted, memos.last().status))
            },
            _ => None,
        }
    }
}

/// The document of a collection: its objects between square brackets.
pub open spec fn document(memos: Seq<MemoView>) -> Option<Seq<char>> {
    match items_json(memos) {
        Some(items) => Some("["@ + items + "]"@),
        None => None,
    }
}

/// Each status is read back from its word, and only the two words stand for
/// a status.
pub proof fn lemma_status_words(status: Status, word: Seq<char>)
    ensures
        status_of(tag_of(status)) == Some(status),
        status_of(word) == Some(status) <==> word == tag_of(status),
{
    reveal_strlit("Pending");
    reveal_strlit("Done");
    assert("Pending"@.len() != "Done"@.len());
}

/// Each memo is read back from the fields it is written with, in whichever
/// order the two fields come.
pub proof fn lemma_memo_of_its_fields(memo: MemoView)
    ensures
        memo_of(fields_of(memo)) == Some(memo),
        memo_of(seq![fields_of(memo)[1], fields_of(memo)[0]]) == Some(memo),
{
    lemma_status_words(memo.status, tag_of(memo.status));
    reveal_strlit("text");
    reveal_strlit("status");
    assert("text"@.len() != "status"@.len());
}

/// A collection is read back from objects that hold the fields its memos are
/// written with: every object then stands for a memo, and the memos are
/// those of the collection, in its order.
pub proof fn lemma_reads_back(memos: Seq<MemoView>, records: Seq<Fields>)
    requires
        records.len() == memos.len(),
        forall|at: int|
            0 <= at < memos.len() ==> #[trigger] records[at] == fields_of(memos[at])
                || records[at] == seq![fields_of(memos[at])[1], fields_of(memos[at])[0]],
    ensures
        all_memos(records),
        memos_of(records) == memos,
{
    assert forall|at: int| 0 <= at < records.len() implies memo_of(#[trigger] records[at]) == Some(
        memos[at],
    ) by {
        lemma_memo_of_its_fields(memos[at]);
    }
}

/// The document of the empty collection is `[]`.
pub proof fn lemma_empty_document()
    ensures
        document(Seq::empty()) == Some("[]"@),
{
    reveal_strlit("[");
    reveal_strlit("]");
    reveal_strlit("[]");
}

/// A collection has a document exactly when each of its texts has a JSON
/// string literal.
pub proof fn lemma_document_exists(memos: Seq<MemoView>)
    ensures
        document(memos) is Some <==> forall|at: int|
            0 <= at < memos.len() ==> json_string(#[trigger] memos[at].text) is Some,
    decreases memos.len(),
{
    if memos.len() > 0 {
        let front = memos.drop_last();
        lemma_document_exists(front);
        if document(memos) is Some {
            assert forall|at: int| 0 <= at < memos.len() implies json_string(
                #[trigger] memos[at].text,
            ) is Some by {
                if at < front.len() {
                    assert(front[at] == memos[at]);
                }
            }
        } else if json_string(memos.last().text) is Some {
            let at = choose|at: int|
                0 <= at < front.len() && json_string(#[trigger] front[at].text) is None;
            assert(front[at] == memos[at]);
        }
    }
}

impl Status {
    /// The word that stands for the status in the file.
    pub fn tag(&self) -> (word: &'static str)
        ensures
            word@ == tag_of(*self),
    {
        match self {
            Status::Pending => "Pending",
            Status::Done => "Done",
        }
    }

    /// The status that `word` stands for in the file: `Pending` or `Done`,
    /// spelled exactly so.
    pub fn from_tag(word: &str) -> (status: Option<Status>)
        ensures
            status == status_of(word@),
    {
        if same_text(word, "Pending") {
            Some(Status::Pending)
        } else if same_text(word, "Done") {
            Some(Status::Done)
        } else {
            None
        }
    }
}

impl Memo {
    /// The memo that an object with the given fields stands for, or `None`
    /// where it stands for none.
    pub fn from_fields(fields: Vec<(String, String)>) -> (memo: Option<Memo>)
        ensures
            match memo {
                Some(memo) => memo_of(fields.deep_view()) == Some(memo@),
                None => memo_of(fields.deep_view()) is None,
            },
    {
        let ghost given = fields.deep_view();
        let mut fields = fields;
        if fields.len() != 2 {
            return None;
        }
        let (key1, value1) = match fields.pop() {
            Some(field) => field,
            None => {
                return None;
            },
        };
        let (key0, value0) = match fields.pop() {
            Some(field) => field,
            None => {
                return None;
            },
        };
        let (text, word) = if same_text(key0.as_str(), "text")
            && same_text(key1.as_str(), "status") {
            (value0, value1)
        } else if same_text(key0.as_str(), "status") && same_text(key1.as_str(), "text") {
            (value1, value0)
        } else {
            return None;
        };
        match Status::from_tag(word.as_str()) {
            Some(status) => Some(Memo { text, status }),
            None => None,
        }
    }

    /// The object that is written for the memo, given its text as a JSON
    /// string literal.
    pub fn json_object(quoted: &str, status: Status) -> (object: String)
        ensures
            object@ == memo_json(quoted@, status),
    {
        let mut object = "{\"text\":".to_owned();
        object.append(quoted);
        object.append(",\"status\":\"");
        object.append(status.tag());
        object.append("\"}");
        object
    }
}

impl Memos {
    /// The collection that the given objects stand for, bound to `path`; or
    /// the position of the first object that stands for no memo.
    pub fn from_records(path: &str, records: Vec<Vec<(String, String)>>) -> (loaded: Result<
        Memos,
        DecodeError,
    >)
        ensures
            loads(records.deep_view(), path@, loaded),
    {
        let ghost given = records.deep_view();
        let count = records.len();
        let mut memos: Memos = DiskVec::new(path);
        let mut at: usize = 0;
        for fields in it: records
            invariant
                given.len() == count,
                given.len() == it.seq().len(),
                forall|each: int|
                    0 <= each < given.len() ==> given[each]
                        == (#[trigger] it.seq()[each]).deep_view(),
                at == it.index(),
                memos.path@ == path@,
                memos@.len() == at,
                forall|before: int|
                    0 <= before < at ==> memo_of(#[trigger] given[before])
                        == Some(memos@[before]),
        {
            match Memo::from_fields(fields) {
                Some(memo) => {
                    memos.inner.push(memo);
                },
                None => {
                    return Err(DecodeError::Record(at));
                },
            }
            at += 1;
        }
        proof {
            assert(memos@ =~= memos_of(given));
        }
        Ok(memos)
    }

    /// Opens the collection kept at `path`, given what is in the file there:
    /// `None` where there is no file yet, else all of its bytes.
    ///
    /// Without a file the collection is empty. With one, the bytes have to
    /// be a JSON array of objects that each stand for a memo, and the
    /// collection holds those memos in the order of the array.
    pub fn open(path: &str, file: Option<&[u8]>) -> (opened: Result<Memos, DecodeError>)
        ensures
            match file {
                None => opened matches Ok(memos) && memos@ == Seq::<MemoView>::empty()
                    && memos.path@ == path@,
                Some(bytes) => match json_records(bytes@) {
                    None => opened matches Err(DecodeError::Json(_)),
                    Some(records) => loads(records, path@, opened),
                },
            },
    {
        match file {
            None => {
                Ok(DiskVec::new(path))
            },
            Some(bytes) => match parse_records(bytes) {
                Ok(records) => Memos::from_records(path, records),
                Err(cause) => Err(DecodeError::Json(cause)),
            },
        }
    }

    /// The document that holds the collection as it is now, to replace the
    /// whole content of the file at `self.path`; or the first memo whose
    /// text could not be written.
    pub fn sync(&self) -> (written: Result<String, EncodeError>)
        ensures
            match written {
                Ok(text) => document(self@) == Some(text@),
                Err(error) => {
                    &&& document(self@) is None
                    &&& error.position < self@.len()
                    &&& json_string(self@[error.position as int].text) is None
                    &&& forall|before: int|
                        0 <= before < error.position
                            ==> json_string(#[trigger] self@[before].text) is Some
                },
            },
    {
        let mut text = "[".to_owned();
        let ghost mut items: Seq<char> = Seq::empty();
        let n = self.inner.len();
        let mut at: usize = 0;
        while at < n
            invariant
                n == self.inner@.len(),
                at <= n,
                items_json(self@.take(at as int)) == Some(items),
                text@ == "["@ + items,
                forall|before: int|
                    0 <= before < at ==> json_string(#[trigger] self@[before].text) is Some,
            decreases n - at,
        {
            let memo = &self.inner[at];
            proof {
                assert(self@.take(at + 1).drop_last() =~= self@.take(at as int));
            }
            match quote(memo.text.as_str()) {
                Ok(quoted) => {
                    if at > 0 {
                        text.append(",");
                    }
                    let object = Memo::json_object(quoted.as_str(), memo.status);
                    text.append(object.as_str());
                    proof {
                        let comma = if at == 0 {
                            Seq::<char>::empty()
                        } else {
                            ","@
                        };
                        items = items + comma + object@;
                    }
                },
                Err(cause) => {
                    proof {
                        lemma_document_exists(self@);
                    }
                    return Err(EncodeError { position: at, cause });
                },
            }
            at += 1;
        }
        text.append("]");
        proof {
            assert(self@.take(n as int) =~= self@);
        }
        Ok(text)
    }
}

} // verus!
