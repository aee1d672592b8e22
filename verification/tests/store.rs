use memo::json::DecodeError;
use memo::{DiskVec, Memo, Memos, Render, Status};

fn memo(text: &str, status: Status) -> Memo {
    Memo { text: String::from(text), status }
}

fn reopen(memos: &Memos) -> Memos {
    let written = memos.sync().unwrap();
    Memos::open(&memos.path, Some(written.as_bytes())).unwrap()
}

#[test]
fn open_and_sync_persist_data_via_file() {
    let mut vec: Memos = Memos::open("test.json", None).unwrap();
    vec.extend_from_slice(&[
        memo("foo", Status::Pending),
        memo("bar", Status::Pending),
        memo("baz", Status::Pending),
    ]);
    let written = vec.sync().unwrap();
    let vec2: Memos = Memos::open("test.json", Some(written.as_bytes())).unwrap();
    assert_eq!(*vec, *vec2);
}

#[test]
fn open_without_a_file_gives_an_empty_collection_bound_to_the_path() {
    let memos = Memos::open("somewhere/notes.json", None).unwrap();
    assert!(memos.is_empty());
    assert_eq!(memos.path, "somewhere/notes.json");
}

#[test]
fn empty_collection_is_written_as_empty_array() {
    let memos = Memos::open("memos.json", None).unwrap();
    assert_eq!(memos.sync().unwrap(), "[]");
}

#[test]
fn empty_array_is_read_as_empty_collection() {
    let memos = Memos::open("memos.json", Some(b"[]")).unwrap();
    assert!(memos.is_empty());
}

#[test]
fn sync_writes_one_object_per_memo_in_order() {
    let mut memos = Memos::open("memos.json", None).unwrap();
    memos.add("buy milk");
    assert_eq!(
        memos.sync().unwrap(),
        "[{\"text\":\"buy milk\",\"status\":\"Pending\"}]"
    );
    memos.add("call home");
    memos[0].status = Status::Done;
    assert_eq!(
        memos.sync().unwrap(),
        "[{\"text\":\"buy milk\",\"status\":\"Done\"},{\"text\":\"call home\",\"status\":\"Pending\"}]"
    );
}

#[test]
fn sync_escapes_what_json_cannot_hold_bare() {
    let mut memos = Memos::open("memos.json", None).unwrap();
    memos.add("say \"hi\"\nback\\slash");
    assert_eq!(
        memos.sync().unwrap(),
        "[{\"text\":\"say \\\"hi\\\"\\nback\\\\slash\",\"status\":\"Pending\"}]"
    );
}

#[test]
fn open_reads_one_memo() {
    let memos = Memos::open(
        "memos.json",
        Some(b"[{\"text\":\"buy milk\",\"status\":\"Pending\"}]"),
    )
    .unwrap();
    assert_eq!(*memos, vec![memo("buy milk", Status::Pending)]);
}

#[test]
fn open_accepts_either_field_order_and_white_space() {
    let bytes = b" [ { \"status\" : \"Done\" , \"text\" : \"a\" },\n {\"text\":\"b\",\"status\":\"Pending\"} ] ";
    let memos = Memos::open("memos.json", Some(bytes)).unwrap();
    assert_eq!(
        *memos,
        vec![memo("a", Status::Done), memo("b", Status::Pending)]
    );
}

#[test]
fn open_undoes_escapes() {
    let bytes = b"[{\"text\":\"say \\\"hi\\\"\\n\\u00e9\",\"status\":\"Pending\"}]";
    let memos = Memos::open("memos.json", Some(bytes)).unwrap();
    assert_eq!(memos[0].text, "say \"hi\"\n\u{e9}");
}

#[test]
fn round_trip_keeps_elements_and_order() {
    let mut memos = Memos::open("memos.json", None).unwrap();
    memos.add("plain");
    memos.add("");
    memos.add("quote \" backslash \\ tab \t newline \n bell \u{7}");
    memos.add("caf\u{e9} \u{1F600} \u{2028}");
    memos.add("plain");
    memos[1].status = Status::Done;
    memos[4].status = Status::Done;
    let again = reopen(&memos);
    assert_eq!(*again, *memos);
    assert_eq!(again.path, memos.path);
    assert_eq!(again.sync().unwrap(), memos.sync().unwrap());
}

#[test]
fn malformed_json_is_a_decode_error() {
    for bytes in [
        &b""[..],
        &b"["[..],
        &b"[{\"text\":\"a\",\"status\":\"Pending\"}"[..],
        &b"[{\"text\":\"a\",\"status\":\"Pending\"}] x"[..],
        &b"{\"text\":\"a\",\"status\":\"Pending\"}"[..],
        &b"[\"a\"]"[..],
        &b"[{\"text\":1,\"status\":\"Pending\"}]"[..],
        &b"[{\"text\":\"\xff\",\"status\":\"Pending\"}]"[..],
        &b"null"[..],
    ] {
        let opened = Memos::open("memos.json", Some(bytes));
        assert!(matches!(opened, Err(DecodeError::Json(_))));
    }
}

#[test]
fn an_object_that_is_no_memo_is_a_decode_error_with_its_position() {
    let missing = b"[{\"text\":\"a\",\"status\":\"Pending\"},{\"text\":\"b\"}]";
    assert!(matches!(
        Memos::open("memos.json", Some(missing)),
        Err(DecodeError::Record(1))
    ));
    let extra = b"[{\"text\":\"a\",\"status\":\"Pending\",\"note\":\"x\"}]";
    assert!(matches!(
        Memos::open("memos.json", Some(extra)),
        Err(DecodeError::Record(0))
    ));
    let empty = b"[{}]";
    assert!(matches!(
        Memos::open("memos.json", Some(empty)),
        Err(DecodeError::Record(0))
    ));
    let other_keys = b"[{\"text\":\"a\",\"state\":\"Pending\"}]";
    assert!(matches!(
        Memos::open("memos.json", Some(other_keys)),
        Err(DecodeError::Record(0))
    ));
}

#[test]
fn status_words_are_matched_exactly() {
    for word in ["pending", "DONE", "Done ", "", "x"] {
        let text = format!(
            "[{{\"text\":\"a\",\"status\":\"Done\"}},{{\"text\":\"b\",\"status\":\"Pending\"}},{{\"text\":\"c\",\"status\":\"{}\"}}]",
            word
        );
        assert!(matches!(
            Memos::open("memos.json", Some(text.as_bytes())),
            Err(DecodeError::Record(2))
        ));
    }
}

#[test]
fn from_records_builds_memos_or_names_the_first_bad_record() {
    let pair = |k: &str, v: &str| (String::from(k), String::from(v));
    let good = vec![
        vec![pair("status", "Done"), pair("text", "a")],
        vec![pair("text", "b"), pair("status", "Pending")],
    ];
    let memos = Memos::from_records("p.json", good).unwrap();
    assert_eq!(
        *memos,
        vec![memo("a", Status::Done), memo("b", Status::Pending)]
    );
    assert_eq!(memos.path, "p.json");
    let bad = vec![
        vec![pair("status", "Done"), pair("text", "a")],
        vec![pair("text", "b"), pair("text", "c")],
        vec![],
    ];
    assert!(matches!(
        Memos::from_records("p.json", bad),
        Err(DecodeError::Record(1))
    ));
    assert!(Memos::from_records("p.json", Vec::new()).unwrap().is_empty());
}

#[test]
fn memo_from_fields_wants_exactly_text_and_status() {
    let pair = |k: &str, v: &str| (String::from(k), String::from(v));
    assert_eq!(
        Memo::from_fields(vec![pair("text", "a"), pair("status", "Done")]),
        Some(memo("a", Status::Done))
    );
    assert_eq!(
        Memo::from_fields(vec![pair("status", "Pending"), pair("text", "")]),
        Some(memo("", Status::Pending))
    );
    assert_eq!(Memo::from_fields(vec![pair("text", "a")]), None);
    assert_eq!(
        Memo::from_fields(vec![pair("status", "Done"), pair("status", "Done")]),
        None
    );
    assert_eq!(
        Memo::from_fields(vec![pair("text", "a"), pair("status", "done")]),
        None
    );
    assert_eq!(
        Memo::from_fields(vec![
            pair("a", "b"),
            pair("status", "Done"),
            pair("text", "a")
        ]),
        None
    );
}

#[test]
fn json_object_frames_the_quoted_text() {
    assert_eq!(
        Memo::json_object("\"a\"", Status::Done),
        "{\"text\":\"a\",\"status\":\"Done\"}"
    );
    assert_eq!(
        Memo::json_object("\"\"", Status::Pending),
        "{\"text\":\"\",\"status\":\"Pending\"}"
    );
}

#[test]
fn status_tags_are_the_variant_names() {
    assert_eq!(Status::Pending.tag(), "Pending");
    assert_eq!(Status::Done.tag(), "Done");
    assert_eq!(Status::from_tag("Pending"), Some(Status::Pending));
    assert_eq!(Status::from_tag("Done"), Some(Status::Done));
    assert_eq!(Status::from_tag("done"), None);
    assert_eq!(Status::from_tag(""), None);
    assert_eq!(Status::from_tag("Pending!"), None);
}

#[test]
fn default_store_is_empty_and_bound_to_the_default_path() {
    let store: DiskVec<String> = DiskVec::default();
    assert!(store.is_empty());
    assert_eq!(store.path, "memos.json");
    assert_eq!(memo::diskvec::DEFAULT_PATH, "memos.json");
}

#[test]
fn store_from_vec_keeps_the_elements() {
    let store = DiskVec::from(vec![3u64, 1, 2]);
    assert_eq!(*store, vec![3, 1, 2]);
    assert_eq!(store.path, "memos.json");
    let other: DiskVec<u64> = vec![7u64].into();
    assert_eq!(other.len(), 1);
}

#[test]
fn new_store_is_empty_and_bound_to_the_given_path() {
    let store: DiskVec<u8> = DiskVec::new("a/b.json");
    assert!(store.is_empty());
    assert_eq!(store.path, "a/b.json");
}

#[test]
fn store_derefs_to_its_elements() {
    let mut store = DiskVec::from(vec![1u8, 2, 3]);
    assert_eq!(store.len(), 3);
    assert_eq!(store.first(), Some(&1));
    store.push(4);
    store.retain(|x| x % 2 == 0);
    assert_eq!(*store, vec![2, 4]);
    assert_eq!(store.inner, vec![2, 4]);
    assert_eq!(store.path, "memos.json");
}

#[test]
fn store_renders_one_line_per_element() {
    let store = DiskVec::from(vec![
        memo("a", Status::Pending),
        memo("", Status::Done),
        memo("b c", Status::Done),
    ]);
    assert_eq!(store.render(), "- a\nx \nx b c\n");
    let empty: Memos = DiskVec::default();
    assert_eq!(empty.render(), "");
    let nested = DiskVec::from(vec![Status::Done, Status::Pending]);
    assert_eq!(nested.render(), "x\n-\n");
}
