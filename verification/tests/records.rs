use airtable::query::decimal_string;
use airtable::url::{address, MAX_REQUEST_CHARS};
use airtable::{
    envelope, new, valid_credential, write_result, Advance, Base, Method, Paginator, Record,
    RecordPage, SRecord, SortDirection, State, WriteError, WriteRequest,
};

#[derive(Debug, Clone, PartialEq, Default)]
struct Word {
    id: String,
    word: String,
    google: i64,
}

impl Record for Word {
    fn set_id(&mut self, id: String) {
        self.id = id;
    }

    fn id(&self) -> &str {
        &self.id
    }
}

fn word(text: &str, google: i64) -> Word {
    Word { id: String::new(), word: text.to_string(), google }
}

fn record(id: &str, text: &str, google: i64) -> SRecord<Word> {
    SRecord { id: id.to_string(), fields: word(text, google) }
}

fn page(records: Vec<SRecord<Word>>, offset: &str) -> RecordPage<Word> {
    RecordPage { records, offset: offset.to_string() }
}

fn fetched(id: &str, text: &str, google: i64) -> Word {
    Word { id: id.to_string(), word: text.to_string(), google }
}

fn words() -> Base<Word> {
    new::<Word>("key123", "appXYZ", "Words")
}

// Runs the cursor as an iterator would, answering each request with the next
// of `pages`, for at most `take` rows. Gives the rows and the requested URLs.
fn drive(
    cursor: &mut Paginator<Word>,
    pages: Vec<RecordPage<Word>>,
    take: usize,
) -> (Vec<Word>, Vec<String>) {
    let mut pages = pages.into_iter();
    let mut rows = Vec::new();
    let mut urls = Vec::new();
    while rows.len() < take {
        match cursor.next() {
            Advance::Item(row) => rows.push(row),
            Advance::End => break,
            Advance::Fetch => {
                urls.push(cursor.request_url().expect("a pending page has a URL"));
                match cursor.receive(pages.next()) {
                    Some(row) => rows.push(row),
                    None => break,
                }
            }
        }
    }
    (rows, urls)
}

#[test]
fn sort_direction_words() {
    assert_eq!(SortDirection::Descending.to_string(), "desc");
    assert_eq!(SortDirection::Ascending.to_string(), "asc");
}

#[test]
fn record_takes_identifier() {
    let mut w = word("lurid", 6870000);
    assert_eq!(w.id(), "");
    w.set_id("rec1".to_string());
    assert_eq!(w.id(), "rec1");
    assert_eq!(w.word, "lurid");
    assert_eq!(w.google, 6870000);
}

#[test]
fn decimal_digits() {
    assert_eq!(decimal_string(0), "0");
    assert_eq!(decimal_string(7), "7");
    assert_eq!(decimal_string(10), "10");
    assert_eq!(decimal_string(109), "109");
    assert_eq!(decimal_string(4294967295), "4294967295");
}

#[test]
fn table_address_and_credential() {
    let base = words();
    assert_eq!(base.path(), "https://api.airtable.com/v0/appXYZ/Words");
    assert_eq!(base.authorization(), "Bearer key123");
}

#[test]
fn three_pages_then_end() {
    let base = words();
    let mut cursor = base.query().into_iter();
    let pages = vec![
        page(vec![record("rec1", "a", 1), record("rec2", "b", 2)], "o1"),
        page(vec![record("rec3", "c", 3)], "o2"),
        page(vec![record("rec4", "d", 4), record("rec5", "e", 5)], ""),
    ];
    let (rows, urls) = drive(&mut cursor, pages, usize::MAX);
    assert_eq!(
        rows,
        vec![
            fetched("rec1", "a", 1),
            fetched("rec2", "b", 2),
            fetched("rec3", "c", 3),
            fetched("rec4", "d", 4),
            fetched("rec5", "e", 5),
        ]
    );
    assert_eq!(
        urls,
        vec![
            "https://api.airtable.com/v0/appXYZ/Words?offset=".to_string(),
            "https://api.airtable.com/v0/appXYZ/Words?offset=o1".to_string(),
            "https://api.airtable.com/v0/appXYZ/Words?offset=o2".to_string(),
        ]
    );
    assert!(matches!(cursor.next(), Advance::End));
    assert_eq!(cursor.request_url(), None);
}

#[test]
fn single_page_asks_once() {
    let base = words();
    let mut cursor = base.query().into_iter();
    let pages = vec![
        page(vec![record("rec1", "a", 1), record("rec2", "b", 2)], ""),
        page(vec![record("rec9", "z", 9)], ""),
    ];
    let (rows, urls) = drive(&mut cursor, pages, usize::MAX);
    assert_eq!(rows, vec![fetched("rec1", "a", 1), fetched("rec2", "b", 2)]);
    assert_eq!(urls.len(), 1);
    assert!(matches!(cursor.next(), Advance::End));
    assert!(matches!(cursor.next(), Advance::End));
}

#[test]
fn empty_collection_ends_at_once() {
    let base = words();
    let mut cursor = base.query().into_iter();
    assert!(matches!(cursor.next(), Advance::Fetch));
    assert_eq!(cursor.receive(Some(page(vec![], ""))), None);
    assert!(matches!(cursor.next(), Advance::End));
    assert_eq!(cursor.request_url(), None);
}

#[test]
fn parameters_reach_every_request() {
    let base = words();
    let mut cursor = base
        .query()
        .view("V")
        .formula("F")
        .sort("A", SortDirection::Descending)
        .sort("B", SortDirection::Ascending)
        .into_iter();
    let pages = vec![page(vec![record("rec1", "a", 1)], "o1"), page(vec![], "")];
    let (_, urls) = drive(&mut cursor, pages, usize::MAX);
    let tail = "&view=V&filterByFormula=F\
                &sort%5B0%5D%5Bfield%5D=A&sort%5B0%5D%5Bdirection%5D=desc\
                &sort%5B1%5D%5Bfield%5D=B&sort%5B1%5D%5Bdirection%5D=asc";
    assert_eq!(
        urls,
        vec![
            format!("https://api.airtable.com/v0/appXYZ/Words?offset={}", tail),
            format!("https://api.airtable.com/v0/appXYZ/Words?offset=o1{}", tail),
        ]
    );
    let parsed = reqwest::Url::parse(&urls[1]).unwrap();
    let pairs: Vec<(String, String)> =
        parsed.query_pairs().map(|(k, v)| (k.into_owned(), v.into_owned())).collect();
    let expected: Vec<(String, String)> = vec![
        ("offset", "o1"),
        ("view", "V"),
        ("filterByFormula", "F"),
        ("sort[0][field]", "A"),
        ("sort[0][direction]", "desc"),
        ("sort[1][field]", "B"),
        ("sort[1][direction]", "asc"),
    ]
    .into_iter()
    .map(|(k, v)| (k.to_string(), v.to_string()))
    .collect();
    assert_eq!(pairs, expected);
}

#[test]
fn params_in_order() {
    let base = words();
    let plain = base.query();
    assert_eq!(plain.params("itr/rec"), vec![("offset".to_string(), "itr/rec".to_string())]);
    let sorted = base.query().sort("Next", SortDirection::Descending).formula("A = 1");
    assert_eq!(
        sorted.params(""),
        vec![
            ("offset".to_string(), String::new()),
            ("filterByFormula".to_string(), "A = 1".to_string()),
            ("sort[0][field]".to_string(), "Next".to_string()),
            ("sort[0][direction]".to_string(), "desc".to_string()),
        ]
    );
}

#[test]
fn later_view_and_formula_replace_earlier() {
    let base = words();
    let q = base.query().view("One").formula("X").view("Two").formula("Y");
    assert_eq!(
        q.params("o"),
        vec![
            ("offset".to_string(), "o".to_string()),
            ("view".to_string(), "Two".to_string()),
            ("filterByFormula".to_string(), "Y".to_string()),
        ]
    );
}

#[test]
fn eleventh_sort_clause_has_two_digits() {
    let base = words();
    let mut q = base.query();
    for i in 0..11 {
        q = q.sort(&format!("F{}", i), SortDirection::Ascending);
    }
    let params = q.params("");
    assert_eq!(params.len(), 23);
    assert_eq!(params[21], ("sort[10][field]".to_string(), "F10".to_string()));
    assert_eq!(params[22], ("sort[10][direction]".to_string(), "asc".to_string()));
}

#[test]
fn values_are_form_encoded() {
    let base = new::<Word>("k", "app 1", "My Table");
    let cursor = base.query().view("To Learn").formula("FIND(\"x\", S)").into_iter();
    assert_eq!(
        cursor.request_url(),
        Some(
            "https://api.airtable.com/v0/app%201/My%20Table?offset=&view=To+Learn\
             &filterByFormula=FIND%28%22x%22%2C+S%29"
                .to_string()
        )
    );
}

#[test]
fn identifiers_come_from_envelopes() {
    let base = words();
    let mut cursor = base.query().into_iter();
    let mut stale = record("rec7", "a", 1);
    stale.fields.id = "old".to_string();
    let first = cursor.receive(Some(page(vec![stale, record("rec8", "b", 2)], "")));
    assert_eq!(first, Some(fetched("rec7", "a", 1)));
    match cursor.next() {
        Advance::Item(row) => assert_eq!(row, fetched("rec8", "b", 2)),
        other => panic!("a row was buffered, got {:?}", other),
    }
}

#[test]
fn early_stop_asks_once() {
    let base = words();
    let mut cursor = base.query().into_iter();
    let pages = vec![
        page(vec![record("rec1", "a", 1), record("rec2", "b", 2)], "o1"),
        page(vec![record("rec3", "c", 3)], ""),
    ];
    let (rows, urls) = drive(&mut cursor, pages, 1);
    assert_eq!(rows, vec![fetched("rec1", "a", 1)]);
    assert_eq!(urls.len(), 1);
}

#[test]
fn failed_request_ends_and_keeps_the_offset() {
    let base = words();
    let mut cursor = base.query().into_iter();
    assert_eq!(cursor.receive(Some(page(vec![record("rec1", "a", 1)], "o1"))), Some(fetched("rec1", "a", 1)));
    assert!(matches!(cursor.next(), Advance::Fetch));
    assert_eq!(cursor.receive(None), None);
    assert!(matches!(cursor.next(), Advance::Fetch));
    assert_eq!(
        cursor.request_url(),
        Some("https://api.airtable.com/v0/appXYZ/Words?offset=o1".to_string())
    );
}

#[test]
fn empty_page_with_offset_yields_nothing_but_goes_on() {
    let base = words();
    let mut cursor = base.query().into_iter();
    assert_eq!(cursor.receive(Some(page(vec![], "o1"))), None);
    assert!(matches!(cursor.next(), Advance::Fetch));
    assert_eq!(cursor.receive(Some(page(vec![record("rec1", "a", 1)], ""))), Some(fetched("rec1", "a", 1)));
    assert!(matches!(cursor.next(), Advance::End));
}

#[test]
fn create_sends_no_identifier() {
    let base = words();
    let request = base.create(&fetched("rec1", "lurid", 6870000));
    assert_eq!(request.method, Method::Post);
    assert_eq!(request.url, "https://api.airtable.com/v0/appXYZ/Words");
    assert_eq!(request.id, "");
}

#[test]
fn update_sends_the_identifier() {
    let base = words();
    let request = base.update(&fetched("rec1", "lurid", 6870000));
    assert_eq!(request.method, Method::Patch);
    assert_eq!(request.url, "https://api.airtable.com/v0/appXYZ/Words/rec1");
    assert_eq!(request.id, "rec1");
}

#[test]
fn update_without_identifier_has_a_bare_path() {
    let base = words();
    let request = base.update(&word("lurid", 1));
    assert_eq!(request.url, "https://api.airtable.com/v0/appXYZ/Words/");
    assert_eq!(request.id, "");
}

#[test]
fn write_statuses() {
    assert_eq!(write_result(200), Ok(()));
    assert_eq!(write_result(204), Ok(()));
    assert_eq!(write_result(299), Ok(()));
    assert_eq!(write_result(199), Err(WriteError::Status(199)));
    assert_eq!(write_result(300), Err(WriteError::Status(300)));
    assert_eq!(write_result(422), Err(WriteError::Status(422)));
    assert_eq!(write_result(500), Err(WriteError::Status(500)));
    assert_eq!(write_result(0), Err(WriteError::Status(0)));
    assert_eq!(write_result(65535), Err(WriteError::Status(65535)));
}

#[test]
fn create_body_omits_the_identifier() {
    let base = words();
    let request = base.create(&fetched("rec1", "lurid", 6870000));
    assert_eq!(
        request.body("{\"Word\":\"lurid\",\"Google\":6870000}"),
        "{\"fields\":{\"Word\":\"lurid\",\"Google\":6870000}}"
    );
}

#[test]
fn update_body_holds_the_identifier() {
    let base = words();
    let request = base.update(&fetched("rec1", "lurid", 6870000));
    assert_eq!(
        request.body("{\"Word\":\"lurid\"}"),
        "{\"id\":\"rec1\",\"fields\":{\"Word\":\"lurid\"}}"
    );
}

#[test]
fn identifier_is_escaped_in_the_body() {
    let request = WriteRequest {
        method: Method::Patch,
        url: String::new(),
        id: "a\"b\\c\n".to_string(),
    };
    assert_eq!(
        request.body("{}"),
        "{\"id\":\"a\\\"b\\\\c\\n\",\"fields\":{}}"
    );
}

#[test]
fn bodies_are_read_back_by_the_codec() {
    let fields = "{\"Word\":\"lurid\",\"Google\":6870000,\"Next\":true}";
    let sent: serde_json::Value = serde_json::from_str(fields).unwrap();
    let base = words();

    let created = base.create(&word("lurid", 6870000)).body(fields);
    let read: serde_json::Value = serde_json::from_str(&created).unwrap();
    assert_eq!(read.get("id"), None);
    assert_eq!(read.get("fields"), Some(&sent));

    let updated = base.update(&fetched("rec1", "lurid", 6870000)).body(fields);
    let read: serde_json::Value = serde_json::from_str(&updated).unwrap();
    assert_eq!(read.get("id"), Some(&serde_json::Value::String("rec1".to_string())));
    assert_eq!(read.get("fields"), Some(&sent));
}

#[test]
fn envelopes() {
    assert_eq!(envelope(None, "{}"), "{\"fields\":{}}");
    assert_eq!(envelope(Some("\"r\""), "{\"a\":1}"), "{\"id\":\"r\",\"fields\":{\"a\":1}}");
}

#[test]
fn credentials() {
    assert!(valid_credential("key123"));
    assert!(valid_credential(""));
    assert!(valid_credential("key\twith tab"));
    assert!(valid_credential("cl\u{e9}"));
    assert!(!valid_credential("key\n"));
    assert!(!valid_credential("k\u{7f}"));
    assert!(!valid_credential("\u{0}"));
}

#[test]
fn states_of_a_cursor() {
    let base = words();
    let mut cursor = base.query().into_iter();
    assert_eq!(cursor.state(), State::NotStarted);
    cursor.receive(Some(page(vec![envelope_of("rec1"), envelope_of("rec2")], "o1")));
    assert_eq!(cursor.state(), State::HasBufferedItems);
    assert!(matches!(cursor.next(), Advance::Item(_)));
    assert_eq!(cursor.state(), State::AwaitingFetch);
    cursor.receive(Some(page(vec![envelope_of("rec3")], "")));
    assert_eq!(cursor.state(), State::Exhausted);
}

fn envelope_of(id: &str) -> SRecord<Word> {
    SRecord { id: id.to_string(), fields: word("w", 0) }
}

#[test]
fn update_of_a_fetched_record() {
    let base = new::<Word>("k", "app", "Words");
    let request = base.update(&fetched("rec123", "lurid", 6870000));
    assert_eq!(request.method, Method::Patch);
    assert_eq!(request.url, "https://api.airtable.com/v0/app/Words/rec123");
    assert_eq!(
        request.body("{\"Word\":\"lurid\",\"Google\":6870000,\"Next\":false}"),
        "{\"id\":\"rec123\",\"fields\":{\"Word\":\"lurid\",\"Google\":6870000,\"Next\":false}}"
    );
    assert_eq!(write_result(200), Ok(()));
}

#[test]
fn addresses() {
    let params = vec![("a b".to_string(), "c&d".to_string()), ("e".to_string(), String::new())];
    assert_eq!(
        address("https://example.net/x y", &params),
        Some("https://example.net/x%20y?a+b=c%26d&e=".to_string())
    );
    assert_eq!(address("no address", &params), None);
}

#[test]
fn oversized_request_has_no_address() {
    let longest = format!("https://example.net/{}", "a".repeat(MAX_REQUEST_CHARS - 20));
    assert_eq!(longest.len(), MAX_REQUEST_CHARS);
    let one_pair = vec![(String::new(), String::new())];
    assert_eq!(address(&longest, &one_pair), None);
    let longer = format!("{}a", longest);
    assert_eq!(address(&longer, &vec![]), None);
}
