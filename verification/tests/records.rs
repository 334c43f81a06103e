use static_api::json::{Json, JsonNumber};
use static_api::records::{
    find_by_id, insert_record, list_page, remove_by_id, replace_by_id, unused_id,
};

fn record(id: u64, name: &str) -> Json {
    Json::Object(vec![
        ("id".to_string(), Json::Number(JsonNumber::Unsigned(id))),
        ("name".to_string(), Json::String(name.to_string())),
    ])
}

fn nameless(name: &str) -> Json {
    Json::Object(vec![("name".to_string(), Json::String(name.to_string()))])
}

fn numbered(n: u64) -> Vec<Json> {
    (0..n).map(|i| record(i, "r")).collect()
}

#[test]
fn find_by_id_gives_the_first_match() {
    let records = vec![record(1, "a"), record(2, "b"), record(2, "c")];
    assert_eq!(find_by_id(&records, 2), Some(1));
    assert_eq!(find_by_id(&records, 1), Some(0));
    assert_eq!(find_by_id(&records, 3), None);
    assert_eq!(find_by_id(&Vec::new(), 3), None);
}

#[test]
fn find_by_id_skips_records_without_a_numeric_id() {
    let odd = Json::Object(vec![("id".to_string(), Json::String("2".to_string()))]);
    let records = vec![nameless("a"), odd, Json::Null, record(2, "b")];
    assert_eq!(find_by_id(&records, 2), Some(3));
}

#[test]
fn unused_id_keeps_a_free_candidate() {
    let records = vec![record(0, "a"), record(1, "b")];
    assert_eq!(unused_id(&records, 7), 7);
    assert_eq!(unused_id(&Vec::new(), 100000), 100000);
}

#[test]
fn unused_id_replaces_a_taken_candidate_by_the_smallest_free_id() {
    let records = vec![record(0, "a"), record(1, "b"), record(3, "c")];
    assert_eq!(unused_id(&records, 1), 2);
    assert_eq!(unused_id(&records, 3), 2);
    assert_eq!(unused_id(&vec![record(5, "a")], 5), 0);
}

#[test]
fn insert_record_assigns_an_id_that_is_not_in_use() {
    let mut records = vec![record(5, "a"), record(0, "b")];
    let stored = insert_record(&mut records, nameless("bolt"), 5);
    assert_eq!(stored.id(), Some(1));
    assert_eq!(records.len(), 3);
    assert_eq!(records[2], stored);
    assert_eq!(records[0], record(5, "a"));
    assert_eq!(records[1], record(0, "b"));
}

#[test]
fn insert_record_takes_the_candidate_when_it_is_free() {
    let mut records = vec![record(5, "a")];
    let stored = insert_record(&mut records, nameless("bolt"), 77);
    assert_eq!(
        stored,
        Json::Object(vec![
            ("name".to_string(), Json::String("bolt".to_string())),
            ("id".to_string(), Json::Number(JsonNumber::Unsigned(77))),
        ])
    );
}

#[test]
fn insert_record_keeps_an_id_that_the_payload_brings() {
    let mut records = vec![record(5, "a")];
    let stored = insert_record(&mut records, record(9, "own"), 77);
    assert_eq!(stored, record(9, "own"));
    let odd = Json::Object(vec![("id".to_string(), Json::String("x".to_string()))]);
    let stored = insert_record(&mut records, odd.clone(), 77);
    assert_eq!(stored, odd);
    assert_eq!(records.len(), 3);
}

#[test]
fn insert_then_find_gives_the_inserted_record() {
    let mut records = numbered(4);
    let stored = insert_record(&mut records, nameless("bolt"), 2);
    let id = stored.id().unwrap();
    let at = find_by_id(&records, id).unwrap();
    assert_eq!(records[at], stored);
}

#[test]
fn many_inserts_give_as_many_records_with_distinct_ids() {
    let mut records = numbered(3);
    let mut ids = Vec::new();
    for candidate in [1, 1, 2, 50, 50, 0, 3] {
        let stored = insert_record(&mut records, nameless("n"), candidate);
        ids.push(stored.id().unwrap());
    }
    assert_eq!(records.len(), 10);
    assert_eq!(ids, vec![3, 4, 5, 50, 6, 7, 8]);
    let mut all: Vec<u64> = records.iter().map(|r| r.id().unwrap()).collect();
    all.sort();
    all.dedup();
    assert_eq!(all.len(), 10);
}

#[test]
fn replace_by_id_puts_the_payload_in_the_first_match() {
    let mut records = vec![record(1, "a"), record(2, "b"), record(2, "c")];
    assert!(replace_by_id(&mut records, 2, record(2, "new")));
    assert_eq!(records, vec![record(1, "a"), record(2, "new"), record(2, "c")]);
}

#[test]
fn replace_by_id_stores_a_payload_with_another_id_verbatim() {
    let mut records = vec![record(1, "a"), record(2, "b")];
    assert!(replace_by_id(&mut records, 1, record(9, "moved")));
    assert_eq!(records, vec![record(9, "moved"), record(2, "b")]);
    assert_eq!(find_by_id(&records, 1), None);
    assert_eq!(find_by_id(&records, 9), Some(0));
}

#[test]
fn replace_by_id_without_a_match_changes_nothing() {
    let mut records = vec![record(1, "a"), record(2, "b")];
    assert!(!replace_by_id(&mut records, 999, record(999, "x")));
    assert_eq!(records, vec![record(1, "a"), record(2, "b")]);
}

#[test]
fn update_then_find_gives_the_payload() {
    let mut records = numbered(5);
    assert!(replace_by_id(&mut records, 3, record(3, "fresh")));
    let at = find_by_id(&records, 3).unwrap();
    assert_eq!(records[at], record(3, "fresh"));
}

#[test]
fn remove_by_id_drops_every_match_and_keeps_the_order() {
    let records = vec![record(2, "a"), record(1, "b"), record(2, "c"), nameless("d")];
    let (kept, found) = remove_by_id(&records, 2);
    assert!(found);
    assert_eq!(kept, vec![record(1, "b"), nameless("d")]);
    assert_eq!(find_by_id(&kept, 2), None);
}

#[test]
fn remove_by_id_without_a_match_keeps_every_record() {
    let records = vec![record(2, "a"), nameless("d")];
    let (kept, found) = remove_by_id(&records, 7);
    assert!(!found);
    assert_eq!(kept, records);
    let (kept, found) = remove_by_id(&Vec::new(), 7);
    assert!(!found);
    assert!(kept.is_empty());
}

#[test]
fn list_page_gives_all_of_a_short_collection() {
    let records = numbered(30);
    assert_eq!(list_page(&records, 0, 30), records);
    let records = numbered(4);
    assert_eq!(list_page(&records, 0, 30), records);
    assert_eq!(list_page(&Vec::new(), 0, 30), Vec::new());
}

#[test]
fn list_page_cuts_at_the_limit() {
    let records = numbered(31);
    assert_eq!(list_page(&records, 0, 30), records[..30].to_vec_of_clones());
    assert_eq!(list_page(&records, 29, 5), records[29..].to_vec_of_clones());
    assert_eq!(list_page(&records, 2, 3), records[2..5].to_vec_of_clones());
    assert_eq!(list_page(&records, 2, 0), Vec::new());
}

#[test]
fn list_page_clamps_the_offset() {
    let records = numbered(3);
    assert_eq!(list_page(&records, 3, 30), Vec::new());
    assert_eq!(list_page(&records, 100, 30), Vec::new());
    assert_eq!(list_page(&records, usize::MAX, usize::MAX), Vec::new());
    assert_eq!(list_page(&records, 1, usize::MAX), records[1..].to_vec_of_clones());
}

trait Clones {
    fn to_vec_of_clones(&self) -> Vec<Json>;
}

impl Clones for [Json] {
    fn to_vec_of_clones(&self) -> Vec<Json> {
        self.iter().map(|r| r.clone()).collect()
    }
}
