use static_api::codec::{convert_json_to_string, convert_string_to_json};
use static_api::engine::{
    add_item_to_json_file, add_item_with_candidate, create_empty_json_file,
    delete_collection_sync, delete_from_json_file, get_all, get_item_by_id, load_records,
    parse_payload, save_records, update_json_file, FileAction, Step,
};
use static_api::errors::AppError;
use static_api::ids::generate_random_id;
use static_api::json::{Json, JsonNumber};

fn record(id: u64, name: &str) -> Json {
    Json::Object(vec![
        ("id".to_string(), Json::Number(JsonNumber::Unsigned(id))),
        ("name".to_string(), Json::String(name.to_string())),
    ])
}

fn named(name: &str) -> Json {
    Json::Object(vec![("name".to_string(), Json::String(name.to_string()))])
}

fn as_stored(value: &Json) -> Json {
    convert_string_to_json(&convert_json_to_string(value).unwrap()).unwrap()
}

fn written<T>(step: &Step<T>) -> String {
    match &step.action {
        FileAction::Write(text) => text.clone(),
        other => panic!("nothing was written: {:?}", other),
    }
}

const TWO: &str = "[\n  {\n    \"id\": 1,\n    \"name\": \"nut\"\n  },\n  {\n    \"id\": 2,\n    \"name\": \"bolt\"\n  }\n]";

#[test]
fn create_empty_json_file_writes_an_empty_array() {
    assert_eq!(create_empty_json_file(), FileAction::Write("[]".to_string()));
}

#[test]
fn load_records_reads_an_array() {
    assert_eq!(load_records(TWO).unwrap(), vec![record(1, "nut"), record(2, "bolt")]);
    assert_eq!(load_records("[]").unwrap(), Vec::new());
    assert_eq!(load_records(" [ 1, \"a\" ] ").unwrap().len(), 2);
}

#[test]
fn load_records_rejects_a_root_that_is_no_array() {
    assert!(matches!(load_records("{\"id\": 1}"), Err(AppError::JsonParse(_))));
    assert!(matches!(load_records("7"), Err(AppError::JsonParse(_))));
    assert!(matches!(load_records("null"), Err(AppError::JsonParse(_))));
}

#[test]
fn load_records_rejects_broken_text() {
    assert!(matches!(load_records("[{]"), Err(AppError::JsonParse(_))));
    assert!(matches!(load_records(""), Err(AppError::JsonParse(_))));
}

#[test]
fn save_records_prints_the_array() {
    assert_eq!(save_records(vec![record(1, "nut"), record(2, "bolt")]).unwrap(), TWO);
    assert_eq!(save_records(Vec::new()).unwrap(), "[]");
}

#[test]
fn listing_a_collection_without_a_file_creates_it_empty() {
    let step = get_all(None, None, None);
    assert_eq!(step.action, FileAction::Write("[]".to_string()));
    let page = step.reply.unwrap();
    assert_eq!(page.total, 0);
    assert_eq!(page.data, Vec::new());
    assert_eq!(page.skip, 0);
    assert_eq!(page.limit, 30);
}

#[test]
fn listing_gives_all_records_of_a_short_collection() {
    let step = get_all(Some(TWO), None, None);
    assert_eq!(step.action, FileAction::Keep);
    let page = step.reply.unwrap();
    assert_eq!(page.total, 2);
    assert_eq!(page.data, vec![record(1, "nut"), record(2, "bolt")]);
    assert_eq!(page.skip, 0);
    assert_eq!(page.limit, 30);
}

#[test]
fn listing_pages_by_skip_and_limit() {
    let step = get_all(Some(TWO), Some(1), Some(5));
    let page = step.reply.unwrap();
    assert_eq!(page.total, 2);
    assert_eq!(page.data, vec![record(2, "bolt")]);
    assert_eq!(page.skip, 1);
    assert_eq!(page.limit, 5);
    let page = get_all(Some(TWO), Some(9), None).reply.unwrap();
    assert_eq!(page.total, 2);
    assert_eq!(page.data, Vec::new());
    assert_eq!(page.skip, 9);
    let page = get_all(Some(TWO), None, Some(1)).reply.unwrap();
    assert_eq!(page.data, vec![record(1, "nut")]);
}

#[test]
fn listing_a_broken_file_is_a_parse_error() {
    let step = get_all(Some("{}"), None, None);
    assert_eq!(step.action, FileAction::Keep);
    assert!(matches!(step.reply, Err(AppError::JsonParse(_))));
}

#[test]
fn get_item_by_id_finds_the_record() {
    let step = get_item_by_id(Some(TWO), 2);
    assert_eq!(step.action, FileAction::Keep);
    assert_eq!(step.reply, Ok(record(2, "bolt")));
}

#[test]
fn get_item_by_id_reports_a_missing_id() {
    let step = get_item_by_id(Some(TWO), 3);
    assert_eq!(step.action, FileAction::Keep);
    assert_eq!(step.reply, Err(AppError::ItemNotFound(3)));
}

#[test]
fn get_item_by_id_on_a_new_collection_creates_it_and_finds_nothing() {
    let step = get_item_by_id(None, 3);
    assert_eq!(step.action, FileAction::Write("[]".to_string()));
    assert_eq!(step.reply, Err(AppError::ItemNotFound(3)));
}

#[test]
fn get_item_by_id_never_matches_an_id_that_is_no_number() {
    let text = "[{\"id\": \"2\", \"n\": 1}, {\"id\": 2.0, \"n\": 2}, {\"id\": -2}, {\"n\": 3}]";
    assert_eq!(get_item_by_id(Some(text), 2).reply, Err(AppError::ItemNotFound(2)));
    assert_eq!(get_all(Some(text), None, None).reply.unwrap().total, 4);
}

#[test]
fn get_item_by_id_on_a_broken_file_is_a_parse_error() {
    let step = get_item_by_id(Some("[1,"), 1);
    assert_eq!(step.action, FileAction::Keep);
    assert!(matches!(step.reply, Err(AppError::JsonParse(_))));
}

#[test]
fn add_stores_the_record_with_the_candidate_as_its_id() {
    let step = add_item_with_candidate(Some(TWO), named("washer"), 77);
    let stored = step.reply.clone().unwrap();
    assert_eq!(stored.id(), Some(77));
    assert_eq!(stored.get(&"name".to_string()), Some(&Json::String("washer".to_string())));
    let after = load_records(&written(&step)).unwrap();
    assert_eq!(after.len(), 3);
    assert_eq!(after[0], record(1, "nut"));
    assert_eq!(after[1], record(2, "bolt"));
    assert_eq!(after[2].id(), Some(77));
}

#[test]
fn add_avoids_a_candidate_that_is_in_use() {
    let step = add_item_with_candidate(Some(TWO), named("washer"), 2);
    assert_eq!(step.reply.as_ref().unwrap().id(), Some(0));
    let next = written(&step);
    let step = add_item_with_candidate(Some(&next), named("spring"), 2);
    assert_eq!(step.reply.as_ref().unwrap().id(), Some(3));
}

#[test]
fn add_keeps_the_id_of_the_payload() {
    let step = add_item_with_candidate(Some(TWO), record(40, "washer"), 77);
    assert_eq!(step.reply, Ok(record(40, "washer")));
    assert_eq!(load_records(&written(&step)).unwrap()[2], record(40, "washer"));
}

#[test]
fn add_to_a_new_collection_writes_one_record() {
    let step = add_item_with_candidate(None, named("bolt"), 5);
    assert_eq!(step.reply.as_ref().unwrap().id(), Some(5));
    assert_eq!(written(&step), "[\n  {\n    \"id\": 5,\n    \"name\": \"bolt\"\n  }\n]");
}

#[test]
fn add_refuses_a_payload_that_is_no_object() {
    for payload in [Json::Null, Json::Array(vec![]), Json::String("x".to_string()), Json::Bool(true)]
    {
        let step = add_item_with_candidate(Some(TWO), payload, 5);
        assert_eq!(step.action, FileAction::Keep);
        assert!(matches!(step.reply, Err(AppError::ParseError(_))));
    }
    let step = add_item_to_json_file(None, Json::Null);
    assert_eq!(step.action, FileAction::Keep);
    assert!(matches!(step.reply, Err(AppError::ParseError(_))));
}

#[test]
fn add_to_a_broken_file_is_a_parse_error() {
    let step = add_item_with_candidate(Some("{\"a\": 1}"), named("bolt"), 5);
    assert_eq!(step.action, FileAction::Keep);
    assert!(matches!(step.reply, Err(AppError::JsonParse(_))));
}

#[test]
fn post_then_get_returns_the_stored_record() {
    let step = add_item_to_json_file(None, named("bolt"));
    let stored = step.reply.clone().unwrap();
    let id = stored.id().unwrap();
    assert!((1..=100000).contains(&id));
    assert_eq!(stored, named("bolt").with_id(id));
    let file = written(&step);
    let found = get_item_by_id(Some(&file), id).reply.unwrap();
    assert_eq!(found, as_stored(&stored));
    assert_eq!(found, record(id, "bolt"));
}

#[test]
fn repeated_adds_never_reuse_an_id() {
    let mut file = "[]".to_string();
    for _ in 0..200 {
        let step = add_item_to_json_file(Some(&file), named("n"));
        assert!(step.reply.is_ok());
        file = written(&step);
    }
    let records = load_records(&file).unwrap();
    assert_eq!(records.len(), 200);
    let mut ids: Vec<u64> = records.iter().map(|r| r.id().unwrap()).collect();
    ids.sort();
    ids.dedup();
    assert_eq!(ids.len(), 200);
}

#[test]
fn generate_random_id_stays_in_its_range() {
    let mut seen = Vec::new();
    for _ in 0..500 {
        let id = generate_random_id();
        assert!(id >= 1 && id <= 100000);
        seen.push(id);
    }
    seen.sort();
    seen.dedup();
    assert!(seen.len() > 1);
}

#[test]
fn update_replaces_the_record() {
    let step = update_json_file(Some(TWO), 2, &record(2, "screw"));
    assert_eq!(step.reply, Ok(true));
    assert_eq!(
        load_records(&written(&step)).unwrap(),
        vec![record(1, "nut"), record(2, "screw")]
    );
    assert_eq!(get_item_by_id(Some(&written(&step)), 2).reply, Ok(record(2, "screw")));
}

#[test]
fn update_stores_a_payload_with_another_id_verbatim() {
    let step = update_json_file(Some(TWO), 1, &record(9, "moved"));
    assert_eq!(step.reply, Ok(true));
    let file = written(&step);
    assert_eq!(load_records(&file).unwrap(), vec![record(9, "moved"), record(2, "bolt")]);
    assert_eq!(get_item_by_id(Some(&file), 1).reply, Err(AppError::ItemNotFound(1)));
    assert_eq!(get_item_by_id(Some(&file), 9).reply, Ok(record(9, "moved")));
}

#[test]
fn put_on_a_missing_id_changes_nothing() {
    let step = update_json_file(Some(TWO), 999, &record(999, "ghost"));
    assert_eq!(step.reply, Ok(false));
    assert_eq!(step.action, FileAction::Keep);
}

#[test]
fn update_without_a_file_finds_nothing_and_creates_none() {
    let step = update_json_file(None, 1, &record(1, "a"));
    assert_eq!(step.reply, Ok(false));
    assert_eq!(step.action, FileAction::Keep);
}

#[test]
fn update_of_a_broken_file_is_a_parse_error() {
    let step = update_json_file(Some("nonsense"), 1, &record(1, "a"));
    assert_eq!(step.action, FileAction::Keep);
    assert!(matches!(step.reply, Err(AppError::JsonParse(_))));
}

#[test]
fn delete_twice_finds_the_record_only_once() {
    let first = delete_from_json_file(Some(TWO), 1);
    assert_eq!(first.reply, Ok(true));
    let file = written(&first);
    assert_eq!(load_records(&file).unwrap(), vec![record(2, "bolt")]);
    assert_eq!(get_item_by_id(Some(&file), 1).reply, Err(AppError::ItemNotFound(1)));
    let second = delete_from_json_file(Some(&file), 1);
    assert_eq!(second.reply, Ok(false));
    assert_eq!(written(&second), file);
}

#[test]
fn delete_of_a_missing_id_rewrites_the_same_records() {
    let step = delete_from_json_file(Some(TWO), 7);
    assert_eq!(step.reply, Ok(false));
    assert_eq!(written(&step), TWO);
}

#[test]
fn delete_removes_every_record_with_the_id() {
    let text = "[{\"id\": 1}, {\"id\": 2}, {\"id\": 1}, {\"id\": \"1\"}]";
    let step = delete_from_json_file(Some(text), 1);
    assert_eq!(step.reply, Ok(true));
    assert_eq!(written(&step), "[\n  {\n    \"id\": 2\n  },\n  {\n    \"id\": \"1\"\n  }\n]");
}

#[test]
fn delete_without_a_file_finds_nothing_and_creates_none() {
    let step = delete_from_json_file(None, 1);
    assert_eq!(step.reply, Ok(false));
    assert_eq!(step.action, FileAction::Keep);
}

#[test]
fn delete_in_a_broken_file_is_a_parse_error() {
    let step = delete_from_json_file(Some("{}"), 1);
    assert_eq!(step.action, FileAction::Keep);
    assert!(matches!(step.reply, Err(AppError::JsonParse(_))));
}

#[test]
fn delete_collection_removes_the_file() {
    let step = delete_collection_sync("widgets", true);
    assert_eq!(step.reply, Ok(()));
    assert_eq!(step.action, FileAction::Remove);
}

#[test]
fn delete_collection_without_a_file_is_not_found() {
    let step = delete_collection_sync("widgets", false);
    assert_eq!(step.reply, Err(AppError::CollectionNotFound("widgets".to_string())));
    assert_eq!(step.action, FileAction::Keep);
}

#[test]
fn parse_payload_reads_a_body() {
    assert_eq!(parse_payload("{\"name\": \"bolt\"}"), Ok(named("bolt")));
    assert_eq!(parse_payload("[]"), Ok(Json::Array(vec![])));
}

#[test]
fn parse_payload_reports_a_broken_body_as_a_request_error() {
    let failed = parse_payload("{\"name\": ").unwrap_err();
    assert!(matches!(failed, AppError::ParseError(_)));
    assert!(failed.message().starts_with("error parsing request: `json parsing: `"));
}
