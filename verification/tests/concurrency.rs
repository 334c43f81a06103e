use std::sync::{Arc, Mutex};

use static_api::engine::{add_item_to_json_file, load_records, FileAction};
use static_api::guard::ConcurrencyGuard;
use static_api::json::Json;

struct Shelf {
    guard: Mutex<ConcurrencyGuard>,
    file: Mutex<Option<String>>,
}

async fn insert(shelf: Arc<Shelf>, caller: u64) -> u64 {
    while !shelf.guard.lock().unwrap().try_acquire("widgets") {
        tokio::task::yield_now().await;
    }
    let stored = shelf.file.lock().unwrap().clone();
    tokio::task::yield_now().await;
    let payload = Json::Object(vec![(
        "caller".to_string(),
        Json::Number(static_api::json::JsonNumber::Unsigned(caller)),
    )]);
    let step = add_item_to_json_file(stored.as_deref(), payload);
    tokio::task::yield_now().await;
    if let FileAction::Write(text) = step.action {
        *shelf.file.lock().unwrap() = Some(text);
    }
    shelf.guard.lock().unwrap().release("widgets");
    step.reply.unwrap().id().unwrap()
}

#[test]
fn parallel_inserts_lose_nothing() {
    let callers: u64 = 64;
    let shelf = Arc::new(Shelf {
        guard: Mutex::new(ConcurrencyGuard::new()),
        file: Mutex::new(None),
    });
    let runtime = tokio::runtime::Builder::new_multi_thread().worker_threads(4).build().unwrap();
    let mut ids = runtime.block_on(async {
        let tasks: Vec<_> =
            (0..callers).map(|caller| tokio::spawn(insert(shelf.clone(), caller))).collect();
        let mut ids = Vec::new();
        for task in tasks {
            ids.push(task.await.unwrap());
        }
        ids
    });
    let text = shelf.file.lock().unwrap().clone().unwrap();
    let records = load_records(&text).unwrap();
    assert_eq!(records.len() as u64, callers);
    let mut seen: Vec<u64> = records
        .iter()
        .map(|r| match r.get(&"caller".to_string()) {
            Some(Json::Number(n)) => n.as_u64().unwrap(),
            other => panic!("no caller in {:?}", other),
        })
        .collect();
    seen.sort();
    assert_eq!(seen, (0..callers).collect::<Vec<u64>>());
    ids.sort();
    ids.dedup();
    assert_eq!(ids.len() as u64, callers);
    assert!(!shelf.guard.lock().unwrap().is_busy("widgets"));
}
