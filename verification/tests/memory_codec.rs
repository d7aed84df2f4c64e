use internet_use::jobs::BrowserJob;
use internet_use::memory::{AgentMemory, MemoryEntry};
use internet_use::types::{BrowserError, MemoryOptions};

fn entry(ts: &str, action: &str, sel: &str, job: BrowserJob) -> MemoryEntry {
    MemoryEntry {
        timestamp: ts.to_string(),
        page_url: Some("https://example.com".to_string()),
        page_title: None,
        dom_snapshot: None,
        action: action.to_string(),
        selector: Some(sel.to_string()),
        job,
    }
}

#[test]
fn add_keeps_insertion_order_within_capacity() {
    let mut m = AgentMemory::new(MemoryOptions { max_entries: 50 });
    let e1 = entry("t1", "Click", ".a", BrowserJob::Click(".a".to_string()));
    let e2 = entry("t2", "Navigate", "u", BrowserJob::Navigate("u".to_string()));
    let e3 = entry("t3", "WaitFor", ".w", BrowserJob::WaitFor(".w".to_string()));
    m.add(e1.clone());
    m.add(e2.clone());
    m.add(e3.clone());
    let all = m.all();
    assert_eq!(all.len(), 3);
    assert_eq!(all[0], e1);
    assert_eq!(all[1], e2);
    assert_eq!(all[2], e3);
}

#[test]
fn add_at_capacity_evicts_exactly_the_oldest() {
    let mut m = AgentMemory::new(MemoryOptions { max_entries: 3 });
    let e1 = entry("t1", "Click", ".a", BrowserJob::Click(".a".to_string()));
    let e2 = entry("t2", "Click", ".b", BrowserJob::Click(".b".to_string()));
    let e3 = entry("t3", "Click", ".c", BrowserJob::Click(".c".to_string()));
    let e4 = entry("t4", "Click", ".d", BrowserJob::Click(".d".to_string()));
    m.add(e1);
    m.add(e2.clone());
    m.add(e3.clone());
    m.add(e4.clone());
    let all = m.all();
    assert_eq!(all.len(), 3);
    assert_eq!(all[0], e2);
    assert_eq!(all[1], e3);
    assert_eq!(all[2], e4);
}

#[test]
fn capacity_two_add_three_keeps_last_two() {
    // memory capacity 2; adding X, Y, Z leaves exactly [Y, Z]
    let mut m = AgentMemory::new(MemoryOptions { max_entries: 2 });
    let x = entry("tx", "Click", ".x", BrowserJob::Click(".x".to_string()));
    let y = entry("ty", "Click", ".y", BrowserJob::Click(".y".to_string()));
    let z = entry("tz", "Click", ".z", BrowserJob::Click(".z".to_string()));
    m.add(x);
    m.add(y.clone());
    m.add(z.clone());
    let all = m.all();
    assert_eq!(all.len(), 2);
    assert_eq!(all[0], y);
    assert_eq!(all[1], z);
}

#[test]
fn last_and_last_n_are_most_recent_first() {
    let mut m = AgentMemory::new(MemoryOptions::default());
    let e1 = entry("t1", "Click", ".a", BrowserJob::Click(".a".to_string()));
    let e2 = entry("t2", "Click", ".b", BrowserJob::Click(".b".to_string()));
    let e3 = entry("t3", "Click", ".c", BrowserJob::Click(".c".to_string()));
    assert!(m.last().is_none());
    m.add(e1.clone());
    m.add(e2.clone());
    m.add(e3.clone());
    assert_eq!(m.last().unwrap(), &e3);
    let two = m.last_n(2);
    assert_eq!(two.len(), 2);
    assert_eq!(two[0], &e3);
    assert_eq!(two[1], &e2);
    let many = m.last_n(10);
    assert_eq!(many.len(), 3);
    assert_eq!(many[2], &e1);
}

#[test]
fn clear_empties_the_history() {
    let mut m = AgentMemory::new(MemoryOptions::default());
    m.add(entry("t1", "Click", ".a", BrowserJob::Click(".a".to_string())));
    m.clear();
    assert_eq!(m.all().len(), 0);
}

#[test]
fn to_json_writes_the_exact_encoding() {
    let mut m = AgentMemory::new(MemoryOptions::default());
    m.add(entry("t1", "Click", ".a", BrowserJob::Click(".a".to_string())));
    let json = m.to_json().unwrap();
    assert_eq!(
        json,
        "[{\"timestamp\":\"t1\",\"page_url\":\"https://example.com\",\"page_title\":null,\
         \"dom_snapshot\":null,\"action\":\"Click\",\"selector\":\".a\",\
         \"job\":{\"Click\":\".a\"}}]"
    );
}

#[test]
fn history_round_trips_through_the_encoding() {
    let mut m = AgentMemory::new(MemoryOptions::default());
    m.add(entry("t1", "Navigate", "https://a", BrowserJob::Navigate("https://a".to_string())));
    m.add(entry(
        "t2",
        "Type",
        "input[name=q]",
        BrowserJob::Type { selector: "input[name=q]".to_string(), text: "rust".to_string() },
    ));
    m.add(entry("t3", "Screenshot", "shot", BrowserJob::Screenshot { prefix: "shot".to_string() }));
    let json = m.to_json().unwrap();
    let restored = AgentMemory::from_json(&json).unwrap();
    assert_eq!(restored.all(), m.all());
}

#[test]
fn round_trip_keeps_special_characters_exactly() {
    let mut m = AgentMemory::new(MemoryOptions::default());
    let tricky = "he said \"hi\"\\ and\nleft\ttabs\r";
    m.add(entry(
        "t1",
        "Type",
        tricky,
        BrowserJob::Type { selector: tricky.to_string(), text: "a,b:{}[]".to_string() },
    ));
    let json = m.to_json().unwrap();
    let restored = AgentMemory::from_json(&json).unwrap();
    assert_eq!(restored.all(), m.all());
}

#[test]
fn empty_history_round_trips() {
    let m = AgentMemory::new(MemoryOptions::default());
    let json = m.to_json().unwrap();
    assert_eq!(json, "[]");
    let restored = AgentMemory::from_json(&json).unwrap();
    assert_eq!(restored.all().len(), 0);
}

#[test]
fn from_json_accepts_whitespace_and_reordered_fields() {
    let json = "[ {\n  \"action\": \"Click\",\n  \"selector\": \".a\",\n  \"timestamp\": \"t1\",\n  \
                \"page_url\": null,\n  \"page_title\": null,\n  \"dom_snapshot\": null,\n  \
                \"job\": { \"Click\": \".a\" }\n} ]";
    let m = AgentMemory::from_json(json).unwrap();
    assert_eq!(m.all().len(), 1);
    assert_eq!(m.all()[0].timestamp, "t1");
    assert_eq!(m.all()[0].page_url, None);
    assert_eq!(m.all()[0].job, BrowserJob::Click(".a".to_string()));
}

#[test]
fn from_json_rejects_malformed_text() {
    let r = AgentMemory::from_json("not a history");
    assert!(matches!(r, Err(BrowserError::MemoryError(_))));
    let r2 = AgentMemory::from_json("[{\"timestamp\":\"t\"}]");
    assert!(matches!(r2, Err(BrowserError::MemoryError(_))));
    let r3 = AgentMemory::from_json("[] trailing");
    assert!(matches!(r3, Err(BrowserError::MemoryError(_))));
}

#[test]
fn oversized_import_stands_until_the_next_add() {
    // build a history longer than the default capacity, reload it, and
    // check that the bound is enforced only from the next add on
    let mut big = AgentMemory::new(MemoryOptions { max_entries: 100 });
    for i in 0..52 {
        big.add(entry(
            &format!("t{i}"),
            "Click",
            ".a",
            BrowserJob::Click(format!(".sel{i}")),
        ));
    }
    let json = big.to_json().unwrap();
    let mut restored = AgentMemory::from_json(&json).unwrap();
    assert_eq!(restored.all().len(), 52);
    restored.add(entry("tn", "Click", ".n", BrowserJob::Click(".n".to_string())));
    // one entry appended, one (the oldest) evicted
    assert_eq!(restored.all().len(), 52);
    assert_eq!(restored.all()[0].timestamp, "t1");
    assert_eq!(restored.all()[51].timestamp, "tn");
}

#[test]
fn memory_entry_new_records_kind_and_target() {
    let job = BrowserJob::Type { selector: "input".to_string(), text: "abc".to_string() };
    let e = MemoryEntry::new(&job, Some("https://page".to_string()));
    assert_eq!(e.action, "Type");
    assert_eq!(e.selector, Some("input".to_string()));
    assert_eq!(e.page_url, Some("https://page".to_string()));
    assert_eq!(e.page_title, None);
    assert_eq!(e.dom_snapshot, None);
    assert_eq!(e.job, job);

    let nav = BrowserJob::Navigate("https://a".to_string());
    let e2 = MemoryEntry::new(&nav, None);
    assert_eq!(e2.action, "Navigate");
    assert_eq!(e2.selector, Some("https://a".to_string()));
}
