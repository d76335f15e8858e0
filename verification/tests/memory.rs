use boomerang::clock::Timestamp;
use boomerang::memory::{join_path, FileMemory, MemoryEntry, MemoryIndex, Metadata};

fn at(secs: i64) -> Timestamp {
    Timestamp { secs, nanos: 0 }
}

#[test]
fn paths_of_the_store() {
    let store = FileMemory::new("/data/memory");
    assert_eq!(store.index_path(), "/data/memory/.index.json");
    assert_eq!(store.entry_path("notes"), "/data/memory/notes.md");
    assert_eq!(join_path("/base/", "x"), "/base/x");
    assert_eq!(join_path("/base", "/abs"), "/abs");
}

#[test]
fn sanitize_key_replaces_forbidden_characters() {
    assert_eq!(FileMemory::sanitize_key("a/b\\c:d*e?f\"g<h>i|j"), "a_b_c_d_e_f_g_h_i_j");
    let once = FileMemory::sanitize_key("user/42:notes");
    assert_eq!(once, "user_42_notes");
    assert_eq!(FileMemory::sanitize_key(&once), once);
}

#[test]
fn write_then_read_gives_back_the_entry() {
    let mut index = MemoryIndex::new();
    let meta = Some(Metadata { tags: vec!["notes".to_string()], source: Some("chat".to_string()) });
    index.upsert("test-key", "/m/test-key.md", &meta, at(100));
    let pos = index.position("test-key").unwrap();
    let entry: MemoryEntry = index.entry_at(pos, "Test content".to_string());
    assert_eq!(entry.key, "test-key");
    assert_eq!(entry.content, "Test content");
    assert_eq!(entry.metadata, meta);
    assert_eq!(entry.created_at, at(100));
    assert_eq!(entry.updated_at, at(100));
}

#[test]
fn rewriting_keeps_the_creation_time() {
    let mut index = MemoryIndex::new();
    index.upsert("k", "/m/k.md", &None, at(1));
    index.upsert("other", "/m/other.md", &None, at(2));
    index.upsert("k", "/m/k.md", &None, at(3));
    assert_eq!(index.entries.len(), 2);
    assert_eq!(index.entries[0].created_at, at(1));
    assert_eq!(index.entries[0].updated_at, at(3));
    assert_eq!(index.entries[1].key, "other");
}

#[test]
fn delete_then_read_finds_nothing() {
    let mut index = MemoryIndex::new();
    index.upsert("a", "/m/a.md", &None, at(1));
    index.upsert("b", "/m/b.md", &None, at(1));
    index.remove_key("a");
    assert_eq!(index.position("a"), None);
    assert_eq!(index.position("b"), Some(0));
    index.remove_key("missing");
    assert_eq!(index.entries.len(), 1);
}

#[test]
fn list_keys_by_prefix_and_existence() {
    let mut index = MemoryIndex::new();
    for k in ["notes/a", "todo", "notes/b"] {
        index.upsert(k, "/m/x.md", &None, at(1));
    }
    assert_eq!(index.list_keys(Some("notes/"), &vec![true, true, true]), vec!["notes/a", "notes/b"]);
    assert_eq!(index.list_keys(None, &vec![true, false, true]), vec!["notes/a", "notes/b"]);
    assert_eq!(index.list_keys(None, &vec![true, true, true]).len(), 3);
}

#[test]
fn search_matcher_accepts_regexes_and_falls_back_to_literals() {
    assert!(FileMemory::search_matcher("milk.*eggs").is_some());
    assert!(FileMemory::search_matcher("\\bnote\\b").is_some());
    assert!(FileMemory::search_matcher("unclosed (group").is_some());
}

fn entry(key: &str) -> MemoryEntry {
    MemoryEntry { key: key.to_string(), content: String::new(), metadata: None, created_at: at(0), updated_at: at(0) }
}

#[test]
fn search_results_keep_order_and_limit() {
    let found = vec![Some(entry("a")), None, Some(entry("b")), Some(entry("c"))];
    let hits = FileMemory::search_results(found, 2);
    let keys: Vec<&str> = hits.iter().map(|e| e.key.as_str()).collect();
    assert_eq!(keys, vec!["a", "b"]);
    let all = FileMemory::search_results(vec![None, Some(entry("z"))], 10);
    assert_eq!(all.len(), 1);
}

#[test]
fn search_hits_keys_tags_and_content() {
    let m = FileMemory::search_matcher("groc").unwrap();
    let tags = vec!["shopping".to_string(), "Groceries".to_string()];
    assert!(m.hits_entry("weekly_list", &tags, false));
    assert!(m.hits_entry("GROCERY_run", &Vec::new(), false));
    assert!(m.hits_entry("notes", &vec!["misc".to_string()], true));
    assert!(!m.hits_entry("notes", &vec!["misc".to_string()], false));
    let literal = FileMemory::search_matcher("a (b").unwrap();
    assert!(literal.hits_entry("x", &vec!["has a (b inside".to_string()], false));
    assert!(!literal.hits_entry("a b", &Vec::new(), false));
}
