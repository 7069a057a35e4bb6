use cctv_ingest::payload::extract_string;
use cctv_ingest::payload::AttrValue;
use cctv_ingest::payload::VectorPoint;
use cctv_ingest::store::VectorStore;

fn point(id: u64, label: &str) -> VectorPoint {
    VectorPoint {
        id,
        vector: vec![1, 2],
        payload: vec![("label".to_string(), AttrValue::Str(label.to_string()))],
    }
}

#[test]
fn upserting_twice_leaves_one_point_with_latest_values() {
    let mut store = VectorStore::new();
    store.upsert(point(7, "first"));
    store.upsert(point(7, "second"));
    assert_eq!(store.len(), 1);
    let p = store.get(7).unwrap();
    assert_eq!(extract_string(&p.payload, "label"), "second");
}

#[test]
fn upserting_the_same_point_twice_changes_nothing() {
    let mut store = VectorStore::new();
    store.upsert(point(7, "same"));
    store.upsert(point(7, "same"));
    assert_eq!(store.len(), 1);
    assert_eq!(extract_string(&store.get(7).unwrap().payload, "label"), "same");
}

#[test]
fn distinct_ids_coexist() {
    let mut store = VectorStore::new();
    store.upsert(point(1, "a"));
    store.upsert(point(2, "b"));
    assert_eq!(store.len(), 2);
    assert_eq!(extract_string(&store.get(1).unwrap().payload, "label"), "a");
    assert_eq!(extract_string(&store.get(2).unwrap().payload, "label"), "b");
    assert!(store.get(3).is_none());
}
