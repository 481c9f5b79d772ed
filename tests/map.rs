use fxt2txt::FxtMap;

#[test]
fn map_insert_replaces_value() {
    let mut m = FxtMap::new();
    assert_eq!(m.len(), 0);
    m.insert("k".to_string(), "v1".to_string());
    m.insert("j".to_string(), "w".to_string());
    m.insert("k".to_string(), "v2".to_string());
    assert_eq!(m.len(), 2);
    assert_eq!(m.get("k").unwrap(), "v2");
    assert_eq!(m.get("j").unwrap(), "w");
    assert!(m.get("x").is_none());
}
