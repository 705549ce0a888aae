use cs2ts::table::PathTable;

#[test]
fn a_table_maps_paths_to_values() {
    let table: PathTable<u64> = PathTable::new();
    assert_eq!(table.get("a"), None);
    let table = table.with("a".to_string(), 1).with("b".to_string(), 2);
    assert_eq!(table.get("a"), Some(&1));
    assert_eq!(table.get("b"), Some(&2));
    assert_eq!(table.get("c"), None);
    let table = table.with("a".to_string(), 3);
    assert_eq!(table.get("a"), Some(&3));
    assert_eq!(table.get("b"), Some(&2));
    assert_eq!(table.get("A"), None);
    assert_eq!(table.get(""), None);
}
