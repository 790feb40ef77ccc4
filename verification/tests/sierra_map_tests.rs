use tracer::sierra_map::{make_casm_to_sierra_map, StatementDebugInfo};

fn infos(offsets: &[usize]) -> Vec<StatementDebugInfo> {
    offsets
        .iter()
        .map(|&instruction_idx| StatementDebugInfo { instruction_idx })
        .collect()
}

#[test]
fn reconcile_shifts_by_header_length() {
    // Offsets [0, 0, 3] with a two-instruction header.
    let map = make_casm_to_sierra_map(&infos(&[0, 0, 3]), 2);
    assert_eq!(map.len(), 2);
    assert_eq!(map.get(&2), Some(&vec![0, 1]));
    assert_eq!(map.get(&5), Some(&vec![2]));
    assert!(!map.contains_key(&0));
    assert!(!map.contains_key(&3));
}

#[test]
fn reconcile_empty_metadata() {
    let map = make_casm_to_sierra_map(&infos(&[]), 7);
    assert!(map.is_empty());
}

#[test]
fn reconcile_keeps_statement_order() {
    let map = make_casm_to_sierra_map(&infos(&[7, 7, 7]), 0);
    assert_eq!(map.len(), 1);
    assert_eq!(map.get(&7), Some(&vec![0, 1, 2]));
}

#[test]
fn reconcile_gathers_interleaved_statements() {
    // Statements 0 and 2 share a key; their list stays ascending.
    let map = make_casm_to_sierra_map(&infos(&[5, 2, 5]), 0);
    assert_eq!(map.len(), 2);
    assert_eq!(map.get(&5), Some(&vec![0, 2]));
    assert_eq!(map.get(&2), Some(&vec![1]));
}

#[test]
fn reconcile_without_header() {
    let map = make_casm_to_sierra_map(&infos(&[1, 4]), 0);
    assert_eq!(map.get(&1), Some(&vec![0]));
    assert_eq!(map.get(&4), Some(&vec![1]));
    assert_eq!(map.len(), 2);
}
