use avmnif::atom_table::{AtomIndex, EnsureAtomsOpt, MockAtomTable};
use avmnif::registry::{MockResourceManager, MockResourceManagerState};

#[test]
fn test_mock_atom_table_basic_operations() {
    let mut table = MockAtomTable::new();

    // Test atom creation
    let ok_atom = table.ensure_atom_str("ok").unwrap();
    let error_atom = table.ensure_atom_str("error").unwrap();

    // Test that same name returns same index
    let ok_atom2 = table.ensure_atom_str("ok").unwrap();
    assert_eq!(ok_atom, ok_atom2);

    // Test that different names return different indices
    assert_ne!(ok_atom, error_atom);

    // Test atom string comparison
    assert!(table.atom_equals_str(ok_atom, "ok"));
    assert!(!table.atom_equals_str(ok_atom, "error"));
    assert!(table.atom_equals_str(error_atom, "error"));
    assert!(!table.atom_equals_str(error_atom, "ok"));
}

#[test]
fn test_mock_atom_table_reverse_lookup() {
    let mut table = MockAtomTable::new();

    let hello_atom = table.ensure_atom_str("hello").unwrap();
    let world_atom = table.ensure_atom_str("world").unwrap();

    // Test reverse lookup
    assert_eq!(table.get_atom_name(hello_atom), Some("hello".to_string()));
    assert_eq!(table.get_atom_name(world_atom), Some("world".to_string()));

    // Test non-existent atom
    assert_eq!(table.get_atom_name(AtomIndex(9999)), None);
}

#[test]
fn test_mock_atom_table_byte_operations() {
    let mut table = MockAtomTable::new();

    // Test ensure_atom with bytes
    let test_atom = table.ensure_atom(b"test").unwrap();
    assert!(table.atom_equals(test_atom, b"test"));
    assert!(!table.atom_equals(test_atom, b"other"));

    // Test find_atom
    let found = table.find_atom(b"test").unwrap();
    assert_eq!(found, test_atom);

    // Test find non-existent
    assert!(table.find_atom(b"nonexistent").is_err());
}

#[test]
fn test_mock_atom_table_compare() {
    let mut table = MockAtomTable::new();

    let atom_a = table.ensure_atom_str("aaa").unwrap();
    let atom_b = table.ensure_atom_str("bbb").unwrap();
    let atom_a2 = table.ensure_atom_str("aaa").unwrap();

    // Test comparison
    assert!(table.compare_atoms(atom_a, atom_b) < 0);  // "aaa" < "bbb"
    assert!(table.compare_atoms(atom_b, atom_a) > 0);  // "bbb" > "aaa"
    assert_eq!(table.compare_atoms(atom_a, atom_a2), 0); // "aaa" == "aaa"
}

#[test]
fn test_mock_atom_table_count() {
    let mut table = MockAtomTable::new();

    // Should start with pre-populated atoms
    let initial_count = table.count();
    assert!(initial_count > 0);

    // Add a new atom
    let _ = table.ensure_atom_str("new_atom").unwrap();
    assert_eq!(table.count(), initial_count + 1);

    // Adding same atom shouldn't increase count
    let _ = table.ensure_atom_str("new_atom").unwrap();
    assert_eq!(table.count(), initial_count + 1);
}

#[test]
fn test_mock_atom_table_isolation() {
    // Test that new() creates isolated instances
    let mut table1 = MockAtomTable::new();
    let mut table2 = MockAtomTable::new();

    let atom1 = table1.ensure_atom_str("isolated").unwrap();

    // table2 shouldn't know about atoms from table1
    assert!(!table2.atom_equals_str(atom1, "isolated"));

    // But it can create its own
    let atom2 = table2.ensure_atom_str("isolated").unwrap();
    assert!(table2.atom_equals_str(atom2, "isolated"));

    // Both tables have the same pre-populated atoms, so "isolated" gets index 22 in both
    // This is actually correct behavior - the tables are isolated but deterministic
    assert_eq!(atom1, atom2); // Same index because same pre-population

    // Verify true isolation: table1 shouldn't accept table2's atoms for different strings
    let table1_unique = table1.ensure_atom_str("table1_only").unwrap();
    assert!(!table2.atom_equals_str(table1_unique, "table1_only"));

    let table2_unique = table2.ensure_atom_str("table2_only").unwrap(); 
    assert!(!table1.atom_equals_str(table2_unique, "table2_only"));

    // These unique atoms will have the same index (23) because they're the first unique atom
    // created in each table after "isolated", but they're in different tables
    assert_eq!(table1_unique, table2_unique); // Same index, different tables (correct behavior)
}

#[test]
fn test_mock_atom_table_empty() {
    let mut table = MockAtomTable::new_empty();

    // Should start with no atoms
    assert_eq!(table.count(), 0);

    // Add an atom
    let hello_atom = table.ensure_atom_str("hello").unwrap();
    assert_eq!(table.count(), 1);
    assert!(table.atom_equals_str(hello_atom, "hello"));
}

#[test]
fn test_mock_atom_table_with_custom_atoms() {
    let custom_atoms = ["red", "green", "blue"];
    let mut table = MockAtomTable::new_with_atoms(&custom_atoms);

    // Should have exactly the custom atoms
    assert_eq!(table.count(), 3);

    // All custom atoms should exist
    for atom_name in &custom_atoms {
        let atom_idx = table.find_atom_str(atom_name).unwrap();
        assert!(table.atom_equals_str(atom_idx, atom_name));
    }

    // Other atoms should not exist
    assert!(table.find_atom_str("yellow").is_err());
}

#[test]
fn test_mock_atom_table_clear() {
    let mut table = MockAtomTable::new();

    // Should start with pre-populated atoms
    assert!(table.count() > 0);

    // Clear all atoms
    table.clear();
    assert_eq!(table.count(), 0);

    // Can add new atoms after clearing
    let hello_atom = table.ensure_atom_str("hello").unwrap();
    assert_eq!(table.count(), 1);
    assert!(table.atom_equals_str(hello_atom, "hello"));
}

#[test]
fn test_mock_atom_table_list_all() {
    let mut table = MockAtomTable::new_with_atoms(&["a", "b", "c"]);

    let all_atoms = table.list_all_atoms();
    assert_eq!(all_atoms.len(), 3);

    // Should contain all our atoms
    let atom_names: Vec<String> = all_atoms.into_iter()
        .map(|(_, name)| name)
        .collect();
    assert!(atom_names.contains(&"a".to_string()));
    assert!(atom_names.contains(&"b".to_string()));
    assert!(atom_names.contains(&"c".to_string()));
}

#[test]
fn test_mock_atom_table_error_conditions() {
    let mut table = MockAtomTable::new();

    // Test name too long
    let long_name = "a".repeat(256);
    assert!(table.ensure_atom_str(&long_name).is_err());

    // Test reverse lookup of non-existent atom
    assert_eq!(table.get_atom_name(AtomIndex(99999)), None);

    // Test bulk operations return error
    assert!(table.ensure_atoms_bulk(&[], 0, EnsureAtomsOpt::Standard).is_err());
}

#[test]
fn test_mock_resource_manager_creation() {
    let manager = MockResourceManager::new();
    assert_eq!(manager.get_resource_count(), 0);
    assert_eq!(manager.get_resource_type_count(), 0);
    assert_eq!(manager.get_monitor_count(), 0);
}

#[test]
fn test_mock_resource_manager_builder_pattern() {
    let manager = MockResourceManager::new()
        .with_max_resources(5)
        .with_max_monitors(3);

    assert_eq!(manager.state.max_resources, Some(5));
    assert_eq!(manager.state.max_monitors, Some(3));
}

#[test]
fn test_mock_resource_manager_error_injection() {
    let mut manager = MockResourceManager::new();

    // Test that failure flags work
    manager.set_fail_init(true);
    assert!(manager.state.fail_init);

    manager.set_fail_alloc(true);
    assert!(manager.state.fail_alloc);

    manager.set_fail_make_resource(true);
    assert!(manager.state.fail_make_resource);

    manager.set_fail_get_resource(true);
    assert!(manager.state.fail_get_resource);
}

#[test]
fn test_mock_resource_manager_state_tracking() {
    let manager = MockResourceManager::new();

    // Test initial counts
    assert_eq!(manager.get_init_call_count(), 0);
    assert_eq!(manager.get_alloc_call_count(), 0);
    assert_eq!(manager.get_destructor_call_count(), 0);

    // Test that state can be reset
    let mut manager = manager;
    manager.state.init_calls.push("test".to_string());
    assert_eq!(manager.get_init_call_count(), 1);

    manager.reset();
    assert_eq!(manager.get_init_call_count(), 0);
}
