use composer::address_assignment::{
    capacity_within_bounds, slot_size_self_check, AddressAssignmentx86_64, AddressSpaceGroup,
    AssignError, ExclusiveComponent, BASE_OFFSET, SLOT_SIZE,
};
use composer::registry::Registry;

fn registry_of(names: &[&str]) -> Registry {
    Registry::new(names.iter().map(|s| s.to_string()).collect()).expect("unique names")
}

fn group(name: &str, parent: Option<&str>, components: &[&str]) -> AddressSpaceGroup {
    AddressSpaceGroup {
        name: name.to_string(),
        components: components.iter().map(|s| s.to_string()).collect(),
        parent: parent.map(|s| s.to_string()),
    }
}

fn exclusive(name: &str, base_vaddr: Option<&str>) -> ExclusiveComponent {
    ExclusiveComponent { name: name.to_string(), base_vaddr: base_vaddr.map(|s| s.to_string()) }
}

fn addr_of(reg: &Registry, asg: &AddressAssignmentx86_64, name: &str) -> u64 {
    let id = reg.lookup(&name.to_string()).expect("name in registry");
    asg.component_baseaddr(&id)
}

#[test]
fn slot_size_constants_consistent() {
    assert_eq!(
        u64::pow(u64::pow(2, 9), 3) * u64::pow(2, 12),
        u64::pow(2, 48) / u64::pow(2, 9)
    );
    assert_eq!(SLOT_SIZE, u64::pow(u64::pow(2, 9), 3) * u64::pow(2, 12));
    assert_eq!(BASE_OFFSET, 0x400000);
    assert!(slot_size_self_check());
}

#[test]
fn end_to_end_group_and_override() {
    let reg = registry_of(&["X", "Y", "Z"]);
    let groups = vec![group("G", None, &["X", "Y"])];
    let exclusives = vec![exclusive("Z", Some("0x800000"))];
    let (asg, warns) = AddressAssignmentx86_64::transition(&reg, &groups, &exclusives).unwrap();
    assert_eq!(addr_of(&reg, &asg, "X"), 0x400000);
    assert_eq!(addr_of(&reg, &asg, "Y"), 0x400000 + u64::pow(2, 39));
    assert_eq!(addr_of(&reg, &asg, "Z"), 0x800000);
    assert!(warns.is_empty());
}

#[test]
fn child_group_continues_parent() {
    let reg = registry_of(&["X", "Y", "Z", "W"]);
    let groups = vec![group("G", None, &["X", "Y"]), group("H", Some("G"), &["W"])];
    let exclusives = vec![exclusive("Z", Some("0x800000"))];
    let (asg, _) = AddressAssignmentx86_64::transition(&reg, &groups, &exclusives).unwrap();
    let y = addr_of(&reg, &asg, "Y");
    assert_eq!(addr_of(&reg, &asg, "W"), y + u64::pow(2, 39));
}

#[test]
fn group_addresses_stride_and_distinct() {
    let reg = registry_of(&["A", "B", "C"]);
    let groups = vec![group("G", None, &["A", "B", "C"])];
    let (asg, _) = AddressAssignmentx86_64::transition(&reg, &groups, &Vec::new()).unwrap();
    let a = addr_of(&reg, &asg, "A");
    let b = addr_of(&reg, &asg, "B");
    let c = addr_of(&reg, &asg, "C");
    assert_eq!(a, BASE_OFFSET);
    assert_eq!(b, a + SLOT_SIZE);
    assert_eq!(c, b + SLOT_SIZE);
    assert!(a != b && b != c && a != c);
}

#[test]
fn exclusive_without_override_uses_default() {
    let reg = registry_of(&["solo"]);
    let exclusives = vec![exclusive("solo", None)];
    let (asg, warns) =
        AddressAssignmentx86_64::transition(&reg, &Vec::new(), &exclusives).unwrap();
    assert_eq!(addr_of(&reg, &asg, "solo"), BASE_OFFSET);
    assert!(warns.is_empty());
}

#[test]
fn exclusive_with_valid_override_uses_it_verbatim() {
    let reg = registry_of(&["solo"]);
    let exclusives = vec![exclusive("solo", Some("0x12345"))];
    let (asg, warns) =
        AddressAssignmentx86_64::transition(&reg, &Vec::new(), &exclusives).unwrap();
    assert_eq!(addr_of(&reg, &asg, "solo"), 0x12345);
    assert!(warns.is_empty());
}

#[test]
fn malformed_override_warns_and_defaults() {
    let reg = registry_of(&["solo"]);
    let exclusives = vec![exclusive("solo", Some("0xZZZZ"))];
    let result = AddressAssignmentx86_64::transition(&reg, &Vec::new(), &exclusives);
    let (asg, warns) = result.unwrap();
    assert_eq!(addr_of(&reg, &asg, "solo"), BASE_OFFSET);
    assert_eq!(warns.len(), 1);
    assert_eq!(warns[0].component, "solo");
    assert_eq!(warns[0].base_vaddr, "0xZZZZ");
}

#[test]
fn override_without_marker_still_reads_as_hex() {
    let reg = registry_of(&["solo"]);
    let exclusives = vec![exclusive("solo", Some("800000"))];
    let (asg, warns) =
        AddressAssignmentx86_64::transition(&reg, &Vec::new(), &exclusives).unwrap();
    assert_eq!(addr_of(&reg, &asg, "solo"), 0x800000);
    assert!(warns.is_empty());
}

#[test]
fn override_parsing_edge_cases() {
    let parse_override = composer::hexaddr::parse_override;
    assert_eq!(parse_override("0x10"), Some(16));
    assert_eq!(parse_override("10"), Some(16));
    assert_eq!(parse_override("0x0x10"), Some(16));
    assert_eq!(parse_override("0xFFFFFFFFFFFFFFFF"), Some(u64::MAX));
    assert_eq!(parse_override("0xFFFFFFFFFFFFFFFFF"), None);
    assert_eq!(parse_override("0x10000000000000000"), None);
    assert_eq!(parse_override(""), None);
    assert_eq!(parse_override("0x"), None);
    assert_eq!(parse_override("0xZZZZ"), None);
    assert_eq!(parse_override("+10"), None);
    assert_eq!(parse_override("0x00000000000000000001"), Some(1));
    assert_eq!(parse_override("deadBEEF"), Some(0xdead_beef));
}

#[test]
fn warnings_come_in_declaration_order() {
    let reg = registry_of(&["one", "two", "three"]);
    let exclusives = vec![
        exclusive("one", Some("0xBROKEN")),
        exclusive("two", Some("0x2000")),
        exclusive("three", Some("also broken")),
    ];
    let (_, warns) = AddressAssignmentx86_64::transition(&reg, &Vec::new(), &exclusives).unwrap();
    assert_eq!(warns.len(), 2);
    assert_eq!(warns[0].component, "one");
    assert_eq!(warns[1].component, "three");
}

#[test]
fn empty_override_string_warns() {
    let reg = registry_of(&["solo"]);
    let exclusives = vec![exclusive("solo", Some(""))];
    let (asg, warns) =
        AddressAssignmentx86_64::transition(&reg, &Vec::new(), &exclusives).unwrap();
    assert_eq!(addr_of(&reg, &asg, "solo"), BASE_OFFSET);
    assert_eq!(warns.len(), 1);
}

#[test]
fn sibling_groups_restart_at_base() {
    // Two parentless groups occupy different address spaces: their numeric
    // addresses may legitimately coincide.
    let reg = registry_of(&["A", "B"]);
    let groups = vec![group("G", None, &["A"]), group("H", None, &["B"])];
    let (asg, _) = AddressAssignmentx86_64::transition(&reg, &groups, &Vec::new()).unwrap();
    assert_eq!(addr_of(&reg, &asg, "A"), BASE_OFFSET);
    assert_eq!(addr_of(&reg, &asg, "B"), BASE_OFFSET);
}

#[test]
fn assignment_is_total_over_registry() {
    let reg = registry_of(&["A", "B", "C"]);
    let groups = vec![group("G", None, &["B", "A"])];
    let exclusives = vec![exclusive("C", None)];
    let (asg, _) = AddressAssignmentx86_64::transition(&reg, &groups, &exclusives).unwrap();
    assert_eq!(asg.len(), reg.len());
    for name in ["A", "B", "C"] {
        // every registry component has exactly one entry, found by its id
        let _ = addr_of(&reg, &asg, name);
    }
}

#[test]
fn unknown_component_is_fatal() {
    let reg = registry_of(&["A"]);
    let groups = vec![group("G", None, &["A", "ghostly"])];
    match AddressAssignmentx86_64::transition(&reg, &groups, &Vec::new()) {
        Err(AssignError::UnknownComponent { name }) => assert_eq!(name, "ghostly"),
        other => panic!("expected an unknown-component error, got {:?}", other.is_ok()),
    }
}

#[test]
fn unassigned_parent_is_fatal() {
    // "H" names its parent "G", but "G" comes later: the processing order
    // violates the parent relation, an internal invariant violation.
    let reg = registry_of(&["A", "B"]);
    let groups = vec![group("H", Some("G"), &["A"]), group("G", None, &["B"])];
    match AddressAssignmentx86_64::transition(&reg, &groups, &Vec::new()) {
        Err(AssignError::UnassignedParent { group, parent }) => {
            assert_eq!(group, "H");
            assert_eq!(parent, "G");
        },
        other => panic!("expected an unassigned-parent error, got {:?}", other.is_ok()),
    }
}

#[test]
fn unplaced_component_is_fatal() {
    let reg = registry_of(&["A", "B"]);
    let groups = vec![group("G", None, &["A"])];
    match AddressAssignmentx86_64::transition(&reg, &groups, &Vec::new()) {
        Err(AssignError::UnplacedComponent { name }) => assert_eq!(name, "B"),
        other => panic!("expected an unplaced-component error, got {:?}", other.is_ok()),
    }
}

#[test]
fn duplicate_placement_is_fatal() {
    let reg = registry_of(&["A", "B"]);
    let groups = vec![group("G", None, &["A", "B"])];
    let exclusives = vec![exclusive("B", None)];
    match AddressAssignmentx86_64::transition(&reg, &groups, &exclusives) {
        Err(AssignError::DuplicatePlacement { name }) => assert_eq!(name, "B"),
        other => panic!("expected a duplicate-placement error, got {:?}", other.is_ok()),
    }
}

#[test]
fn registry_refuses_reused_names() {
    assert!(Registry::new(vec!["A".to_string(), "B".to_string(), "A".to_string()]).is_none());
}

#[test]
fn registry_lookup_resolves_declared_names_only() {
    let reg = registry_of(&["first", "second"]);
    assert_eq!(reg.lookup(&"first".to_string()).unwrap().id, 0);
    assert_eq!(reg.lookup(&"second".to_string()).unwrap().id, 1);
    assert!(reg.lookup(&"third".to_string()).is_none());
}

#[test]
fn capacity_check_accepts_small_groups() {
    let groups = vec![group("G", None, &["A", "B", "C"])];
    assert!(capacity_within_bounds(&groups));
}

#[test]
fn assignments_are_idempotent() {
    let reg = registry_of(&["X", "Y", "Z", "W"]);
    let groups = vec![group("G", None, &["X", "Y"]), group("H", Some("G"), &["W"])];
    let exclusives = vec![exclusive("Z", Some("0x800000"))];
    let (a1, w1) = AddressAssignmentx86_64::transition(&reg, &groups, &exclusives).unwrap();
    let (a2, w2) = AddressAssignmentx86_64::transition(&reg, &groups, &exclusives).unwrap();
    for name in ["X", "Y", "Z", "W"] {
        assert_eq!(addr_of(&reg, &a1, name), addr_of(&reg, &a2, name));
    }
    assert_eq!(w1.len(), w2.len());
}
