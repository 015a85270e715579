use falcon_net::dispatch::{
    LitIntBool, LitIntValue, PacketIdMapping, PacketMappings, PacketVersions, VersionMappings,
};

fn claim(kind: u32, id: i32, versions: Vec<LitIntValue>) -> PacketMappings {
    PacketMappings { kind, mappings: vec![PacketIdMapping { id, versions }] }
}

#[test]
fn overlapping_explicit_versions_conflict() {
    // Two kinds both claim id 1 at version 5: ambiguous, construction fails.
    let mappings = vec![
        claim(1, 1, vec![LitIntValue::Number(5)]),
        claim(2, 1, vec![LitIntValue::Number(5)]),
    ];
    let (_, conflicts) = VersionMappings::validate_mappings(mappings);
    assert_eq!(conflicts.len(), 1);
    assert_eq!(conflicts[0].kind_a, 1);
    assert_eq!(conflicts[0].kind_b, 2);
    assert_eq!(conflicts[0].id_a, 1);
}

#[test]
fn disjoint_version_sets_are_allowed() {
    // Kind 1 claims id 1 at versions {1, 2}; kind 2 at versions {3, 4}.
    let mappings = vec![
        claim(1, 1, vec![LitIntValue::Number(1), LitIntValue::Number(2)]),
        claim(2, 1, vec![LitIntValue::Number(3), LitIntValue::Number(4)]),
    ];
    let (table, conflicts) = VersionMappings::validate_mappings(mappings);
    assert!(conflicts.is_empty());
    assert_eq!(table.lookup_kind(1, 1), Some(1));
    assert_eq!(table.lookup_kind(2, 1), Some(1));
    assert_eq!(table.lookup_kind(3, 1), Some(2));
    assert_eq!(table.lookup_kind(4, 1), Some(2));
    assert_eq!(table.lookup_id(1, 1), Some(1));
    assert_eq!(table.lookup_id(4, 2), Some(1));
}

#[test]
fn wildcard_overlap_conflicts() {
    // A wildcard claim overlaps every explicit version of the other kind.
    let mappings = vec![
        claim(1, 1, vec![LitIntValue::Any]),
        claim(2, 1, vec![LitIntValue::Number(7)]),
    ];
    let (_, conflicts) = VersionMappings::validate_mappings(mappings);
    assert_eq!(conflicts.len(), 1);
}

#[test]
fn same_kind_two_ids_one_version_conflicts() {
    let mappings = vec![PacketMappings {
        kind: 1,
        mappings: vec![
            PacketIdMapping { id: 1, versions: vec![LitIntValue::Number(5)] },
            PacketIdMapping { id: 2, versions: vec![LitIntValue::Number(5)] },
        ],
    }];
    let (_, conflicts) = VersionMappings::validate_mappings(mappings);
    assert_eq!(conflicts.len(), 1);
    assert_eq!(conflicts[0].kind_a, conflicts[0].kind_b);
}

#[test]
fn wildcard_and_explicit_id_of_one_kind_conflict() {
    // One kind claiming id 1 everywhere and id 2 at version 5 is flagged:
    // the wildcard overlaps the explicit claim, so the kind would carry two
    // ids at version 5. The overlapping claim is excluded from the table;
    // the wildcard keeps resolving.
    let mappings = vec![PacketMappings {
        kind: 9,
        mappings: vec![
            PacketIdMapping { id: 1, versions: vec![LitIntValue::Any] },
            PacketIdMapping { id: 2, versions: vec![LitIntValue::Number(5)] },
        ],
    }];
    let (table, conflicts) = VersionMappings::validate_mappings(mappings);
    assert_eq!(conflicts.len(), 1);
    assert_eq!(conflicts[0].kind_a, conflicts[0].kind_b);
    assert_eq!(table.lookup_id(5, 9), Some(1));
    assert_eq!(table.lookup_id(6, 9), Some(1));
    assert_eq!(table.lookup_kind(6, 1), Some(9));
    assert_eq!(table.lookup_kind(5, 2), None);
}

#[test]
fn unrecognized_id_resolves_to_none() {
    let mappings = vec![claim(1, 1, vec![LitIntValue::Number(5)])];
    let (table, conflicts) = VersionMappings::validate_mappings(mappings);
    assert!(conflicts.is_empty());
    assert_eq!(table.lookup_kind(5, 99), None);
    assert_eq!(table.lookup_kind(6, 1), None);
    assert_eq!(table.lookup_id(5, 42), None);
}

#[test]
fn insert_excludes_version_held_by_another_id() {
    // A version already claimed by a different id of the same kind is a
    // conflict of the kind with itself: it joins neither the list nor the
    // result.
    let mut pv = PacketVersions::new();
    let _ = pv.insert(1, vec![LitIntValue::Number(3)]);
    let added = pv.insert(2, vec![LitIntValue::Number(3), LitIntValue::Number(4)]);
    assert_eq!(added, vec![LitIntValue::Number(4)]);
    assert!(!pv.has_id_version(2, &LitIntBool::new(LitIntValue::Number(3))));
    assert_eq!(
        pv.into_mappings(),
        vec![(1, LitIntValue::Number(3)), (2, LitIntValue::Number(4))]
    );
}

#[test]
fn insert_excludes_wildcard_overlap() {
    let mut pv = PacketVersions::new();
    let _ = pv.insert(1, vec![LitIntValue::Any]);
    let added = pv.insert(2, vec![LitIntValue::Number(5)]);
    assert!(added.is_empty());
    assert_eq!(pv.into_mappings(), vec![(1, LitIntValue::Any)]);
}

#[test]
fn conflict_list_reports_each_pair_once() {
    // Three kinds all claim id 1 at version 5: three conflicting pairs.
    let mappings = vec![
        claim(1, 1, vec![LitIntValue::Number(5)]),
        claim(2, 1, vec![LitIntValue::Number(5)]),
        claim(3, 1, vec![LitIntValue::Number(5)]),
    ];
    let (_, conflicts) = VersionMappings::validate_mappings(mappings);
    assert_eq!(conflicts.len(), 3);
    assert_eq!((conflicts[0].kind_a, conflicts[0].kind_b), (1, 2));
    assert_eq!((conflicts[1].kind_a, conflicts[1].kind_b), (1, 3));
    assert_eq!((conflicts[2].kind_a, conflicts[2].kind_b), (2, 3));
}

#[test]
fn packet_versions_insert_dedups() {
    let mut pv = PacketVersions::new();
    let added = pv.insert(1, vec![LitIntValue::Number(3), LitIntValue::Number(3)]);
    assert_eq!(added, vec![LitIntValue::Number(3)]);
    let added_again = pv.insert(1, vec![LitIntValue::Number(3), LitIntValue::Number(4)]);
    assert_eq!(added_again, vec![LitIntValue::Number(4)]);
}

#[test]
fn packet_versions_has_id_version() {
    let mut pv = PacketVersions::new();
    let _ = pv.insert(1, vec![LitIntValue::Number(3)]);
    assert!(pv.has_id_version(1, &LitIntBool::new(LitIntValue::Number(3))));
    assert!(pv.has_id_version(1, &LitIntBool::new(LitIntValue::Any)));
    assert!(!pv.has_id_version(1, &LitIntBool::new(LitIntValue::Number(4))));
    assert!(!pv.has_id_version(2, &LitIntBool::new(LitIntValue::Number(3))));
    let claims = pv.into_mappings();
    assert_eq!(claims, vec![(1, LitIntValue::Number(3))]);
}

#[test]
fn lit_int_bool_reporting_flag() {
    let mut v = LitIntBool::new(LitIntValue::Number(5));
    assert!(!v.is_true());
    v.toggle();
    assert!(v.is_true());
    assert!(v.logical_eq(&LitIntBool::new(LitIntValue::Any)));
    assert!(v.logical_eq(&LitIntBool::new(LitIntValue::Number(5))));
    assert!(!v.logical_eq(&LitIntBool::new(LitIntValue::Number(6))));
    assert!(LitIntBool::new(LitIntValue::Any).logical_eq(&LitIntBool::new(LitIntValue::Number(1))));
}
