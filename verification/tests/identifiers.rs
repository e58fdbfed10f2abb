use splinter::error::SplinterError;
use splinter::ids::IdGenerator;
use splinter::mapping::{EntityData, SplinterMapping};

#[test]
fn generator_starts_from_one_and_counts_up() {
    let mut ids = IdGenerator::new(10);
    assert_eq!(ids.count(), 0);
    assert_eq!(ids.take_id(), Some(1));
    assert_eq!(ids.take_id(), Some(2));
    assert_eq!(ids.take_id(), Some(3));
    assert_eq!(ids.count(), 3);
    assert!(!ids.is_exhausted());
}

#[test]
fn generator_output_is_strictly_increasing() {
    let mut ids = IdGenerator::new(1000);
    let mut last = 0;
    for _ in 0..1000 {
        let id = ids.take_id().unwrap();
        assert!(id > last);
        last = id;
    }
    assert_eq!(last, 1000);
}

#[test]
fn generator_stops_at_its_limit() {
    let mut ids = IdGenerator::new(2);
    assert_eq!(ids.take_id(), Some(1));
    assert_eq!(ids.take_id(), Some(2));
    assert!(ids.is_exhausted());
    assert_eq!(ids.take_id(), None);
    assert_eq!(ids.take_id(), None);
    assert_eq!(ids.count(), 2);
}

#[test]
fn generator_with_limit_zero_hands_out_nothing() {
    let mut ids = IdGenerator::new(0);
    assert!(ids.is_exhausted());
    assert_eq!(ids.take_id(), None);
}

#[test]
fn first_entity_gets_id_one() {
    let mut mapping = SplinterMapping::new();
    assert_eq!(mapping.map_eid_server_to_proxy(7, 1000, 42), Ok(1));
}

#[test]
fn entity_mapping_round_trip() {
    let mut mapping = SplinterMapping::new();
    let a = mapping.map_eid_server_to_proxy(7, 1000, 42).unwrap();
    let b = mapping.map_eid_server_to_proxy(8, 1000, 43).unwrap();
    let c = mapping.map_eid_server_to_proxy(7, -5, 44).unwrap();
    assert_eq!(mapping.map_eid_proxy_to_server(a), Ok((7, 1000)));
    assert_eq!(mapping.map_eid_proxy_to_server(b), Ok((8, 1000)));
    assert_eq!(mapping.map_eid_proxy_to_server(c), Ok((7, -5)));
}

#[test]
fn entity_mapping_is_stable() {
    let mut mapping = SplinterMapping::new();
    let first = mapping.map_eid_server_to_proxy(7, 1000, 42).unwrap();
    for other in 0..50 {
        mapping.map_eid_server_to_proxy(3, other, 1).unwrap();
    }
    assert_eq!(mapping.map_eid_server_to_proxy(7, 1000, 42), Ok(first));
    assert_eq!(mapping.map_eid_server_to_proxy(7, 1000, 99), Ok(first));
}

#[test]
fn entity_ids_are_fresh_and_increasing() {
    let mut mapping = SplinterMapping::new();
    let mut seen = Vec::new();
    for e in 0..100 {
        let id = mapping.map_eid_server_to_proxy(1, e, 0).unwrap();
        assert!(seen.iter().all(|s| *s < id));
        seen.push(id);
    }
    assert_eq!(seen, (1..=100).collect::<Vec<i32>>());
}

#[test]
fn same_backend_eid_on_two_backends_gets_two_ids() {
    let mut mapping = SplinterMapping::new();
    let a = mapping.map_eid_server_to_proxy(0, 5, 1).unwrap();
    let b = mapping.map_eid_server_to_proxy(1, 5, 1).unwrap();
    assert_ne!(a, b);
}

#[test]
fn unmapped_proxy_eid_is_not_mapped() {
    let mut mapping = SplinterMapping::new();
    assert_eq!(mapping.map_eid_proxy_to_server(1), Err(SplinterError::NotMapped));
    mapping.map_eid_server_to_proxy(7, 1000, 42).unwrap();
    assert_eq!(mapping.map_eid_proxy_to_server(2), Err(SplinterError::NotMapped));
    assert_eq!(mapping.map_eid_proxy_to_server(0), Err(SplinterError::NotMapped));
    assert_eq!(mapping.map_eid_proxy_to_server(-1), Err(SplinterError::NotMapped));
}

#[test]
fn entity_type_is_recorded_at_first_sight() {
    let mut mapping = SplinterMapping::new();
    let id = mapping.map_eid_server_to_proxy(7, 1000, 42).unwrap();
    assert_eq!(mapping.entity_data(id), Some(EntityData { id, entity_type: 42 }));
    mapping.map_eid_server_to_proxy(7, 1000, 99).unwrap();
    assert_eq!(mapping.entity_data(id), Some(EntityData { id, entity_type: 42 }));
    assert_eq!(mapping.entity_data(id + 1), None);
}

#[test]
fn uuid_mapping_round_trip() {
    let mut mapping = SplinterMapping::new();
    let backend_uuid = 0x1234_5678_9abc_def0_1234_5678_9abc_def0u128;
    let a = mapping.map_uuid_server_to_proxy(3, backend_uuid).unwrap();
    let b = mapping.map_uuid_server_to_proxy(4, backend_uuid).unwrap();
    assert_eq!(a, 1);
    assert_eq!(b, 2);
    assert_eq!(mapping.map_uuid_proxy_to_server(a), Ok((3, backend_uuid)));
    assert_eq!(mapping.map_uuid_proxy_to_server(b), Ok((4, backend_uuid)));
}

#[test]
fn uuid_mapping_is_stable() {
    let mut mapping = SplinterMapping::new();
    let first = mapping.map_uuid_server_to_proxy(3, 77).unwrap();
    mapping.map_uuid_server_to_proxy(3, 78).unwrap();
    mapping.map_uuid_server_to_proxy(9, 77).unwrap();
    assert_eq!(mapping.map_uuid_server_to_proxy(3, 77), Ok(first));
}

#[test]
fn unmapped_proxy_uuid_is_not_mapped() {
    let mapping = SplinterMapping::new();
    assert_eq!(mapping.map_uuid_proxy_to_server(1), Err(SplinterError::NotMapped));
}

#[test]
fn entity_ids_and_uuids_are_allocated_apart() {
    let mut mapping = SplinterMapping::new();
    assert_eq!(mapping.map_eid_server_to_proxy(0, 1, 0), Ok(1));
    assert_eq!(mapping.map_eid_server_to_proxy(0, 2, 0), Ok(2));
    assert_eq!(mapping.map_uuid_server_to_proxy(0, 1), Ok(1));
    assert_eq!(mapping.map_eid_server_to_proxy(0, 3, 0), Ok(3));
    assert_eq!(mapping.map_uuid_server_to_proxy(0, 2), Ok(2));
}

#[test]
fn entity_ids_run_out_at_the_limit() {
    let mut mapping = SplinterMapping::with_limits(2, 10);
    assert_eq!(mapping.map_eid_server_to_proxy(0, 10, 0), Ok(1));
    assert_eq!(mapping.map_eid_server_to_proxy(0, 11, 0), Ok(2));
    assert_eq!(mapping.map_eid_server_to_proxy(0, 12, 0), Err(SplinterError::IdsExhausted));
    assert_eq!(mapping.map_eid_server_to_proxy(0, 12, 0), Err(SplinterError::IdsExhausted));
    assert_eq!(mapping.map_eid_server_to_proxy(0, 10, 0), Ok(1));
    assert_eq!(mapping.map_eid_proxy_to_server(3), Err(SplinterError::NotMapped));
    assert_eq!(mapping.map_uuid_server_to_proxy(0, 1), Ok(1));
}

#[test]
fn uuids_run_out_at_the_limit() {
    let mut mapping = SplinterMapping::with_limits(10, 1);
    assert_eq!(mapping.map_uuid_server_to_proxy(0, 77), Ok(1));
    assert_eq!(mapping.map_uuid_server_to_proxy(0, 78), Err(SplinterError::IdsExhausted));
    assert_eq!(mapping.map_uuid_server_to_proxy(0, 77), Ok(1));
    assert_eq!(mapping.map_eid_server_to_proxy(0, 1, 0), Ok(1));
}

#[test]
fn a_table_with_limit_zero_maps_nothing() {
    let mut mapping = SplinterMapping::with_limits(0, 0);
    assert_eq!(mapping.map_eid_server_to_proxy(0, 1, 0), Err(SplinterError::IdsExhausted));
    assert_eq!(mapping.map_uuid_server_to_proxy(0, 1), Err(SplinterError::IdsExhausted));
}

#[test]
fn an_entity_limit_above_the_largest_id_is_cut() {
    let mut mapping = SplinterMapping::with_limits(u64::MAX, u64::MAX);
    assert_eq!(mapping.map_eid_server_to_proxy(0, 1, 0), Ok(1));
}
