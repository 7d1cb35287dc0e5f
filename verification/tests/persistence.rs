use bugs::persistence::{
    compress_record, count_key, count_value, memory_capacity, record_key, record_payload, scene_file_name, scene_id_of_file,
    stored_count,
};

#[test]
fn capacities() {
    assert_eq!(memory_capacity(1), 2);
    assert_eq!(memory_capacity(50), 100);
    assert_eq!(memory_capacity(0), 1);
}

#[test]
fn scene_files_round_trip() {
    assert_eq!(scene_file_name(42), "42.redb");
    assert_eq!(scene_id_of_file("42.redb"), Some(42));
    assert_eq!(scene_id_of_file(&scene_file_name(u64::MAX)), Some(u64::MAX));
    assert_eq!(scene_id_of_file("global.redb"), None);
    assert_eq!(scene_id_of_file("42.db"), None);
    assert_eq!(scene_id_of_file(".redb"), None);
    assert_eq!(scene_id_of_file("18446744073709551616.redb"), None);
}

#[test]
fn record_keys_and_counts() {
    assert_eq!(record_key(0), vec![0u8; 8]);
    assert_eq!(record_key(258), vec![0, 0, 0, 0, 0, 0, 1, 2]);
    assert_eq!(count_key(), b"__count__".to_vec());
    assert_eq!(count_value(7), 7u64.to_be_bytes().to_vec());
    assert_eq!(stored_count(Some(count_value(123456789).as_slice())), 123456789);
    assert_eq!(stored_count(Some(count_value(u64::MAX).as_slice())), u64::MAX);
    assert_eq!(stored_count(Some(&[1, 2, 3])), 0);
    assert_eq!(stored_count(None), 0);
}

#[test]
fn records_are_compressed_and_read_back() {
    let data = b"{\"agent_id\":1,\"strength_cached\":8.0}".repeat(20);
    let stored = compress_record(&data).unwrap();
    assert_ne!(stored, data);
    assert!(stored.len() < data.len());
    assert_eq!(record_payload(&stored), data);
    assert_eq!(record_payload(b"plain bytes"), b"plain bytes".to_vec());
}
