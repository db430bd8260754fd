use flasherd::uploads::UploadStore;

#[test]
fn appends_concatenate_in_arrival_order() {
    let mut store = UploadStore::new();
    store.append(9, &b"tool.bin".to_vec(), &b"ABC".to_vec());
    store.append(9, &b"tool.bin".to_vec(), &b"DEF".to_vec());
    store.append(9, &b"tool.bin".to_vec(), &b"G".to_vec());
    assert_eq!(store.get(9, &b"tool.bin".to_vec()), Some(&b"ABCDEFG".to_vec()));
}

#[test]
fn append_never_overwrites_other_keys() {
    let mut store = UploadStore::new();
    store.append(1, &b"a".to_vec(), &b"one".to_vec());
    store.append(2, &b"a".to_vec(), &b"two".to_vec());
    store.append(1, &b"b".to_vec(), &b"three".to_vec());
    store.append(1, &b"a".to_vec(), &b"!".to_vec());
    assert_eq!(store.get(1, &b"a".to_vec()), Some(&b"one!".to_vec()));
    assert_eq!(store.get(2, &b"a".to_vec()), Some(&b"two".to_vec()));
    assert_eq!(store.get(1, &b"b".to_vec()), Some(&b"three".to_vec()));
}

#[test]
fn missing_keys_store_nothing() {
    let mut store = UploadStore::new();
    assert_eq!(store.get(1, &b"a".to_vec()), None);
    store.append(1, &b"a".to_vec(), &b"x".to_vec());
    assert_eq!(store.get(1, &b"b".to_vec()), None);
    assert_eq!(store.get(2, &b"a".to_vec()), None);
}

#[test]
fn empty_chunks_are_appended() {
    let mut store = UploadStore::new();
    store.append(5, &b"t".to_vec(), &Vec::new());
    assert_eq!(store.get(5, &b"t".to_vec()), Some(&Vec::new()));
    store.append(5, &b"t".to_vec(), &b"x".to_vec());
    assert_eq!(store.get(5, &b"t".to_vec()), Some(&b"x".to_vec()));
}
