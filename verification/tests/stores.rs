use blob_registry::error::Error;
use blob_registry::storage::blobs::BlobStore;
use blob_registry::storage::table::ByteTable;
use blob_registry::storage::uploads::UploadTable;

#[test]
fn table_put_replaces_and_remove_detaches() {
    let mut t = ByteTable::new();
    let k = "k".to_string();
    assert_eq!(t.len_of(&k), None);
    t.put(k.clone(), vec![1, 2, 3]);
    t.put("other".to_string(), vec![9]);
    assert_eq!(t.len_of(&k), Some(3));
    t.put(k.clone(), vec![4, 5]);
    assert_eq!(t.len_of(&k), Some(2));
    assert_eq!(t.extend(&k, &[6, 7, 8]), Some(5));
    assert_eq!(t.extend(&"absent".to_string(), &[1]), None);
    assert_eq!(t.remove(&k), Some(vec![4, 5, 6, 7, 8]));
    assert_eq!(t.remove(&k), None);
    assert_eq!(t.len_of(&k), None);
    assert_eq!(t.len_of(&"other".to_string()), Some(1));
}

#[test]
fn upload_table_appends_only_at_the_end() {
    let mut t = UploadTable::new();
    let id = t.create();
    assert_eq!(t.get(&id), Some(0));
    assert_eq!(t.append(&id, 0, b"hello"), Ok(5));
    assert_eq!(t.append(&id, 3, b"xx"), Err(Error::OffsetConflict { current_length: 5 }));
    assert_eq!(t.append(&id, 6, b"xx"), Err(Error::OffsetConflict { current_length: 5 }));
    assert_eq!(t.get(&id), Some(5));
    assert_eq!(t.append(&id, 5, b", world"), Ok(12));
    assert_eq!(t.append(&"missing".to_string(), 0, b"x"), Err(Error::SessionNotFound));
    assert_eq!(t.remove(&id), Some(b"hello, world".to_vec()));
    assert_eq!(t.get(&id), None);
    assert_eq!(t.remove(&id), None);
}

#[test]
fn rejected_append_leaves_every_byte() {
    let mut t = UploadTable::new();
    let id = "s".to_string();
    t.create_with_id(id.clone());
    assert_eq!(t.append(&id, 0, &[10, 20, 30]), Ok(3));
    assert_eq!(t.append(&id, 2, &[99]), Err(Error::OffsetConflict { current_length: 3 }));
    assert_eq!(t.remove(&id), Some(vec![10, 20, 30]));
}

#[test]
fn an_id_opened_again_starts_over() {
    let mut t = UploadTable::new();
    let id = "same".to_string();
    t.create_with_id(id.clone());
    assert_eq!(t.append(&id, 0, b"abc"), Ok(3));
    t.create_with_id(id.clone());
    assert_eq!(t.get(&id), Some(0));
}

#[test]
fn blob_store_put_and_get() {
    let mut s = BlobStore::new();
    let d = "sha256:abc".to_string();
    assert_eq!(s.get(&d), None);
    s.put(d.clone(), vec![0; 5]);
    assert_eq!(s.get(&d), Some(5));
    s.put(d.clone(), Vec::new());
    assert_eq!(s.get(&d), Some(0));
}
