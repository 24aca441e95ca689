use notification_worker::store::{archive_key, archive_write, StoreWrite};

#[test]
fn archive_key_is_the_prefix_and_the_tag() {
    assert_eq!(archive_key(1), "notification:1");
    assert_eq!(archive_key(0), "notification:0");
    assert_eq!(archive_key(1234), "notification:1234");
    assert_eq!(archive_key(u64::MAX), "notification:18446744073709551615");
}

#[test]
fn archive_write_keeps_the_bytes_verbatim_without_expiry() {
    let body = vec![0u8, 255, 10, 13, b'{', b'"', 0x80];
    let write = archive_write(17, body.clone());
    assert_eq!(
        write,
        StoreWrite { key: "notification:17".to_string(), value: body, expiry_seconds: None }
    );
}

#[test]
fn archive_write_of_an_empty_payload() {
    let write = archive_write(3, Vec::new());
    assert_eq!(write.key, "notification:3");
    assert!(write.value.is_empty());
    assert_eq!(write.expiry_seconds, None);
}

#[test]
fn same_tag_gives_the_same_key() {
    assert_eq!(archive_write(5, vec![1]).key, archive_write(5, vec![2]).key);
    assert_ne!(archive_key(5), archive_key(55));
}
