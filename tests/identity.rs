use databench_rs::identity::{identity_hash, received_identity, slash_topic_identity};

fn expected(joined: &str, payload: &[u8]) -> String {
    let mut data = joined.as_bytes().to_vec();
    data.extend_from_slice(payload);
    hex::encode(blake3::hash(&data).as_bytes())
}

#[test]
fn identity_is_blake3_hex_of_joined_topic_and_payload() {
    let h = identity_hash("umh.v1.plant", "site1.area.17", b"{\"value\":\"1\"}");
    assert_eq!(h, expected("umh.v1.plant.site1.area.17", b"{\"value\":\"1\"}"));
    assert_eq!(h.len(), 64);
    assert!(h.chars().all(|c| c.is_ascii_hexdigit() && !c.is_ascii_uppercase()));
}

#[test]
fn identity_is_deterministic() {
    let a = identity_hash("umh.v1", "x.1", b"payload");
    let b = identity_hash("umh.v1", "x.1", b"payload");
    assert_eq!(a, b);
}

#[test]
fn identity_depends_on_the_join_only() {
    let a = identity_hash("umh.v1", "x.1", b"payload");
    let b = identity_hash("umh", "v1.x.1", b"payload");
    assert_eq!(a, b);
}

#[test]
fn identity_changes_with_one_payload_byte() {
    let a = identity_hash("umh.v1", "x.1", b"payload");
    let b = identity_hash("umh.v1", "x.1", b"paylaad");
    assert_ne!(a, b);
    let c = identity_hash("umh.v1", "x.1", b"");
    assert_eq!(c, expected("umh.v1.x.1", b""));
}

#[test]
fn received_side_matches_sent_side() {
    let sent = identity_hash("umh.v1.plant", "site1.area.17", b"{}");
    let got = received_identity("umh.v1.plant", "site1.area.17".as_bytes(), b"{}");
    assert_eq!(sent, got);
    let mqtt = slash_topic_identity("umh/v1/plant/site1/area/17", b"{}");
    assert_eq!(sent, mqtt);
    let empty_key = received_identity("t", b"", b"p");
    assert_eq!(empty_key, expected("t.", b"p"));
}

#[test]
fn key_bytes_that_are_not_utf8_are_read_lossily() {
    let got = received_identity("t", &[0x66, 0xff, 0x6f], b"p");
    assert_eq!(got, expected("t.f\u{fffd}o", b"p"));
    assert_eq!(got.len(), 64);
}
