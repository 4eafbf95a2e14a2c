use std::collections::HashSet;

use things3_cloud::ids::base58::{base58_decode, base58_encode};
use things3_cloud::ids::matching::{lcp_len, prefix_matches, shortest_unique_prefixes};
use things3_cloud::ids::things_id::{parse_things_id, uuid_to_bytes, ThingsId};

const LEGACY_UUID: &str = "3C6BBD49-8D11-4FFF-8B0E-B8F33FA9C00A";
const LEGACY_UUID_LOWER: &str = "3c6bbd49-8d11-4fff-8b0e-b8f33fa9c00a";

fn compact_for_legacy() -> String {
    parse_things_id(LEGACY_UUID).unwrap().to_string()
}

fn prefix_of(prefixes: &[(ThingsId, String)], id: &ThingsId) -> String {
    prefixes.iter().find(|(i, _)| i == id).map(|(_, p)| p.clone()).unwrap()
}

#[test]
fn parse_legacy_uuid_uppercase() {
    let id: ThingsId = LEGACY_UUID.parse().unwrap();
    assert_eq!(id.to_string(), compact_for_legacy());
    assert_eq!(id.to_string().len(), 22);
}

#[test]
fn parse_legacy_uuid_lowercase() {
    let upper: ThingsId = LEGACY_UUID.parse().unwrap();
    let lower: ThingsId = LEGACY_UUID_LOWER.parse().unwrap();
    assert_eq!(upper, lower, "UUID parsing must be case-insensitive");
}

#[test]
fn parse_compact_preserved() {
    let compact = compact_for_legacy();
    let id: ThingsId = compact.parse().unwrap();
    assert_eq!(id.to_string(), compact);
}

#[test]
fn empty_string_is_error() {
    let err = "".parse::<ThingsId>();
    assert!(err.is_err());
}

#[test]
fn display_roundtrip() {
    let id: ThingsId = LEGACY_UUID.parse().unwrap();
    let displayed = id.to_string();
    let reparsed: ThingsId = displayed.parse().unwrap();
    assert_eq!(id, reparsed);
}

#[test]
fn random_is_unique() {
    let ids: HashSet<String> = (0..20).map(|_| ThingsId::random().to_string()).collect();
    assert_eq!(ids.len(), 20, "random IDs should be unique");
}

#[test]
fn random_is_compact_length() {
    let id = ThingsId::random();
    assert_eq!(id.to_string().len(), 22);
}

#[test]
fn random_ids_always_have_full_length() {
    for _ in 0..500 {
        assert_eq!(ThingsId::random().to_string().len(), 22);
    }
}

#[test]
fn into_string() {
    let id: ThingsId = LEGACY_UUID.parse().unwrap();
    let s: String = id.clone().into();
    assert_eq!(s, id.to_string());
}

#[test]
fn as_ref_bytes() {
    let id: ThingsId = LEGACY_UUID.parse().unwrap();
    let r: &[u8; 16] = id.as_ref();
    assert_eq!(r, id.as_bytes());
}

#[test]
fn rejects_invalid_compact_id() {
    assert!("not-a-things-id".parse::<ThingsId>().is_err());
    assert!("0OIl".parse::<ThingsId>().is_err());
}

#[test]
fn base58_roundtrip_for_internal_bytes() {
    let legacy = parse_things_id(LEGACY_UUID).unwrap();
    let samples = [[0u8; 16], [255u8; 16], *legacy.as_bytes()];
    for sample in samples {
        let encoded = base58_encode(&sample);
        let decoded = base58_decode(&encoded).unwrap();
        assert_eq!(decoded, sample.to_vec());
    }
}

#[test]
fn shortest_unique_prefixes_are_actually_unique() {
    let ids: Vec<ThingsId> = (0..200).map(|_| ThingsId::random()).collect();
    let prefixes = shortest_unique_prefixes(&ids);

    assert_eq!(prefixes.len(), ids.len());

    for (id, prefix) in &prefixes {
        let matches: Vec<&ThingsId> = ids
            .iter()
            .filter(|other| other.to_string().starts_with(prefix.as_str()))
            .collect();
        assert_eq!(
            matches.len(),
            1,
            "prefix {:?} for {:?} matched {} IDs: {:?}",
            prefix,
            id.to_string(),
            matches.len(),
            matches.iter().map(|m| m.to_string()).collect::<Vec<_>>()
        );
        assert_eq!(matches[0], id);
    }
}

#[test]
fn shortest_unique_prefixes_are_minimal() {
    let ids: Vec<ThingsId> = (0..200).map(|_| ThingsId::random()).collect();
    let prefixes = shortest_unique_prefixes(&ids);

    for (_id, prefix) in &prefixes {
        if prefix.len() <= 1 {
            continue;
        }
        let shorter = &prefix[..prefix.len() - 1];
        let matches: Vec<&ThingsId> = ids
            .iter()
            .filter(|other| other.to_string().starts_with(shorter))
            .collect();
        assert!(
            matches.len() > 1,
            "prefix {:?} is not minimal — {:?} (one char shorter) still only matches 1 ID",
            prefix,
            shorter
        );
    }
}

#[test]
fn single_id() {
    let ids = vec![ThingsId::random()];
    let prefixes = shortest_unique_prefixes(&ids);
    assert_eq!(prefixes.len(), 1);
    let prefix = &prefixes[0].1;
    assert_eq!(prefix.len(), 1, "single ID should have 1-char prefix");
}

#[test]
fn empty_input() {
    let prefixes = shortest_unique_prefixes(&[]);
    assert!(prefixes.is_empty());
}

#[test]
fn legacy_uuid_maps_to_its_digest_bytes() {
    let uuid = [
        0x3c, 0x6b, 0xbd, 0x49, 0x8d, 0x11, 0x4f, 0xff, 0x8b, 0x0e, 0xb8, 0xf3, 0x3f, 0xa9, 0xc0, 0x0a,
    ];
    let id = parse_things_id(LEGACY_UUID).unwrap();
    assert_eq!(*id.as_bytes(), uuid_to_bytes(&uuid));
    assert_ne!(*id.as_bytes(), uuid);
}

#[test]
fn parse_error_keeps_the_input() {
    let err = parse_things_id("0OIl").unwrap_err();
    assert_eq!(err.input(), "0OIl");
}

#[test]
fn base58_leading_zero_bytes_become_ones() {
    assert_eq!(base58_encode(&[0u8, 0u8, 1u8]), "112");
    assert_eq!(base58_decode("112"), Some(vec![0u8, 0u8, 1u8]));
    assert_eq!(base58_decode("0"), None);
}

#[test]
fn lcp_counts_shared_leading_chars() {
    assert_eq!(lcp_len("abcd", "abxy"), 2);
    assert_eq!(lcp_len("abc", "abc"), 3);
    assert_eq!(lcp_len("", "abc"), 0);
}

#[test]
fn prefix_matches_keeps_ids_with_the_prefix() {
    let a = parse_things_id("A7h5eCi24RvAWKC3Hv3muf").unwrap();
    let c = parse_things_id("KGvAPpMrzHAKMdgMiERP1V").unwrap();
    let mut sorted = vec![a, c];
    sorted.sort();
    let found = prefix_matches(&sorted, "A7h");
    assert_eq!(found, vec![a]);
}

#[test]
fn prefixes_of_two_close_ids_differ() {
    let a = parse_things_id("A7h5eCi24RvAWKC3Hv3muf").unwrap();
    let c = parse_things_id("KGvAPpMrzHAKMdgMiERP1V").unwrap();
    let prefixes = shortest_unique_prefixes(&[a, c]);
    assert_eq!(prefix_of(&prefixes, &a), "A");
    assert_eq!(prefix_of(&prefixes, &c), "K");
}

#[test]
fn string_from_id_is_its_compact_text() {
    let text = "A7h5eCi24RvAWKC3Hv3muf";
    let id: ThingsId = text.parse().unwrap();
    assert_eq!(String::from(id), text);
    let bytes: &[u8; 16] = id.as_ref();
    assert_eq!(ThingsId::from_bytes(*bytes), id);
}
